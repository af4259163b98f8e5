use ice_commander::network::ResourceType;
use ice_commander::shares::{add_share, build_all_resources, fs_resource_id, remove_share, set_share_path, Shares};

#[test]
fn add_share_dedups_names() {
    let mut c = Shares::new();
    assert_eq!(add_share(&mut c, "Docs", "/a"), "Docs");
    assert_eq!(add_share(&mut c, "Docs", "/b"), "Docs (2)");
    assert_eq!(add_share(&mut c, "Docs", "/c"), "Docs (3)");
    assert_eq!(c.len(), 3);
    assert_eq!(c.get("Docs (2)"), Some("/b".to_string()));
}

#[test]
fn remove_and_repath() {
    let mut c = Shares::new();
    add_share(&mut c, "Music", "/m");
    set_share_path(&mut c, "Music", "/m2");
    assert_eq!(c.get("Music"), Some("/m2".to_string()));
    remove_share(&mut c, "Music");
    assert!(c.is_empty());
}

#[test]
fn single_share_resource_carries_its_name_and_shares_json() {
    let mut c = Shares::new();
    add_share(&mut c, "Photos", "/p");
    let res = build_all_resources(&c, "dev-1", "Shared folders");
    assert_eq!(res.len(), 2);
    let fs = &res[1];
    assert_eq!(fs.resource_type, ResourceType::Filesystem);
    assert_eq!(fs.name, "Photos");
    assert_eq!(fs.id, fs_resource_id("dev-1"));
    let cfg_json: serde_json::Value = serde_json::from_str(fs.config.as_ref().unwrap()).unwrap();
    assert_eq!(cfg_json["shares"][0]["name"], "Photos");
    assert_eq!(cfg_json["shares"][0]["path"], "/p");
}

#[test]
fn no_shares_means_no_fs_resource() {
    let c = Shares::new();
    let res = build_all_resources(&c, "dev-1", "Shared folders");
    assert_eq!(res.len(), 1);
    assert_eq!(res[0].resource_type, ResourceType::SystemInfo);
}

#[test]
fn two_shares_get_umbrella_name_and_both_in_json() {
    let mut c = Shares::new();
    add_share(&mut c, "Docs", "/docs");
    add_share(&mut c, "Music", "/music");
    let res = build_all_resources(&c, "dev-1", "Shared folders");
    let fs = &res[1];
    assert_ne!(fs.name, "Docs");
    assert_ne!(fs.name, "Music");
    let cfg_json: serde_json::Value = serde_json::from_str(fs.config.as_ref().unwrap()).unwrap();
    let arr = cfg_json["shares"].as_array().unwrap();
    assert_eq!(arr.len(), 2);
    assert_eq!(arr[0]["name"], "Docs");
    assert_eq!(arr[0]["path"], "/docs");
    assert_eq!(arr[1]["name"], "Music");
    assert_eq!(arr[1]["path"], "/music");
}

#[test]
fn share_name_separators_are_folded() {
    let mut c = Shares::new();
    assert_eq!(add_share(&mut c, "My/Secret\\Docs", "/x"), "My-Secret-Docs");
    assert_eq!(add_share(&mut c, "  ", "/y"), "Shared folder");
}

#[test]
fn fs_resource_id_is_stable() {
    assert_eq!(fs_resource_id("dev-1"), fs_resource_id("dev-1"));
    assert_ne!(fs_resource_id("dev-1"), fs_resource_id("dev-2"));
}

#[test]
fn config_json_matches_p2p_node_router_type() {
    let mut c = Shares::new();
    add_share(&mut c, "Photos", "/home/me/pics");
    let one = build_all_resources(&c, "dev-1", "Shared folders");
    let fs_one: serde_json::Value = serde_json::from_str(one[1].config.as_ref().unwrap()).unwrap();
    let shares = fs_one["shares"].as_array().unwrap();
    assert_eq!(shares.len(), 1);
    assert_eq!(shares[0]["name"], "Photos");
    assert_eq!(shares[0]["path"], "/home/me/pics");

    add_share(&mut c, "Videos", "/home/me/vids");
    let many = build_all_resources(&c, "dev-1", "Shared folders");
    let fs_many: serde_json::Value = serde_json::from_str(many[1].config.as_ref().unwrap()).unwrap();
    let names: Vec<&str> = fs_many["shares"].as_array().unwrap().iter().map(|s| s["name"].as_str().unwrap()).collect();
    assert!(names.contains(&"Photos") && names.contains(&"Videos"));
    assert_eq!(names.len(), 2);
}

#[test]
fn the_fs_resource_id_is_the_dns_uuid_of_the_device_id() {
    let expected = uuid::Uuid::new_v5(&uuid::Uuid::NAMESPACE_DNS, b"dev-1-fs").to_string();
    assert_eq!(fs_resource_id("dev-1"), expected);
}

#[test]
fn share_names_with_quotes_are_escaped_in_the_config() {
    let mut c = Shares::new();
    add_share(&mut c, "My \"quoted\" name", "C:\\x");
    let res = build_all_resources(&c, "dev-1", "Shared folders");
    let cfg_json: serde_json::Value = serde_json::from_str(res[1].config.as_ref().unwrap()).unwrap();
    assert_eq!(cfg_json["shares"][0]["name"], "My \"quoted\" name");
    assert_eq!(cfg_json["shares"][0]["path"], "C:\\x");
}

#[test]
fn the_system_info_resource_is_always_first() {
    let c = Shares::new();
    let res = build_all_resources(&c, "dev-1", "Shared folders");
    assert_eq!(res[0].name, "System Info");
    let expected = uuid::Uuid::new_v5(&uuid::Uuid::NAMESPACE_DNS, b"dev-1-sysinfo").to_string();
    assert_eq!(res[0].id, expected);
}

#[test]
fn a_share_added_moved_and_removed_leaves_the_others_as_they_were() {
    let mut s = Shares::new();
    add_share(&mut s, "Docs", "/d");
    add_share(&mut s, "Music", "/m");
    let before = s.entries();
    let name = add_share(&mut s, "Docs", "/x");
    assert_eq!(name, "Docs (2)");
    assert!(set_share_path(&mut s, &name, "/y"));
    remove_share(&mut s, &name);
    assert_eq!(s.entries(), before);
}
