use ice_commander::naming::{keep_or_number, plan_names, same_filesystem, ClipItem, FsRef};

fn local(instance: u64) -> FsRef {
    FsRef { instance, is_local: true }
}

fn remote(instance: u64) -> FsRef {
    FsRef { instance, is_local: false }
}

fn unique_name(name: &str, is_dir: bool, taken: &[String]) -> String {
    keep_or_number(name, is_dir, &taken.to_vec())
}

fn taken(v: &[&str]) -> Vec<String> {
    v.iter().map(|s| s.to_string()).collect()
}

fn ci(name: &str, is_dir: bool) -> ClipItem {
    ClipItem { name: name.to_string(), is_dir, size: 0, permissions: None }
}

fn get<'a>(map: &'a [(String, String)], key: &str) -> Option<&'a str> {
    map.iter().find(|(k, _)| k == key).map(|(_, v)| v.as_str())
}

#[test]
fn one_provider_is_the_same_filesystem_as_itself() {
    let fs = remote(7);
    assert!(same_filesystem(Some(fs), fs));
}

#[test]
fn two_local_panels_share_a_filesystem_despite_separate_instances() {
    assert!(same_filesystem(Some(local(1)), local(2)));
}

#[test]
fn a_local_and_a_remote_at_the_same_path_are_not_the_same_place() {
    assert!(!same_filesystem(Some(local(1)), remote(2)));
    assert!(!same_filesystem(Some(remote(1)), local(2)));
}

#[test]
fn two_distinct_remotes_are_not_the_same_place() {
    assert!(!same_filesystem(Some(remote(1)), remote(2)));
}

#[test]
fn a_lost_source_level_is_never_the_same_place() {
    assert!(!same_filesystem(None, local(1)));
}

#[test]
fn planning_maps_every_clashing_item_to_a_free_name() {
    let map = plan_names(&[ci("a.txt", false)], taken(&["a.txt"]));
    assert_eq!(get(&map, "a.txt"), Some("a (1).txt"));
}

#[test]
fn two_clashing_items_never_get_handed_the_same_name() {
    let map = plan_names(&[ci("a.txt", false), ci("a (1).txt", false)], taken(&["a.txt", "a (1).txt"]));
    let first = get(&map, "a.txt").unwrap();
    let second = get(&map, "a (1).txt").unwrap();
    assert_ne!(first, second, "both were numbered against the same list");
    assert_eq!(first, "a (2).txt");
    assert_eq!(second, "a (1) (1).txt", "an existing counter is not parsed, another is appended");
}

#[test]
fn planning_keeps_a_name_nothing_clashes_with() {
    let map = plan_names(&[ci("b.txt", false)], taken(&["a.txt"]));
    assert_eq!(get(&map, "b.txt"), Some("b.txt"));
}

#[test]
fn a_folder_is_numbered_without_being_split_at_its_dot() {
    let map = plan_names(&[ci("backup.2024", true)], taken(&["backup.2024"]));
    assert_eq!(get(&map, "backup.2024"), Some("backup.2024 (1)"));
}

#[test]
fn a_free_name_is_left_alone() {
    assert_eq!(unique_name("a.txt", false, &taken(&["b.txt"])), "a.txt");
}

#[test]
fn a_clash_gets_a_counter_before_the_extension() {
    assert_eq!(unique_name("a.txt", false, &taken(&["a.txt"])), "a (1).txt");
    assert_eq!(unique_name("a.txt", false, &taken(&["a.txt", "a (1).txt"])), "a (2).txt");
}

#[test]
fn a_name_without_an_extension_still_counts_up() {
    assert_eq!(unique_name("README", false, &taken(&["README"])), "README (1)");
}

#[test]
fn a_dotfile_keeps_its_leading_dot() {
    assert_eq!(unique_name(".bashrc", false, &taken(&[".bashrc"])), ".bashrc (1)");
}

#[test]
fn a_double_extension_only_splits_at_the_last_dot() {
    assert_eq!(unique_name("app.tar.gz", false, &taken(&["app.tar.gz"])), "app.tar (1).gz");
}

#[test]
fn planned_names_never_clash_with_each_other_or_the_folder() {
    let items = [ci("a.txt", false), ci("a.txt", false), ci("a (1).txt", false)];
    let map = plan_names(&items, taken(&["a.txt"]));
    let outs: Vec<&str> = map.iter().map(|(_, v)| v.as_str()).collect();
    assert_eq!(outs, vec!["a (1).txt", "a (2).txt", "a (1) (1).txt"]);
}
