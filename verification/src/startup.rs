use vstd::prelude::*;
use crate::connections::{opt_text, parsed_u16, parse_u16};
use crate::text::{push_str, same_text, string_of, texts_of};

verus! {

/// The desktop application: what it decides while starting up.
pub struct Application;

/// How the desktop application was asked to run.
pub struct LaunchOptions {
    pub headless: bool,
    pub webui: bool,
    pub port: u16,
    pub host: String,
}

/// Whether an argument list holds `flag`.
pub open spec fn has_flag(args: Seq<Seq<char>>, flag: Seq<char>) -> bool {
    args.contains(flag)
}

/// The argument after the first occurrence of `flag`, if there is one.
pub open spec fn value_after(args: Seq<Seq<char>>, flag: Seq<char>) -> Option<Seq<char>>
    decreases args.len(),
{
    if args.len() == 0 {
        None
    } else if args[0] == flag {
        if args.len() > 1 { Some(args[1]) } else { None }
    } else {
        value_after(args.drop_first(), flag)
    }
}

/// The port the API listens on: the number after `--port`, else 7878.
pub open spec fn port_of(args: Seq<Seq<char>>) -> u16 {
    match value_after(args, "--port"@) {
        Some(v) => match parsed_u16(v) {
            Some(p) => p,
            None => 7878,
        },
        None => 7878,
    }
}

/// The address the API binds to: the argument after `--host`, else the
/// loopback address.
pub open spec fn host_of(args: Seq<Seq<char>>) -> Seq<char> {
    match value_after(args, "--host"@) {
        Some(h) => h,
        None => "127.0.0.1"@,
    }
}


fn arg_after(args: &Vec<String>, flag: &str) -> (r: Option<String>)
    ensures
        opt_text(r) == value_after(texts_of(args@), flag@),
{
    let ghost a = texts_of(args@);
    let mut i: usize = 0;
    assert(a.skip(0) =~= a);
    while i < args.len()
        invariant
            0 <= i <= args.len(),
            a == texts_of(args@),
            value_after(a, flag@) == value_after(a.skip(i as int), flag@),
        decreases args.len() - i,
    {
        if same_text(args[i].as_str(), flag) {
            if i + 1 < args.len() {
                return Some(args[i + 1].clone());
            } else {
                return None;
            }
        }
        assert(a.skip(i as int).drop_first() =~= a.skip(i + 1));
        i = i + 1;
    }
    None
}

impl Application {
    /// Reads the command line: `--headless`, `--webui`, `--port N` and
    /// `--host H` (each value is the argument right after the first
    /// occurrence of its flag).
    pub fn launch_options(args: &Vec<String>) -> (r: LaunchOptions)
        ensures
            r.headless == has_flag(texts_of(args@), "--headless"@),
            r.webui == has_flag(texts_of(args@), "--webui"@),
            r.port == port_of(texts_of(args@)),
            r.host@ == host_of(texts_of(args@)),
    {
        let headless = crate::text::contains_string(args.as_slice(), "--headless");
        let webui = crate::text::contains_string(args.as_slice(), "--webui");
        let port = match arg_after(args, "--port") {
            Some(v) => match parse_u16(v.as_str()) {
                Some(p) => p,
                None => 7878,
            },
            None => 7878,
        };
        let host = match arg_after(args, "--host") {
            Some(h) => h,
            None => "127.0.0.1".to_owned(),
        };
        LaunchOptions { headless, webui, port, host }
    }

    /// The warning shown when a headless API is reachable from the
    /// network: any host but the loopback ones.
    pub fn network_warning(headless: bool, host: &str, port: u16) -> (r: Option<(String, u16)>)
        ensures
            match r {
                Some((h, p)) => headless && host@ != "127.0.0.1"@ && host@ != "localhost"@ && h@ == host@ && p == port,
                None => !(headless && host@ != "127.0.0.1"@ && host@ != "localhost"@),
            },
    {
        if headless && !same_text(host, "127.0.0.1") && !same_text(host, "localhost") {
            Some((host.to_owned(), port))
        } else {
            None
        }
    }

    /// The favourites on first start: the stored ones, else the root and
    /// the home folder (which must then be saved, as the second result says).
    pub fn favorites_or_default(stored: Option<Vec<String>>) -> (r: (Vec<String>, bool))
        ensures
            match stored {
                Some(v) => r.0@ == v@ && !r.1,
                None => texts_of(r.0@) == seq!["local_fs:/"@, "local_fs:~"@] && r.1,
            },
    {
        match stored {
            Some(v) => (v, false),
            None => {
                let v = vec!["local_fs:/".to_owned(), "local_fs:~".to_owned()];
                assert(texts_of(v@) =~= seq!["local_fs:/"@, "local_fs:~"@]);
                (v, true)
            },
        }
    }

    /// The device id on start: the stored one (even empty), else a fresh
    /// random one that must be saved.
    pub fn device_id(stored: Option<String>) -> (r: (String, bool))
        ensures
            match opt_text(stored) {
                Some(s) => r.0@ == s && !r.1,
                None => r.1,
            },
            r.1 ==> crate::boot::is_v4_uuid_text(r.0@),
    {
        match stored {
            Some(s) => (s, false),
            None => (crate::boot::random_uuid(), true),
        }
    }

    /// The lines of the start-up banner.
    pub fn banner(version: &str, os: &str, app_type: &str, build_type: &str, node_id: &str) -> (r: Vec<String>)
        ensures
            texts_of(r@) == seq![
                "===================================================="@,
                "🚀 IceCommander - Desktop Node Starting Up"@,
                "   Version   : v"@ + version@,
                "   OS        : "@ + os@,
                "   App Type  : "@ + app_type@,
                "   Build Type: "@ + build_type@,
                "   Node ID   : "@ + node_id@,
                "===================================================="@,
            ],
    {
        let mut r: Vec<String> = Vec::new();
        r.push("====================================================".to_owned());
        r.push("🚀 IceCommander - Desktop Node Starting Up".to_owned());
        r.push(labeled("   Version   : v", version));
        r.push(labeled("   OS        : ", os));
        r.push(labeled("   App Type  : ", app_type));
        r.push(labeled("   Build Type: ", build_type));
        r.push(labeled("   Node ID   : ", node_id));
        r.push("====================================================".to_owned());
        assert(texts_of(r@) =~= seq![
            "===================================================="@,
            "🚀 IceCommander - Desktop Node Starting Up"@,
            "   Version   : v"@ + version@,
            "   OS        : "@ + os@,
            "   App Type  : "@ + app_type@,
            "   Build Type: "@ + build_type@,
            "   Node ID   : "@ + node_id@,
            "===================================================="@,
        ]);
        r
    }
}

fn labeled(label: &str, value: &str) -> (r: String)
    ensures
        r@ == label@ + value@,
{
    let mut v: Vec<char> = Vec::new();
    push_str(&mut v, label);
    push_str(&mut v, value);
    string_of(v.as_slice())
}

} // verus!
