use vstd::prelude::*;
use crate::connections::opt_text;
use crate::network::{NodeInfo, ResourceType, SharedResource};
use crate::text::{chars_of, push_str, same_text, string_of, trim, trim_chars};

verus! {

/// The device name used when the machine has no usable host name.
pub open spec fn fallback_device_name() -> Seq<char> {
    "IceCommander Client"@
}

/// The device name a host name gives: the host name trimmed, unless that
/// leaves nothing (or there is no host name).
pub open spec fn name_from_host(host: Option<Seq<char>>) -> Seq<char> {
    match host {
        Some(h) => if trim(h).len() > 0 { trim(h) } else { fallback_device_name() },
        None => fallback_device_name(),
    }
}

/// `hostname::get()`, as text when it is valid Unicode. What it returns
/// depends on the machine; nothing is promised of it.
#[verifier::external_body]
fn system_host_name() -> (r: Option<String>) {
    hostname::get().ok().and_then(|h| h.into_string().ok())
}

/// The device name for a host name.
pub fn device_name_from_host(host: Option<String>) -> (r: String)
    ensures
        r@ == name_from_host(opt_text(host)),
{
    match host {
        Some(h) => {
            let t = trim_chars(&chars_of(h.as_str()));
            if t.len() > 0 {
                string_of(t.as_slice())
            } else {
                "IceCommander Client".to_owned()
            }
        },
        None => "IceCommander Client".to_owned(),
    }
}

/// The name this device announces when none is configured: the machine's
/// host name, trimmed, or a fixed name.
pub fn default_device_name() -> (r: String)
    ensures
        exists|h: Option<Seq<char>>| r@ == name_from_host(h),
{
    let h = system_host_name();
    device_name_from_host(h)
}

/// The configured device name: the stored one, else the one stored under
/// the old key, trimmed; nothing when that leaves nothing. A stored empty
/// name does not fall back to the old key.
pub open spec fn configured_name(stored: Option<Seq<char>>, legacy: Option<Seq<char>>) -> Option<Seq<char>> {
    let chosen = match stored {
        Some(s) => Some(s),
        None => legacy,
    };
    match chosen {
        Some(s) => if trim(s).len() > 0 { Some(trim(s)) } else { None },
        None => None,
    }
}

/// The configured device name, if there is a usable one.
pub fn configured_device_name(stored: Option<String>, legacy: Option<String>) -> (r: Option<String>)
    ensures
        opt_text(r) == configured_name(opt_text(stored), opt_text(legacy)),
{
    let chosen = match stored {
        Some(s) => Some(s),
        None => legacy,
    };
    match chosen {
        Some(s) => {
            let t = trim_chars(&chars_of(s.as_str()));
            if t.len() > 0 { Some(string_of(t.as_slice())) } else { None }
        },
        None => None,
    }
}

/// The name this device goes by: the configured one, else the default.
pub fn device_name(stored: Option<String>, legacy: Option<String>) -> (r: String)
    ensures
        configured_name(opt_text(stored), opt_text(legacy)) matches Some(n) ==> r@ == n,
        configured_name(opt_text(stored), opt_text(legacy)) is None ==> exists|h: Option<Seq<char>>| r@ == name_from_host(h),
{
    match configured_device_name(stored, legacy) {
        Some(n) => n,
        None => default_device_name(),
    }
}

/// The name to store when the user sets one: the typed name trimmed, or
/// the default when that leaves nothing.
pub fn device_name_to_store(name: &str) -> (r: String)
    ensures
        trim(name@).len() > 0 ==> r@ == trim(name@),
        trim(name@).len() == 0 ==> exists|h: Option<Seq<char>>| r@ == name_from_host(h),
{
    let t = trim_chars(&chars_of(name));
    if t.len() > 0 {
        string_of(t.as_slice())
    } else {
        default_device_name()
    }
}

/// A lower-case hexadecimal digit.
pub open spec fn is_lower_hex(c: char) -> bool {
    ('0' <= c <= '9') || ('a' <= c <= 'f')
}

/// The text of a random (version 4, RFC 4122 variant) UUID as `Uuid`'s
/// `Display` writes it: 36 characters, `-` at positions 8, 13, 18 and 23,
/// the version digit `4` at 14, the variant digit `8`, `9`, `a` or `b` at
/// 19, and lower-case hexadecimal digits everywhere else.
pub open spec fn is_v4_uuid_text(s: Seq<char>) -> bool {
    &&& s.len() == 36
    &&& forall|i: int|
        0 <= i < 36 ==> if i == 8 || i == 13 || i == 18 || i == 23 {
            #[trigger] s[i] == '-'
        } else if i == 14 {
            s[i] == '4'
        } else if i == 19 {
            s[i] == '8' || s[i] == '9' || s[i] == 'a' || s[i] == 'b'
        } else {
            is_lower_hex(s[i])
        }
}

/// `Uuid::new_v4().to_string()`: a fresh random UUID. Its value is random;
/// its form is fixed: `new_v4` sets the version and variant bits, and
/// `Display` writes the lower-case hyphenated form.
#[verifier::external_body]
pub(crate) fn random_uuid() -> (r: String)
    ensures
        is_v4_uuid_text(r@),
{
    uuid::Uuid::new_v4().to_string()
}

/// The device id: the stored one when it is not empty, else a fresh random
/// UUID, which must then be stored (the second result says so).
pub fn device_id(stored: Option<String>) -> (r: (String, bool))
    ensures
        match opt_text(stored) {
            Some(s) => if s.len() > 0 { r.0@ == s && !r.1 } else { r.1 },
            None => r.1,
        },
        r.1 ==> is_v4_uuid_text(r.0@),
{
    match stored {
        Some(s) => if !s.as_str().is_empty() {
            (s, false)
        } else {
            (random_uuid(), true)
        },
        None => (random_uuid(), true),
    }
}

/// The key pair that identifies this device.
pub struct Identity {
    pub private_key: String,
    pub public_key: String,
}

/// The stored key pair, kept only when both halves are there; else a new
/// pair must be made.
pub fn stored_identity(private_key: String, public_key: String) -> (r: Option<Identity>)
    ensures
        r is Some == (private_key@.len() > 0 && public_key@.len() > 0),
        r matches Some(id) ==> id.private_key@ == private_key@ && id.public_key@ == public_key@,
{
    if !private_key.as_str().is_empty() && !public_key.as_str().is_empty() {
        Some(Identity { private_key, public_key })
    } else {
        None
    }
}

/// Peer-to-peer networking is on unless it was turned off.
pub fn p2p_enabled(setting: Option<bool>) -> (r: bool)
    ensures
        r == match setting {
            Some(b) => b,
            None => true,
        },
{
    match setting {
        Some(b) => b,
        None => true,
    }
}

/// A refresh token to sign in with, or why there is none.
pub fn stored_token(token: Option<String>) -> (r: Result<String, String>)
    ensures
        match opt_text(token) {
            Some(t) => if t.len() > 0 {
                r matches Ok(s) && s@ == t
            } else {
                r matches Err(e) && e@ == "no stored account: sign in from the desktop app first"@
            },
            None => r matches Err(e) && e@ == "no stored account: sign in from the desktop app first"@,
        },
{
    match token {
        Some(t) => if !t.as_str().is_empty() {
            Ok(t)
        } else {
            Err("no stored account: sign in from the desktop app first".to_owned())
        },
        None => Err("no stored account: sign in from the desktop app first".to_owned()),
    }
}

/// The address the network thread connects to after sign-in.
pub fn session_url(ws_url: &str, access_token: &str, node_id: &str) -> (r: String)
    ensures
        r@ == ws_url@ + "?token="@ + access_token@ + "&session_id="@ + node_id@,
{
    let mut v: Vec<char> = Vec::new();
    push_str(&mut v, ws_url);
    push_str(&mut v, "?token=");
    push_str(&mut v, access_token);
    push_str(&mut v, "&session_id=");
    push_str(&mut v, node_id);
    string_of(v.as_slice())
}

} // verus!
