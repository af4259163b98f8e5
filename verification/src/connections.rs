use vstd::prelude::*;
use crate::text::{chars_eq, chars_of, contains_text, decimal, eq_ignore_ascii_case, eq_ignore_case, has_prefix, has_substring, lowercase, push_all, push_str, same_text, starts_with, string_of, to_decimal, to_lowercase, to_uppercase, uppercase};

verus! {

/// A saved FTP, SFTP or WebDAV connection, as the settings store it.
#[derive(Clone, Debug)]
pub struct FtpConnection {
    pub name: String,
    pub folder: Option<String>,
    pub protocol: String,
    pub host: String,
    pub port: u16,
    pub user: String,
    pub pass: Option<String>,
    pub auth_type: Option<String>,
    pub key_path: Option<String>,
    pub passphrase: Option<String>,
    pub remote_path: Option<String>,
    pub use_tunnel: Option<bool>,
    pub tunnel_host: Option<String>,
    pub tunnel_port: Option<u16>,
    pub tunnel_user: Option<String>,
    pub tunnel_auth_type: Option<String>,
    pub tunnel_pass: Option<String>,
    pub tunnel_key_path: Option<String>,
    pub tunnel_passphrase: Option<String>,
}

/// The text of an optional string.
pub open spec fn opt_text(o: Option<String>) -> Option<Seq<char>> {
    match o {
        Some(s) => Some(s@),
        None => None,
    }
}

/// A connection as plain values.
pub struct ConnView {
    pub name: Seq<char>,
    pub folder: Option<Seq<char>>,
    pub protocol: Seq<char>,
    pub host: Seq<char>,
    pub port: u16,
    pub user: Seq<char>,
    pub pass: Option<Seq<char>>,
    pub auth_type: Option<Seq<char>>,
    pub key_path: Option<Seq<char>>,
    pub passphrase: Option<Seq<char>>,
    pub remote_path: Option<Seq<char>>,
    pub use_tunnel: Option<bool>,
    pub tunnel_host: Option<Seq<char>>,
    pub tunnel_port: Option<u16>,
    pub tunnel_user: Option<Seq<char>>,
    pub tunnel_auth_type: Option<Seq<char>>,
    pub tunnel_pass: Option<Seq<char>>,
    pub tunnel_key_path: Option<Seq<char>>,
    pub tunnel_passphrase: Option<Seq<char>>,
}

impl View for FtpConnection {
    type V = ConnView;

    open spec fn view(&self) -> ConnView {
        ConnView {
            name: self.name@,
            folder: opt_text(self.folder),
            protocol: self.protocol@,
            host: self.host@,
            port: self.port,
            user: self.user@,
            pass: opt_text(self.pass),
            auth_type: opt_text(self.auth_type),
            key_path: opt_text(self.key_path),
            passphrase: opt_text(self.passphrase),
            remote_path: opt_text(self.remote_path),
            use_tunnel: self.use_tunnel,
            tunnel_host: opt_text(self.tunnel_host),
            tunnel_port: self.tunnel_port,
            tunnel_user: opt_text(self.tunnel_user),
            tunnel_auth_type: opt_text(self.tunnel_auth_type),
            tunnel_pass: opt_text(self.tunnel_pass),
            tunnel_key_path: opt_text(self.tunnel_key_path),
            tunnel_passphrase: opt_text(self.tunnel_passphrase),
        }
    }
}

/// A copy of an optional string.
pub fn copy_opt(o: &Option<String>) -> (r: Option<String>)
    ensures
        opt_text(r) == opt_text(*o),
{
    match o {
        Some(s) => Some(s.clone()),
        None => None,
    }
}

/// The views of a list of connections.
pub open spec fn conn_views(v: Seq<FtpConnection>) -> Seq<ConnView> {
    v.map_values(|c: FtpConnection| c@)
}

impl FtpConnection {
    /// A field-by-field copy.
    pub fn duplicate(&self) -> (r: FtpConnection)
        ensures
            r@ == self@,
    {
        FtpConnection {
            name: self.name.clone(),
            folder: copy_opt(&self.folder),
            protocol: self.protocol.clone(),
            host: self.host.clone(),
            port: self.port,
            user: self.user.clone(),
            pass: copy_opt(&self.pass),
            auth_type: copy_opt(&self.auth_type),
            key_path: copy_opt(&self.key_path),
            passphrase: copy_opt(&self.passphrase),
            remote_path: copy_opt(&self.remote_path),
            use_tunnel: self.use_tunnel,
            tunnel_host: copy_opt(&self.tunnel_host),
            tunnel_port: self.tunnel_port,
            tunnel_user: copy_opt(&self.tunnel_user),
            tunnel_auth_type: copy_opt(&self.tunnel_auth_type),
            tunnel_pass: copy_opt(&self.tunnel_pass),
            tunnel_key_path: copy_opt(&self.tunnel_key_path),
            tunnel_passphrase: copy_opt(&self.tunnel_passphrase),
        }
    }
}

/// The value of a run of decimal digits.
pub open spec fn digits_value(d: Seq<char>) -> nat
    decreases d.len(),
{
    if d.len() == 0 {
        0
    } else {
        digits_value(d.drop_last()) * 10 + ((d.last() as u32) - 48) as nat
    }
}

/// Whether every character is an ASCII digit.
pub open spec fn all_digits(d: Seq<char>) -> bool {
    forall|i: int| 0 <= i < d.len() ==> '0' <= #[trigger] d[i] <= '9'
}

/// What `str::parse::<u16>` gives: an optional `+`, then at least one ASCII
/// digit and nothing else, with a value that fits in 16 bits.
pub open spec fn parsed_u16(s: Seq<char>) -> Option<u16> {
    let d = if s.len() > 0 && s[0] == '+' { s.drop_first() } else { s };
    if d.len() > 0 && all_digits(d) && digits_value(d) <= 0xFFFF {
        Some(digits_value(d) as u16)
    } else {
        None
    }
}

proof fn lemma_digits_value_monotone(d: Seq<char>, i: int)
    requires
        0 <= i <= d.len(),
        all_digits(d),
    ensures
        digits_value(d.take(i)) <= digits_value(d),
    decreases d.len(),
{
    if i < d.len() {
        assert(d.drop_last().take(i) =~= d.take(i));
        lemma_digits_value_monotone(d.drop_last(), i);
    } else {
        assert(d.take(i) =~= d);
    }
}

/// Parses a port number as `str::parse::<u16>` does.
pub fn parse_u16(s: &str) -> (r: Option<u16>)
    ensures
        r == parsed_u16(s@),
{
    let chars = chars_of(s);
    let start: usize = if chars.len() > 0 && chars[0] == '+' { 1 } else { 0 };
    let ghost d = if s@.len() > 0 && s@[0] == '+' { s@.drop_first() } else { s@ };
    if start >= chars.len() {
        return None;
    }
    assert(d =~= chars@.skip(start as int));
    assert(d.take(0) =~= Seq::<char>::empty());
    let mut value: u32 = 0;
    let mut i: usize = start;
    while i < chars.len()
        invariant
            start <= i <= chars.len(),
            1 <= start + 1 <= chars.len(),
            chars@ == s@,
            d == chars@.skip(start as int),
            d == (if s@.len() > 0 && s@[0] == '+' { s@.drop_first() } else { s@ }),
            all_digits(d.take(i - start)),
            value == digits_value(d.take(i - start)),
            value <= 0xFFFF,
        decreases chars.len() - i,
    {
        let c = chars[i];
        assert(d.take(i - start + 1).drop_last() =~= d.take(i - start));
        if c < '0' || c > '9' {
            assert(!all_digits(d)) by {
                assert(d[i - start] == c);
            }
            return None;
        }
        let digit = (c as u32) - 48;
        if value > (0xFFFF - digit) / 10 {
            assert(value * 10 + digit > 0xFFFF) by (nonlinear_arith)
                requires
                    value > (0xFFFF - digit) / 10,
                    digit <= 9,
            ;
            assert(digits_value(d.take(i - start + 1)) == value * 10 + digit);
            assert(!(digits_value(d) <= 0xFFFF) || !all_digits(d)) by {
                if all_digits(d) {
                    lemma_digits_value_monotone(d, i - start + 1);
                }
            }
            return None;
        }
        value = value * 10 + digit;
        i = i + 1;
    }
    assert(d.take(i - start) =~= d);
    Some(value as u16)
}

/// What the connection form holds when "Add" or "Save" is pressed. The
/// drop-downs are given by position: protocol 0 FTP, 1 SFTP, any other
/// WebDAV; authentication 0 password, 1 key.
pub struct ConnForm {
    pub name: String,
    pub host: String,
    pub port: String,
    pub user: String,
    pub protocol: u32,
    pub auth: u32,
    pub pass: String,
    pub key_path: String,
    pub passphrase: String,
    pub remote_path: String,
    pub use_tunnel: bool,
    pub tunnel_host: String,
    pub tunnel_port: String,
    pub tunnel_user: String,
    pub tunnel_auth: u32,
    pub tunnel_pass: String,
    pub tunnel_key_path: String,
    pub tunnel_passphrase: String,
}

/// A typed text, or nothing when it is empty.
pub open spec fn nonempty_text(s: Seq<char>) -> Option<Seq<char>> {
    if s.len() == 0 { None } else { Some(s) }
}

/// The protocol name a form position stands for.
pub open spec fn protocol_name(p: u32) -> Seq<char> {
    if p == 0 { "FTP"@ } else if p == 1 { "SFTP"@ } else { "WEBDAV"@ }
}

/// The port a protocol uses when none (or no valid one) is typed.
pub open spec fn default_port(p: u32) -> u16 {
    if p == 0 { 21 } else if p == 1 { 22 } else { 80 }
}

/// `v` when it is given, else `d`.
pub open spec fn or_default(v: Option<u16>, d: u16) -> u16 {
    match v {
        Some(x) => x,
        None => d,
    }
}

/// Whether the form has what a connection needs: a name, a host and a user.
pub open spec fn form_complete(f: ConnForm) -> bool {
    f.name@.len() > 0 && f.host@.len() > 0 && f.user@.len() > 0
}

/// The connection a complete form describes, filed in `folder`. Fields
/// that the chosen protocol and authentication do not use are left out.
pub open spec fn form_connection(f: ConnForm, folder: Option<Seq<char>>) -> ConnView {
    let sftp = f.protocol == 1;
    let tunnel = sftp && f.use_tunnel;
    ConnView {
        name: f.name@,
        folder,
        protocol: protocol_name(f.protocol),
        host: f.host@,
        port: or_default(parsed_u16(f.port@), default_port(f.protocol)),
        user: f.user@,
        pass: if f.protocol == 0 || f.auth == 0 { nonempty_text(f.pass@) } else { None },
        auth_type: if sftp { Some(if f.auth == 0 { "password"@ } else { "key"@ }) } else { None },
        key_path: if sftp && f.auth == 1 { nonempty_text(f.key_path@) } else { None },
        passphrase: if sftp && f.auth == 1 { nonempty_text(f.passphrase@) } else { None },
        remote_path: nonempty_text(f.remote_path@),
        use_tunnel: if sftp { Some(f.use_tunnel) } else { None },
        tunnel_host: if tunnel { nonempty_text(f.tunnel_host@) } else { None },
        tunnel_port: if tunnel { Some(or_default(parsed_u16(f.tunnel_port@), 22)) } else { None },
        tunnel_user: if tunnel { nonempty_text(f.tunnel_user@) } else { None },
        tunnel_auth_type: if tunnel { Some(if f.tunnel_auth == 1 { "key"@ } else { "password"@ }) } else { None },
        tunnel_pass: if tunnel && f.tunnel_auth == 0 { nonempty_text(f.tunnel_pass@) } else { None },
        tunnel_key_path: if tunnel && f.tunnel_auth == 1 { nonempty_text(f.tunnel_key_path@) } else { None },
        tunnel_passphrase: if tunnel && f.tunnel_auth == 1 { nonempty_text(f.tunnel_passphrase@) } else { None },
    }
}

fn text_if(cond: bool, s: &String) -> (r: Option<String>)
    ensures
        opt_text(r) == (if cond { nonempty_text(s@) } else { None }),
{
    if cond && !s.as_str().is_empty() {
        Some(s.clone())
    } else {
        None
    }
}

/// The connection the form describes, filed in `folder`; nothing when the
/// name, host or user is missing.
pub fn connection_from_form(f: &ConnForm, folder: Option<String>) -> (r: Option<FtpConnection>)
    ensures
        r is Some == form_complete(*f),
        r matches Some(c) ==> c@ == form_connection(*f, opt_text(folder)),
{
    if f.name.as_str().is_empty() || f.host.as_str().is_empty() || f.user.as_str().is_empty() {
        return None;
    }
    let sftp = f.protocol == 1;
    let tunnel = sftp && f.use_tunnel;
    let protocol = if f.protocol == 0 {
        "FTP".to_owned()
    } else if f.protocol == 1 {
        "SFTP".to_owned()
    } else {
        "WEBDAV".to_owned()
    };
    let default: u16 = if f.protocol == 0 { 21 } else if f.protocol == 1 { 22 } else { 80 };
    let port = match parse_u16(f.port.as_str()) {
        Some(p) => p,
        None => default,
    };
    let auth_type = if sftp {
        Some(if f.auth == 0 { "password".to_owned() } else { "key".to_owned() })
    } else {
        None
    };
    let tunnel_port = if tunnel {
        Some(match parse_u16(f.tunnel_port.as_str()) {
            Some(p) => p,
            None => 22,
        })
    } else {
        None
    };
    let tunnel_auth_type = if tunnel {
        Some(if f.tunnel_auth == 1 { "key".to_owned() } else { "password".to_owned() })
    } else {
        None
    };
    Some(FtpConnection {
        name: f.name.clone(),
        folder,
        protocol,
        host: f.host.clone(),
        port,
        user: f.user.clone(),
        pass: text_if(f.protocol == 0 || f.auth == 0, &f.pass),
        auth_type,
        key_path: text_if(sftp && f.auth == 1, &f.key_path),
        passphrase: text_if(sftp && f.auth == 1, &f.passphrase),
        remote_path: text_if(true, &f.remote_path),
        use_tunnel: if sftp { Some(f.use_tunnel) } else { None },
        tunnel_host: text_if(tunnel, &f.tunnel_host),
        tunnel_port,
        tunnel_user: text_if(tunnel, &f.tunnel_user),
        tunnel_auth_type,
        tunnel_pass: text_if(tunnel && f.tunnel_auth == 0, &f.tunnel_pass),
        tunnel_key_path: text_if(tunnel && f.tunnel_auth == 1, &f.tunnel_key_path),
        tunnel_passphrase: text_if(tunnel && f.tunnel_auth == 1, &f.tunnel_passphrase),
    })
}

/// The folder of the connection being edited, which an edited connection
/// keeps; a new connection has none.
pub fn editing_folder(conns: &Vec<FtpConnection>, editing: Option<usize>) -> (r: Option<String>)
    ensures
        opt_text(r) == match editing {
            Some(i) => if i < conns@.len() { conns@[i as int]@.folder } else { None },
            None => None,
        },
{
    match editing {
        Some(i) => if i < conns.len() { copy_opt(&conns[i].folder) } else { None },
        None => None,
    }
}

/// Stores a saved form: over the connection being edited when there is
/// one at that position, else at the end. Gives the position the form
/// now shows.
pub fn save_at(conns: &mut Vec<FtpConnection>, editing: Option<usize>, conn: FtpConnection) -> (idx: usize)
    requires
        editing is None ==> old(conns)@.len() < usize::MAX,
    ensures
        match editing {
            Some(i) => idx == i && if i < old(conns)@.len() {
                final(conns)@ == old(conns)@.update(i as int, conn)
            } else {
                final(conns)@ == old(conns)@.push(conn)
            },
            None => final(conns)@ == old(conns)@.push(conn) && idx == old(conns)@.len(),
        },
{
    match editing {
        Some(i) => {
            if i < conns.len() {
                conns.set(i, conn);
            } else {
                conns.push(conn);
            }
            i
        },
        None => {
            conns.push(conn);
            conns.len() - 1
        },
    }
}

/// The first position of a connection called `name`.
pub open spec fn first_named(cs: Seq<ConnView>, name: Seq<char>) -> Option<int>
    decreases cs.len(),
{
    if cs.len() == 0 {
        None
    } else {
        match first_named(cs.drop_last(), name) {
            Some(i) => Some(i),
            None => if cs.last().name == name { Some(cs.len() - 1) } else { None },
        }
    }
}

proof fn lemma_first_named(cs: Seq<ConnView>, name: Seq<char>)
    ensures
        first_named(cs, name) matches Some(i) ==> 0 <= i < cs.len() && cs[i].name == name && forall|j: int|
            0 <= j < i ==> (#[trigger] cs[j]).name != name,
        first_named(cs, name) is None ==> forall|j: int| 0 <= j < cs.len() ==> (#[trigger] cs[j]).name != name,
    decreases cs.len(),
{
    if cs.len() > 0 {
        let t = cs.drop_last();
        lemma_first_named(t, name);
        assert forall|j: int| 0 <= j < t.len() implies cs[j] == #[trigger] t[j] by {}
        match first_named(t, name) {
            Some(i) => {
                assert forall|j: int| 0 <= j < i implies (#[trigger] cs[j]).name != name by {
                    assert(cs[j] == t[j]);
                }
            },
            None => {
                assert forall|j: int| 0 <= j < t.len() implies (#[trigger] cs[j]).name != name by {
                    assert(cs[j] == t[j]);
                }
            },
        }
    }
}

fn find_named(conns: &Vec<FtpConnection>, name: &str) -> (r: Option<usize>)
    ensures
        match r {
            Some(i) => first_named(conn_views(conns@), name@) == Some(i as int),
            None => first_named(conn_views(conns@), name@) is None,
        },
{
    let ghost cv = conn_views(conns@);
    let mut i: usize = 0;
    while i < conns.len()
        invariant
            0 <= i <= conns.len(),
            cv == conn_views(conns@),
            forall|j: int| 0 <= j < i ==> (#[trigger] cv[j]).name != name@,
        decreases conns.len() - i,
    {
        proof {
            lemma_first_named(cv, name@);
        }
        if same_text(conns[i].name.as_str(), name) {
            assert(cv[i as int].name == name@);
            return Some(i);
        }
        i = i + 1;
    }
    proof {
        lemma_first_named(cv, name@);
    }
    None
}

/// A list of connections after storing `c`: it replaces the first
/// connection with its name, or comes at the end when there is none.
pub open spec fn upserted(cs: Seq<ConnView>, c: ConnView) -> Seq<ConnView> {
    match first_named(cs, c.name) {
        Some(i) => cs.update(i, c),
        None => cs.push(c),
    }
}

/// Stores `c` under its name; says whether it replaced a connection.
pub fn upsert_by_name(conns: &mut Vec<FtpConnection>, c: FtpConnection) -> (replaced: bool)
    ensures
        conn_views(final(conns)@) == upserted(conn_views(old(conns)@), c@),
        replaced == first_named(conn_views(old(conns)@), c@.name) is Some,
{
    let ghost before = conns@;
    proof {
        lemma_first_named(conn_views(conns@), c@.name);
    }
    match find_named(conns, c.name.as_str()) {
        Some(i) => {
            let ghost cv = c@;
            conns.set(i, c);
            assert(conn_views(conns@) =~= conn_views(before).update(i as int, cv));
            true
        },
        None => {
            let ghost cv = c@;
            conns.push(c);
            assert(conn_views(conns@) =~= conn_views(before).push(cv));
            false
        },
    }
}

/// Imported connections stored one after the other, each under its name.
pub open spec fn merged(cs: Seq<ConnView>, list: Seq<ConnView>) -> Seq<ConnView>
    decreases list.len(),
{
    if list.len() == 0 {
        cs
    } else {
        upserted(merged(cs, list.drop_last()), list.last())
    }
}

/// How many imported connections came in under a name not yet stored.
pub open spec fn added_count(cs: Seq<ConnView>, list: Seq<ConnView>) -> nat
    decreases list.len(),
{
    if list.len() == 0 {
        0
    } else {
        added_count(cs, list.drop_last()) + if first_named(merged(cs, list.drop_last()), list.last().name) is None {
            1nat
        } else {
            0nat
        }
    }
}

/// Stores every imported connection under its name, in import order; gives
/// how many were added and how many replaced a stored one.
pub fn import_connections(conns: &mut Vec<FtpConnection>, incoming: Vec<FtpConnection>) -> (r: (usize, usize))
    ensures
        conn_views(final(conns)@) == merged(conn_views(old(conns)@), conn_views(incoming@)),
        r.0 == added_count(conn_views(old(conns)@), conn_views(incoming@)),
        r.0 + r.1 == incoming@.len(),
{
    let ghost start = conn_views(conns@);
    let ghost inc = conn_views(incoming@);
    let n = incoming.len();
    let mut added: usize = 0;
    let mut updated: usize = 0;
    let mut i: usize = 0;
    for c in it: incoming
        invariant
            start == conn_views(old(conns)@),
            inc == conn_views(it.seq()),
            i == it.index(),
            i <= inc.len() == n,
            conn_views(conns@) == merged(start, inc.take(i as int)),
            added == added_count(start, inc.take(i as int)),
            added + updated == i,
    {
        proof {
            assert(inc.take(i + 1).drop_last() =~= inc.take(i as int));
            assert(inc.take(i + 1).last() == c@);
        }
        if upsert_by_name(conns, c) {
            updated = updated + 1;
        } else {
            added = added + 1;
        }
        i = i + 1;
    }
    assert(inc.take(inc.len() as int) =~= inc);
    (added, updated)
}

/// A secret as sent by a client, or the stored one when the client sent
/// none or an empty one.
pub open spec fn kept_secret(incoming: Option<Seq<char>>, stored: Option<Seq<char>>) -> Option<Seq<char>> {
    match incoming {
        Some(v) => if v.len() > 0 { incoming } else { stored },
        None => stored,
    }
}

/// `c` with each secret it leaves blank taken from `stored`.
pub open spec fn with_stored_secrets(c: ConnView, stored: ConnView) -> ConnView {
    ConnView {
        pass: kept_secret(c.pass, stored.pass),
        passphrase: kept_secret(c.passphrase, stored.passphrase),
        tunnel_pass: kept_secret(c.tunnel_pass, stored.tunnel_pass),
        tunnel_passphrase: kept_secret(c.tunnel_passphrase, stored.tunnel_passphrase),
        ..c
    }
}

fn keep_secret(incoming: Option<String>, stored: &Option<String>) -> (r: Option<String>)
    ensures
        opt_text(r) == kept_secret(opt_text(incoming), opt_text(*stored)),
{
    match incoming {
        Some(v) => if !v.as_str().is_empty() { Some(v) } else { copy_opt(stored) },
        None => copy_opt(stored),
    }
}

/// A connection sent by a client to be saved: a client that does not know a
/// stored secret sends it blank, and the stored one is kept.
pub fn keep_stored_secrets(conns: &Vec<FtpConnection>, incoming: FtpConnection) -> (r: FtpConnection)
    ensures
        r@ == match first_named(conn_views(conns@), incoming@.name) {
            Some(i) => with_stored_secrets(incoming@, conns@[i]@),
            None => incoming@,
        },
{
    proof {
        lemma_first_named(conn_views(conns@), incoming@.name);
    }
    match find_named(conns, incoming.name.as_str()) {
        Some(i) => {
            let stored = &conns[i];
            let mut c = incoming;
            c.pass = keep_secret(c.pass, &stored.pass);
            c.passphrase = keep_secret(c.passphrase, &stored.passphrase);
            c.tunnel_pass = keep_secret(c.tunnel_pass, &stored.tunnel_pass);
            c.tunnel_passphrase = keep_secret(c.tunnel_passphrase, &stored.tunnel_passphrase);
            c
        },
        None => incoming,
    }
}

/// A connection as listed to clients: every secret left out.
pub open spec fn without_secrets_view(c: ConnView) -> ConnView {
    ConnView { pass: None, passphrase: None, tunnel_pass: None, tunnel_passphrase: None, ..c }
}

/// A copy of `c` without its secrets.
pub fn without_secrets(c: &FtpConnection) -> (r: FtpConnection)
    ensures
        r@ == without_secrets_view(c@),
{
    let mut r = c.duplicate();
    r.pass = None;
    r.passphrase = None;
    r.tunnel_pass = None;
    r.tunnel_passphrase = None;
    r
}

/// The connections without the ones called `name`.
pub open spec fn not_named(name: Seq<char>) -> spec_fn(ConnView) -> bool {
    |c: ConnView| c.name != name
}

/// The text `format!("{:?}", s)` gives for a string slice.
pub uninterp spec fn debug_quoted(s: Seq<char>) -> Seq<char>;

/// `format!("{:?}", s)`: the slice in double quotes, escaped as `Debug`
/// writes it.
#[verifier::external_body]
pub(crate) fn debug_str(s: &str) -> (r: String)
    ensures
        r@ == debug_quoted(s@),
{
    format!("{:?}", s)
}

/// The error for deleting a connection that is not there.
pub open spec fn no_such_connection(name: Seq<char>) -> Seq<char> {
    "no saved connection named "@ + debug_quoted(name)
}

/// Deletes every connection called `name`; an error names it when there is
/// none.
pub fn delete_connection(conns: &mut Vec<FtpConnection>, name: &str) -> (r: Result<(), String>)
    ensures
        conn_views(final(conns)@) == conn_views(old(conns)@).filter(not_named(name@)),
        r is Ok <==> exists|i: int| 0 <= i < old(conns)@.len() && (#[trigger] old(conns)@[i])@.name == name@,
        r matches Err(e) ==> e@ == no_such_connection(name@),
{
    let ghost cv = conn_views(conns@);
    let mut kept: Vec<FtpConnection> = Vec::new();
    let mut found = false;
    let mut i: usize = 0;
    while i < conns.len()
        invariant
            0 <= i <= conns.len(),
            cv == conn_views(conns@),
            conn_views(kept@) == cv.take(i as int).filter(not_named(name@)),
            found <==> exists|j: int| 0 <= j < i && (#[trigger] conns@[j])@.name == name@,
        decreases conns.len() - i,
    {
        proof {
            cv.take(i as int).lemma_filter_push(cv[i as int], not_named(name@));
            assert(cv.take(i + 1) =~= cv.take(i as int).push(cv[i as int]));
        }
        if same_text(conns[i].name.as_str(), name) {
            found = true;
        } else {
            let ghost prev = kept@;
            kept.push(conns[i].duplicate());
            assert(conn_views(kept@) =~= conn_views(prev).push(cv[i as int]));
        }
        i = i + 1;
    }
    assert(cv.take(cv.len() as int) =~= cv);
    *conns = kept;
    if !found {
        let mut msg: Vec<char> = Vec::new();
        push_str(&mut msg, "no saved connection named ");
        let q = debug_str(name);
        push_str(&mut msg, q.as_str());
        return Err(string_of(msg.as_slice()));
    }
    Ok(())
}

/// The line under a connection's name: the host for WebDAV, else
/// `protocol://user@host:port` with the protocol in lower case.
pub open spec fn subtitle_of(c: ConnView) -> Seq<char> {
    if eq_ignore_ascii_case(c.protocol, "webdav"@) {
        c.host
    } else {
        lowercase(c.protocol) + "://"@ + c.user + "@"@ + c.host + ":"@ + decimal(c.port as nat)
    }
}

/// Whether a connection is a WebDAV one, whatever the case of its protocol.
pub fn is_webdav(c: &FtpConnection) -> (r: bool)
    ensures
        r == eq_ignore_ascii_case(c@.protocol, "webdav"@),
{
    eq_ignore_case(&chars_of(c.protocol.as_str()), &chars_of("webdav"))
}

/// The line shown under a connection's name.
pub fn connection_subtitle(c: &FtpConnection) -> (r: String)
    ensures
        r@ == subtitle_of(c@),
{
    if is_webdav(c) {
        return c.host.clone();
    }
    let proto = to_lowercase(c.protocol.as_str());
    let mut v: Vec<char> = Vec::new();
    push_str(&mut v, proto.as_str());
    push_str(&mut v, "://");
    push_str(&mut v, c.user.as_str());
    push_str(&mut v, "@");
    push_str(&mut v, c.host.as_str());
    push_str(&mut v, ":");
    let digits = to_decimal(c.port as u128);
    push_all(&mut v, &digits);
    string_of(v.as_slice())
}

/// The protocol drop-down position of a stored protocol name: FTP, SFTP,
/// and WebDAV for anything else.
pub open spec fn protocol_index_of(protocol: Seq<char>) -> u32 {
    if uppercase(protocol) == "FTP"@ {
        0
    } else if uppercase(protocol) == "SFTP"@ {
        1
    } else {
        2
    }
}

/// Where the protocol drop-down stands for a stored connection.
pub fn protocol_index(protocol: &str) -> (r: u32)
    ensures
        r == protocol_index_of(protocol@),
{
    let up = to_uppercase(protocol);
    if same_text(up.as_str(), "FTP") {
        0
    } else if same_text(up.as_str(), "SFTP") {
        1
    } else {
        2
    }
}

/// Whether a connection shows on the page of folder `path`: it is filed in
/// that folder or below it, and, when a search is typed, its lower-cased
/// name contains the lower-cased search.
pub open spec fn shown_in_folder(c: ConnView, path: Seq<char>, search: Seq<char>) -> bool {
    &&& match c.folder {
        Some(f) => f == path || starts_with(f, path + seq!['/']),
        None => false,
    }
    &&& (lowercase(search).len() == 0 || contains_text(lowercase(c.name), lowercase(search)))
}

/// The positions of the connections a folder page lists, in saved order.
pub open spec fn folder_page(cs: Seq<ConnView>, path: Seq<char>, search: Seq<char>) -> Seq<int>
    decreases cs.len(),
{
    if cs.len() == 0 {
        Seq::empty()
    } else {
        let rest = folder_page(cs.drop_last(), path, search);
        if shown_in_folder(cs.last(), path, search) { rest.push(cs.len() - 1) } else { rest }
    }
}

/// The connections listed on the page of folder `path` for a search text.
pub fn folder_page_rows(conns: &Vec<FtpConnection>, path: &str, search: &str) -> (r: Vec<usize>)
    ensures
        r@.map_values(|i: usize| i as int) == folder_page(conn_views(conns@), path@, search@),
{
    let ghost cv = conn_views(conns@);
    let query = chars_of(to_lowercase(search).as_str());
    let pc = chars_of(path);
    let mut prefix = chars_of(path);
    prefix.push('/');
    let mut out: Vec<usize> = Vec::new();
    let mut i: usize = 0;
    while i < conns.len()
        invariant
            0 <= i <= conns.len(),
            cv == conn_views(conns@),
            query@ == lowercase(search@),
            pc@ == path@,
            prefix@ == path@ + seq!['/'],
            out@.map_values(|i: usize| i as int) == folder_page(cv.take(i as int), path@, search@),
        decreases conns.len() - i,
    {
        proof {
            assert(cv.take(i + 1).drop_last() =~= cv.take(i as int));
        }
        let in_folder = match &conns[i].folder {
            Some(f) => {
                let fc = chars_of(f.as_str());
                chars_eq(&fc, &pc) || has_prefix(&fc, &prefix)
            },
            None => false,
        };
        let matches = query.len() == 0 || has_substring(&chars_of(to_lowercase(conns[i].name.as_str()).as_str()), &query);
        let ghost prev = out@;
        if in_folder && matches {
            out.push(i);
        }
        assert(out@.map_values(|i: usize| i as int) =~= folder_page(cv.take(i + 1), path@, search@));
        i = i + 1;
    }
    assert(cv.take(cv.len() as int) =~= cv);
    out
}

/// The label of the main form button.
#[derive(Clone, Copy, PartialEq, Eq, Debug, Structural)]
pub enum AddLabel {
    Add,
    Edit,
    Save,
}

/// The heading of the form.
#[derive(Clone, Copy, PartialEq, Eq, Debug, Structural)]
pub enum FormTitle {
    New,
    View,
    Edit,
}

/// How the form and its buttons look.
#[derive(Clone, Copy, PartialEq, Eq, Debug, Structural)]
pub struct FormButtons {
    pub editable: bool,
    pub connect_visible: bool,
    pub connect_suggested: bool,
    pub add_label: AddLabel,
    pub add_suggested: bool,
    pub cancel_visible: bool,
    pub new_visible: bool,
    pub title: FormTitle,
}

/// The form's look for its state: a new connection, a stored one being
/// viewed, or a stored one being edited. `has_on_connect` tells whether the
/// form was opened to pick a connection to open.
pub fn form_buttons(editing: Option<usize>, view_mode: bool, has_on_connect: bool) -> (r: FormButtons)
    ensures
        r == match editing {
            None => FormButtons {
                editable: true,
                connect_visible: false,
                connect_suggested: false,
                add_label: AddLabel::Add,
                add_suggested: true,
                cancel_visible: true,
                new_visible: false,
                title: FormTitle::New,
            },
            Some(_) => if view_mode {
                FormButtons {
                    editable: false,
                    connect_visible: has_on_connect,
                    connect_suggested: has_on_connect,
                    add_label: AddLabel::Edit,
                    add_suggested: !has_on_connect,
                    cancel_visible: has_on_connect,
                    new_visible: true,
                    title: FormTitle::View,
                }
            } else {
                FormButtons {
                    editable: true,
                    connect_visible: false,
                    connect_suggested: false,
                    add_label: AddLabel::Save,
                    add_suggested: true,
                    cancel_visible: true,
                    new_visible: false,
                    title: FormTitle::Edit,
                }
            },
        },
{
    match editing {
        None => FormButtons {
            editable: true,
            connect_visible: false,
            connect_suggested: false,
            add_label: AddLabel::Add,
            add_suggested: true,
            cancel_visible: true,
            new_visible: false,
            title: FormTitle::New,
        },
        Some(_) => if view_mode {
            FormButtons {
                editable: false,
                connect_visible: has_on_connect,
                connect_suggested: has_on_connect,
                add_label: AddLabel::Edit,
                add_suggested: !has_on_connect,
                cancel_visible: has_on_connect,
                new_visible: true,
                title: FormTitle::View,
            }
        } else {
            FormButtons {
                editable: true,
                connect_visible: false,
                connect_suggested: false,
                add_label: AddLabel::Save,
                add_suggested: true,
                cancel_visible: true,
                new_visible: false,
                title: FormTitle::Edit,
            }
        },
    }
}

/// The hint shown in the host field.
#[derive(Clone, Copy, PartialEq, Eq, Debug, Structural)]
pub enum HostHint {
    Ftp,
    Sftp,
    WebdavUrl,
}

/// Which form fields show. The tunnel's own fields are only set while the
/// tunnel is in use (`None`: left as they are, inside a hidden box).
#[derive(Clone, Copy, PartialEq, Eq, Debug, Structural)]
pub struct FieldVisibility {
    pub auth_row: bool,
    pub host_hint: HostHint,
    pub port: bool,
    pub pass: bool,
    pub key_path: bool,
    pub passphrase: bool,
    pub tunnel_row: bool,
    pub tunnel_box: bool,
    pub tunnel_fields: Option<TunnelFields>,
}

/// Which of the tunnel's credential fields show.
#[derive(Clone, Copy, PartialEq, Eq, Debug, Structural)]
pub struct TunnelFields {
    pub pass: bool,
    pub key_path: bool,
    pub passphrase: bool,
}

/// The form's fields for the chosen protocol (0 FTP, 1 SFTP, other WebDAV),
/// authentication (1 key) and tunnel settings.
pub open spec fn fields_for(protocol: u32, auth: u32, use_tunnel: bool, tunnel_auth: u32) -> FieldVisibility {
    if protocol == 2 {
        FieldVisibility {
            auth_row: false,
            host_hint: HostHint::WebdavUrl,
            port: false,
            pass: true,
            key_path: false,
            passphrase: false,
            tunnel_row: false,
            tunnel_box: false,
            tunnel_fields: None,
        }
    } else if protocol == 1 {
        let key = auth == 1;
        let tkey = tunnel_auth == 1;
        FieldVisibility {
            auth_row: true,
            host_hint: HostHint::Sftp,
            port: true,
            pass: !key,
            key_path: key,
            passphrase: key,
            tunnel_row: true,
            tunnel_box: use_tunnel,
            tunnel_fields: if use_tunnel { Some(TunnelFields { pass: !tkey, key_path: tkey, passphrase: tkey }) } else { None },
        }
    } else {
        FieldVisibility {
            auth_row: false,
            host_hint: HostHint::Ftp,
            port: true,
            pass: true,
            key_path: false,
            passphrase: false,
            tunnel_row: false,
            tunnel_box: false,
            tunnel_fields: None,
        }
    }
}

/// Which fields the form shows for its current choices.
pub fn field_visibility(protocol: u32, auth: u32, use_tunnel: bool, tunnel_auth: u32) -> (r: FieldVisibility)
    ensures
        r == fields_for(protocol, auth, use_tunnel, tunnel_auth),
{
    if protocol == 2 {
        FieldVisibility {
            auth_row: false,
            host_hint: HostHint::WebdavUrl,
            port: false,
            pass: true,
            key_path: false,
            passphrase: false,
            tunnel_row: false,
            tunnel_box: false,
            tunnel_fields: None,
        }
    } else if protocol == 1 {
        let key = auth == 1;
        let tkey = tunnel_auth == 1;
        FieldVisibility {
            auth_row: true,
            host_hint: HostHint::Sftp,
            port: true,
            pass: !key,
            key_path: key,
            passphrase: key,
            tunnel_row: true,
            tunnel_box: use_tunnel,
            tunnel_fields: if use_tunnel { Some(TunnelFields { pass: !tkey, key_path: tkey, passphrase: tkey }) } else { None },
        }
    } else {
        FieldVisibility {
            auth_row: false,
            host_hint: HostHint::Ftp,
            port: true,
            pass: true,
            key_path: false,
            passphrase: false,
            tunnel_row: false,
            tunnel_box: false,
            tunnel_fields: None,
        }
    }
}

/// What the Cancel button does.
#[derive(Clone, Copy, PartialEq, Eq, Debug, Structural)]
pub enum CancelAction {
    /// Leave editing and show the stored connection again, reloading its
    /// fields when it still exists.
    BackToView { reload: bool },
    /// Show the stored connection at `index`; `remember` marks it as the
    /// last selection too.
    Select { index: usize, remember: bool },
    /// Close the window the form sits in.
    CloseWindow,
    /// Nothing to do.
    Nothing,
}

/// The Cancel button's effect, from the form's state: the connection being
/// shown or edited, whether it is only viewed, the last selected one, how
/// many are stored, and whether the form was opened to pick a connection.
pub fn cancel_action(
    editing: Option<usize>,
    view_mode: bool,
    previous: Option<usize>,
    count: usize,
    has_on_connect: bool,
) -> (r: CancelAction)
    ensures
        r == match editing {
            Some(i) => if !view_mode {
                CancelAction::BackToView { reload: i < count }
            } else if has_on_connect {
                CancelAction::CloseWindow
            } else {
                CancelAction::Nothing
            },
            None => match previous {
                Some(p) if p < count => CancelAction::Select { index: p, remember: false },
                _ => if count > 0 {
                    CancelAction::Select { index: 0, remember: true }
                } else if has_on_connect {
                    CancelAction::CloseWindow
                } else {
                    CancelAction::Nothing
                },
            },
        },
{
    match editing {
        Some(i) => if !view_mode {
            CancelAction::BackToView { reload: i < count }
        } else if has_on_connect {
            CancelAction::CloseWindow
        } else {
            CancelAction::Nothing
        },
        None => {
            if let Some(p) = previous {
                if p < count {
                    return CancelAction::Select { index: p, remember: false };
                }
            }
            if count > 0 {
                CancelAction::Select { index: 0, remember: true }
            } else if has_on_connect {
                CancelAction::CloseWindow
            } else {
                CancelAction::Nothing
            }
        },
    }
}

/// What the form opens on: the first stored connection, viewed, or an
/// empty form for a new one. Gives (connection shown, view mode).
pub fn initial_form(count: usize) -> (r: (Option<usize>, bool))
    ensures
        r == (if count > 0 { (Some(0usize), true) } else { (None::<usize>, false) }),
{
    if count > 0 {
        (Some(0), true)
    } else {
        (None, false)
    }
}

/// The main button on a viewed connection first switches the form to
/// editing; only then does it save.
pub fn add_switches_to_edit(view_mode: bool, editing: Option<usize>) -> (r: bool)
    ensures
        r == (view_mode && editing is Some),
{
    view_mode && editing.is_some()
}

/// The names of a list of connections.
pub open spec fn conn_names(cs: Seq<ConnView>) -> Seq<Seq<char>> {
    cs.map_values(|c: ConnView| c.name)
}

proof fn lemma_upserted_names(cs: Seq<ConnView>, c: ConnView)
    ensures
        conn_names(upserted(cs, c)) == (if first_named(cs, c.name) is Some {
            conn_names(cs)
        } else {
            conn_names(cs).push(c.name)
        }),
{
    lemma_first_named(cs, c.name);
    match first_named(cs, c.name) {
        Some(i) => {
            assert(conn_names(upserted(cs, c)) =~= conn_names(cs));
        },
        None => {
            assert(conn_names(upserted(cs, c)) =~= conn_names(cs).push(c.name));
        },
    }
}

/// Importing keeps every stored name and adds every imported one; the list
/// grows by exactly the number of connections counted as added.
pub proof fn law_import_keeps_and_adds(cs: Seq<ConnView>, list: Seq<ConnView>)
    ensures
        merged(cs, list).len() == cs.len() + added_count(cs, list),
        forall|n: Seq<char>| #[trigger] conn_names(merged(cs, list)).contains(n) <==> (conn_names(cs).contains(n)
            || conn_names(list).contains(n)),
    decreases list.len(),
{
    if list.len() > 0 {
        let t = list.drop_last();
        let c = list.last();
        law_import_keeps_and_adds(cs, t);
        let m = merged(cs, t);
        lemma_upserted_names(m, c);
        lemma_first_named(m, c.name);
        assert(merged(cs, list).len() == m.len() + (if first_named(m, c.name) is None { 1int } else { 0int }));
        assert(conn_names(list) =~= conn_names(t).push(c.name));
        assert forall|n: Seq<char>| #[trigger] conn_names(merged(cs, list)).contains(n) <==> (conn_names(cs).contains(n)
            || conn_names(list).contains(n)) by {
            let before = conn_names(m);
            if first_named(m, c.name) is Some {
                lemma_first_named(m, c.name);
                let i = first_named(m, c.name)->0;
                assert(before[i] == c.name);
            }
            lemma_seq_push_contains(before, c.name, n);
            lemma_seq_push_contains(conn_names(t), c.name, n);
        }
    }
}

proof fn lemma_seq_push_contains(s: Seq<Seq<char>>, x: Seq<char>, p: Seq<char>)
    ensures
        s.push(x).contains(p) <==> (s.contains(p) || p == x),
{
    if s.push(x).contains(p) {
        let k = choose|k: int| 0 <= k < s.push(x).len() && s.push(x)[k] == p;
        if k < s.len() {
            assert(s[k] == p);
        }
    }
    if s.contains(p) {
        let k = choose|k: int| 0 <= k < s.len() && s[k] == p;
        assert(s.push(x)[k] == p);
    }
    if p == x {
        assert(s.push(x)[s.len() as int] == p);
    }
}

} // verus!
