use vstd::prelude::*;
use crate::text::{chars_eq, chars_of, string_of, trim, trim_chars};

verus! {

/// What the application stores about the signed-in account.
pub struct AccountSettings {
    pub refresh_token: Option<String>,
    pub account_login: Option<String>,
    pub is_guest: bool,
    pub premium: bool,
}

/// The text of an optional string.
pub open spec fn opt_seq(s: Option<String>) -> Option<Seq<char>> {
    match s {
        Some(t) => Some(t@),
        None => None,
    }
}

/// The stored account as plain values: token, login, guest and premium flags.
pub struct AccountView {
    pub token: Option<Seq<char>>,
    pub login: Option<Seq<char>>,
    pub is_guest: bool,
    pub premium: bool,
}

/// The stored account as plain values.
pub open spec fn account_view(a: AccountSettings) -> AccountView {
    AccountView { token: opt_seq(a.refresh_token), login: opt_seq(a.account_login), is_guest: a.is_guest, premium: a.premium }
}

/// What signing out in the application leaves: no token, no login, no flags.
pub open spec fn signed_out() -> AccountView {
    AccountView { token: None, login: None, is_guest: false, premium: false }
}

/// What signing out through the remote interface leaves: an empty token,
/// the rest as it was.
pub open spec fn api_signed_out(before: AccountView) -> AccountView {
    AccountView { token: Some(Seq::empty()), ..before }
}

/// Signing out forgets the token and the login and clears both flags.
pub fn log_out(a: &mut AccountSettings)
    ensures
        account_view(*final(a)) == signed_out(),
{
    a.refresh_token = None;
    a.account_login = None;
    a.is_guest = false;
    a.premium = false;
}

/// A successful sign-in stores the refresh token, the login, whether it is
/// a guest login, and the premium flag the server sent (any value but 0 is
/// premium).
pub fn signed_in(a: &mut AccountSettings, login: String, refresh_token: String, guest: bool, premium: i64)
    ensures
        opt_seq(final(a).refresh_token) == Some(refresh_token@),
        opt_seq(final(a).account_login) == Some(login@),
        final(a).is_guest == guest,
        final(a).premium == (premium != 0),
{
    a.refresh_token = Some(refresh_token);
    a.account_login = Some(login);
    a.is_guest = guest;
    a.premium = premium != 0;
}

/// A refreshed session brings the premium flag anew; nothing else changes.
pub fn session_refreshed(a: &mut AccountSettings, premium: i64)
    ensures
        final(a).premium == (premium != 0),
        final(a).refresh_token == old(a).refresh_token,
        final(a).account_login == old(a).account_login,
        final(a).is_guest == old(a).is_guest,
{
    a.premium = premium != 0;
}

/// The name shown on the account page: the stored login, or `Unknown`.
pub fn shown_login(login: &Option<String>) -> (r: String)
    ensures
        r@ == match login {
            Some(l) => l@,
            None => "Unknown"@,
        },
{
    match login {
        Some(l) => l.clone(),
        None => "Unknown".to_owned(),
    }
}

/// What renaming the device from the account page does: the typed name,
/// trimmed, when it is not empty and differs from the current name;
/// otherwise nothing.
pub fn device_rename(typed: &str, current: &str) -> (r: Option<String>)
    ensures
        match r {
            Some(n) => n@ == trim(typed@) && trim(typed@).len() > 0 && trim(typed@) != current@,
            None => trim(typed@).len() == 0 || trim(typed@) == current@,
        },
{
    let t = trim_chars(&chars_of(typed));
    if t.len() == 0 {
        return None;
    }
    let c = chars_of(current);
    if chars_eq(&t, &c) {
        None
    } else {
        Some(string_of(t.as_slice()))
    }
}

/// The size of the account window: larger for the profile of a connected
/// account than for the sign-in form.
pub fn account_dialog_size(connected: bool) -> (r: (i32, i32))
    ensures
        r == (if connected { (450i32, 650i32) } else { (400i32, 450i32) }),
{
    if connected {
        (450, 650)
    } else {
        (400, 450)
    }
}

/// Signing out through the remote interface empties the stored token and
/// keeps the rest.
pub fn api_log_out(a: &mut AccountSettings)
    ensures
        account_view(*final(a)) == api_signed_out(account_view(*old(a))),
{
    a.refresh_token = Some(String::new());
}

/// What the remote interface reports about the account.
pub struct AccountStatus {
    pub logged_in: bool,
    pub device_id: String,
    pub login: String,
    pub is_guest: bool,
    pub premium: bool,
}

/// What the status reports of an account: whether it is signed in (a
/// token is stored and not empty), the login (empty when none is stored),
/// and the guest and premium flags.
pub open spec fn status_of(a: AccountView) -> (bool, Seq<char>, bool, bool) {
    (
        a.token matches Some(t) && t.len() > 0,
        match a.login {
            Some(l) => l,
            None => Seq::empty(),
        },
        a.is_guest,
        a.premium,
    )
}

/// The account status: signed in when a token is stored and not empty;
/// an empty login when none is stored.
pub fn account_status(a: &AccountSettings, device_id: &str) -> (r: AccountStatus)
    ensures
        (r.logged_in, r.login@, r.is_guest, r.premium) == status_of(account_view(*a)),
        r.device_id@ == device_id@,
{
    let logged_in = match &a.refresh_token {
        Some(t) => !t.as_str().is_empty(),
        None => false,
    };
    let login = match &a.account_login {
        Some(l) => l.clone(),
        None => String::new(),
    };
    AccountStatus { logged_in, device_id: device_id.to_owned(), login, is_guest: a.is_guest, premium: a.premium }
}

/// After signing out in the application the status reports an anonymous,
/// signed-out account; after signing out through the remote interface it
/// reports the account signed out with its login and flags unchanged.
/// Signing in again with a non-empty token reports it signed in.
pub proof fn law_signed_out_is_reported(before: AccountView, login: Seq<char>, token: Seq<char>, guest: bool, premium: bool)
    ensures
        status_of(signed_out()) == (false, Seq::<char>::empty(), false, false),
        status_of(api_signed_out(before)) == (false, status_of(before).1, before.is_guest, before.premium),
        token.len() > 0 ==> status_of(
            AccountView { token: Some(token), login: Some(login), is_guest: guest, premium },
        ).0,
{
}

} // verus!
