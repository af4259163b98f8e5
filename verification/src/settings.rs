use vstd::prelude::*;

verus! {

/// Seconds that each network timeout starts at.
pub const DEFAULT_TIMEOUT_SECS: u64 = 20;

/// The two network timeouts of the application, in whole seconds;
/// 0 means that the operation has no time limit.
pub struct TimeoutSettings {
    pub connect_secs: u64,
    pub request_secs: u64,
}

impl TimeoutSettings {
    /// Both timeouts at their shipped default.
    pub fn new() -> (r: Self)
        ensures
            r.connect_secs == DEFAULT_TIMEOUT_SECS,
            r.request_secs == DEFAULT_TIMEOUT_SECS,
    {
        TimeoutSettings { connect_secs: DEFAULT_TIMEOUT_SECS, request_secs: DEFAULT_TIMEOUT_SECS }
    }
}

/// What `Duration::from_secs` returns for the given number of seconds.
pub uninterp spec fn duration_of_secs(secs: u64) -> std::time::Duration;

/// `std::time::Duration::from_secs`: a duration of exactly `secs` seconds.
#[verifier::external_body]
fn duration_from_secs(secs: u64) -> (r: std::time::Duration)
    ensures
        r == duration_of_secs(secs),
{
    std::time::Duration::from_secs(secs)
}

/// A stored number of seconds as a timeout: none when it is 0.
pub fn secs_to_duration(secs: u64) -> (r: Option<std::time::Duration>)
    ensures
        secs == 0 ==> r is None,
        secs != 0 ==> r == Some(duration_of_secs(secs)),
{
    if secs == 0 {
        None
    } else {
        Some(duration_from_secs(secs))
    }
}

/// Stores a new connect timeout; the request timeout is left as it was.
pub fn set_connect_timeout_secs(settings: &mut TimeoutSettings, secs: u64)
    ensures
        final(settings).connect_secs == secs,
        final(settings).request_secs == old(settings).request_secs,
{
    settings.connect_secs = secs;
}

/// Stores a new request timeout; the connect timeout is left as it was.
pub fn set_request_timeout_secs(settings: &mut TimeoutSettings, secs: u64)
    ensures
        final(settings).request_secs == secs,
        final(settings).connect_secs == old(settings).connect_secs,
{
    settings.request_secs = secs;
}

/// The timeout for establishing a connection, if any.
pub fn connect_timeout(settings: &TimeoutSettings) -> (r: Option<std::time::Duration>)
    ensures
        settings.connect_secs == 0 ==> r is None,
        settings.connect_secs != 0 ==> r == Some(duration_of_secs(settings.connect_secs)),
{
    secs_to_duration(settings.connect_secs)
}

/// The timeout for a single request, if any.
pub fn request_timeout(settings: &TimeoutSettings) -> (r: Option<std::time::Duration>)
    ensures
        settings.request_secs == 0 ==> r is None,
        settings.request_secs != 0 ==> r == Some(duration_of_secs(settings.request_secs)),
{
    secs_to_duration(settings.request_secs)
}

/// One downloadable build offered by the update server.
pub struct UpdatePackage {
    pub app_type: String,
    pub build_type: String,
    pub version: String,
    pub url: String,
    pub md5: String,
}

/// The update server's listing: every package and when it was last changed.
pub struct UpdatesFile {
    pub packages: Vec<UpdatePackage>,
    pub update_ts: i64,
}

/// The answer to "is there a newer version?".
pub struct UpdateCheck {
    pub update: bool,
    pub version: String,
    pub notes: String,
    pub url: String,
    pub md5: String,
}

} // verus!
