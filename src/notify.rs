//! Progress and log notifications that handlers send to the host; the server
//! writes them as JSON lines.

use vstd::prelude::*;

verus! {

/// A notification: `$/progress` with a percentage, or `$/log` with a level.
#[derive(Clone, Debug)]
pub struct Notification {
    pub method: String,
    pub level: Option<String>,
    pub percent: Option<u8>,
    pub message: String,
}

/// The log levels a notification may carry.
pub open spec fn is_log_level(l: Seq<char>) -> bool {
    l == "error"@ || l == "warn"@ || l == "info"@ || l == "debug"@ || l == "trace"@
}

/// A progress notification; percentages above 100 become 100.
pub fn notify_progress(percent: Option<u8>, message: &str) -> (r: Notification)
    ensures
        r.method@ == "$/progress"@,
        r.level is None,
        r.percent == match percent {
            Some(p) => Some(if p > 100 {
                100u8
            } else {
                p
            }),
            None => None,
        },
        r.message@ == message@,
{
    let p = match percent {
        Some(p) => Some(
            if p > 100 {
                100u8
            } else {
                p
            },
        ),
        None => None,
    };
    Notification {
        method: String::from_str("$/progress"),
        level: None,
        percent: p,
        message: String::from_str(message),
    }
}

/// A log notification; a level outside `error`, `warn`, `info`, `debug` and
/// `trace` becomes `info`.
pub fn notify_log(level: &str, message: &str) -> (r: Notification)
    ensures
        r.method@ == "$/log"@,
        r.level is Some,
        r.level->Some_0@ == if is_log_level(level@) {
            level@
        } else {
            "info"@
        },
        r.percent is None,
        r.message@ == message@,
{
    let eq = |a: &str, b: &str| -> (r: bool)
        ensures
            r == (a@ == b@),
        { crate::device::str_eq(a, b) };
    let valid = eq(level, "error") || eq(level, "warn") || eq(level, "info") || eq(level, "debug")
        || eq(level, "trace");
    let l = if valid {
        String::from_str(level)
    } else {
        String::from_str("info")
    };
    Notification {
        method: String::from_str("$/log"),
        level: Some(l),
        percent: None,
        message: String::from_str(message),
    }
}

/// A log notification at level `error`.
pub fn log_error(message: &str) -> (r: Notification)
    ensures
        r.method@ == "$/log"@,
        r.level is Some && r.level->Some_0@ == "error"@,
        r.message@ == message@,
{
    proof {
        reveal_strlit("error");
    }
    notify_log("error", message)
}

/// A log notification at level `warn`.
pub fn log_warn(message: &str) -> (r: Notification)
    ensures
        r.method@ == "$/log"@,
        r.level is Some && r.level->Some_0@ == "warn"@,
        r.message@ == message@,
{
    notify_log("warn", message)
}

/// A log notification at level `info`.
pub fn log_info(message: &str) -> (r: Notification)
    ensures
        r.method@ == "$/log"@,
        r.level is Some && r.level->Some_0@ == "info"@,
        r.message@ == message@,
{
    notify_log("info", message)
}

/// A log notification at level `debug`.
pub fn log_debug(message: &str) -> (r: Notification)
    ensures
        r.method@ == "$/log"@,
        r.level is Some && r.level->Some_0@ == "debug"@,
        r.message@ == message@,
{
    notify_log("debug", message)
}

} // verus!
