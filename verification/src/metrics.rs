use crate::text::{chars_eq, to_chars};
use vstd::prelude::*;

verus! {

/// The name of the file of usage events in the configuration directory.
pub open spec fn events_name() -> Seq<char> {
    "events.jsonl"@
}

/// The name of the file of usage events in the working directory.
pub open spec fn fallback_events_name() -> Seq<char> {
    ".dev-cleaner-events.jsonl"@
}

/// Where an event goes that could not be written to `primary`.
#[derive(Clone, Copy, Debug, PartialEq, Eq, Structural)]
pub enum Retry {
    /// To the fallback file.
    Fallback,
    /// Nowhere: the fallback is the same file, and the failure stands.
    GiveUp,
}

/// Where an event goes that could not be written to `primary`: to
/// `fallback`, unless that is the same path.
pub fn after_failure(primary: &str, fallback: &str) -> (r: Retry)
    ensures
        r == (if primary@ == fallback@ {
            Retry::GiveUp
        } else {
            Retry::Fallback
        }),
{
    let p = to_chars(primary);
    let f = to_chars(fallback);
    if chars_eq(&p, &f) {
        Retry::GiveUp
    } else {
        Retry::Fallback
    }
}

/// The path of the file of usage events: in the directory `dev-cleaner` of
/// the configuration directory, or, where there is none, the fallback file
/// in the working directory.
pub fn events_log_path(config_dir: Option<&str>, working_dir: &str) -> (path: String)
    ensures
        path@ == (match config_dir {
            Some(dir) => crate::scanner::walker::joined(
                crate::scanner::walker::joined(dir@, "dev-cleaner"@),
                events_name(),
            ),
            None => crate::scanner::walker::joined(working_dir@, fallback_events_name()),
        }),
{
    match config_dir {
        Some(dir) => {
            let base = crate::scanner::walker::join_path(dir, "dev-cleaner");
            crate::scanner::walker::join_path(base.as_str(), "events.jsonl")
        },
        None => crate::scanner::walker::join_path(working_dir, ".dev-cleaner-events.jsonl"),
    }
}

} // verus!
