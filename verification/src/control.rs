//! The rules of the two control requests: which lock modes there are, and
//! which URLs may be opened.

use crate::text::{has_prefix, starts_with};
use vstd::prelude::*;

verus! {

/// How the workstation is locked.
#[derive(Clone, Copy, Debug, PartialEq, Eq, Structural)]
pub enum LockMode {
    /// All windows are minimized.
    Soft,
    /// The session is locked.
    Hard,
}

/// How many recent violations a query returns where it names no count.
pub fn default_count() -> (count: isize)
    ensures
        count == 50,
{
    50
}

/// The lock mode that a request names: `soft` or `hard`, and nothing else.
pub fn parse_lock_mode(mode: &str) -> (parsed: Option<LockMode>)
    ensures
        parsed == (if mode@ == "soft"@ {
            Some(LockMode::Soft)
        } else if mode@ == "hard"@ {
            Some(LockMode::Hard)
        } else {
            None
        }),
{
    let mode = mode.to_owned();
    if mode == "soft".to_owned() {
        Some(LockMode::Soft)
    } else if mode == "hard".to_owned() {
        Some(LockMode::Hard)
    } else {
        None
    }
}

/// Whether a URL may be opened in the browser: only one that starts with
/// `http://` or `https://`.
pub fn is_http_url(url: &str) -> (allowed: bool)
    ensures
        allowed == (starts_with(url@, "http://"@) || starts_with(url@, "https://"@)),
{
    has_prefix(url, "http://") || has_prefix(url, "https://")
}

} // verus!
