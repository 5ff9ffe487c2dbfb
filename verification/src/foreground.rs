//! What the foreground filter knows about the focused application.

use vstd::prelude::*;

verus! {

/// Which provider resolved the focused application.
#[derive(Debug, Clone, Copy, PartialEq, Eq, Structural)]
pub enum ForegroundSourceKind {
    Hyprland,
    Sway,
    Gnome,
    Kde,
    Command,
}

/// The identity of the focused application, as far as the provider knows it.
#[derive(Debug, Clone, PartialEq, Eq)]
pub struct ForegroundApp {
    pub app_id: Option<String>,
    pub class: Option<String>,
    pub resource_class: Option<String>,
    pub title: Option<String>,
    pub pid: Option<u32>,
    pub source: ForegroundSourceKind,
}

/// The provider's current view of the foreground.
#[derive(Debug, Clone, PartialEq, Eq)]
pub enum ForegroundSnapshot {
    Known(ForegroundApp),
    Unknown { reason: String },
    Unsupported { reason: String },
}

/// The text of an optional string.
pub open spec fn opt_text(o: Option<String>) -> Option<Seq<char>> {
    match o {
        Some(s) => Some(s@),
        None => None,
    }
}

/// `Some(s)` for a non-empty text, `None` for the empty one.
pub open spec fn non_empty(s: Seq<char>) -> Option<Seq<char>> {
    if s.len() == 0 {
        None
    } else {
        Some(s)
    }
}

/// An optional owned copy of a text, absent when it is empty.
pub fn non_empty_string(s: &str) -> (r: Option<String>)
    ensures
        opt_text(r) == non_empty(s@),
{
    if s.unicode_len() == 0 {
        None
    } else {
        Some(String::from_str(s))
    }
}


/// First reconnect delay of a provider, in milliseconds.
pub const BACKOFF_START_MILLIS: u64 = 250;

/// Longest reconnect delay of a provider, in milliseconds.
pub const BACKOFF_MAX_MILLIS: u64 = 2000;

/// The reconnect delay after `current`: doubled, capped at the maximum.
pub fn next_backoff_millis(current: u64) -> (r: u64)
    ensures
        r == (if 2 * current > BACKOFF_MAX_MILLIS {
            BACKOFF_MAX_MILLIS as int
        } else {
            2 * current
        }),
{
    if current > BACKOFF_MAX_MILLIS / 2 {
        BACKOFF_MAX_MILLIS
    } else {
        2 * current
    }
}
} // verus!
