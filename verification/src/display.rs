//! Presentation helpers: turning scopes, durations and labels into the
//! short strings the interfaces show.  All pure and exact; counting is by
//! characters, and cutting never panics.

use vstd::prelude::*;
use vstd::string::*;

use crate::github::{spec_display, RunnerScope, ScopeView};
use crate::strutil::{concat2, spec_decimal, substring, u32_to_string};

verus! {

/// A duration in seconds, as an operator reads it: seconds under a minute,
/// minutes (and any leftover seconds) under an hour, else hours and
/// minutes.
pub open spec fn spec_format_duration(s: int) -> Seq<char> {
    if s < 60 {
        spec_decimal(s) + "s"@
    } else if s < 3600 {
        if s % 60 == 0 {
            spec_decimal(s / 60) + "m"@
        } else {
            spec_decimal(s / 60) + "m "@ + spec_decimal(s % 60) + "s"@
        }
    } else {
        spec_decimal(s / 3600) + "h "@ + spec_decimal(s % 3600 / 60) + "m"@
    }
}

/// Renders a duration in seconds for display.
pub fn format_duration(seconds: u32) -> (r: String)
    ensures
        r@ == spec_format_duration(seconds as int),
{
    if seconds < 60 {
        let mut r = u32_to_string(seconds);
        r.append("s");
        r
    } else if seconds < 3600 {
        let mins = seconds / 60;
        let secs = seconds % 60;
        if secs == 0 {
            let mut r = u32_to_string(mins);
            r.append("m");
            r
        } else {
            let mut r = u32_to_string(mins);
            r.append("m ");
            let tail = u32_to_string(secs);
            r.append(tail.as_str());
            r.append("s");
            r
        }
    } else {
        let hours = seconds / 3600;
        let mins = (seconds % 3600) / 60;
        let mut r = u32_to_string(hours);
        r.append("h ");
        let tail = u32_to_string(mins);
        r.append(tail.as_str());
        r.append("m");
        r
    }
}

/// Text cut to a width: over-long text keeps its first characters and ends
/// in an ellipsis of three dots.
pub open spec fn spec_truncate(s: Seq<char>, max: int) -> Seq<char> {
    if s.len() > max {
        s.take(if max >= 3 {
            max - 3
        } else {
            0
        }) + "..."@
    } else {
        s
    }
}

/// Cuts text to a width for display.
pub fn truncate(s: &str, max: usize) -> (r: String)
    ensures
        r@ == spec_truncate(s@, max as int),
{
    let n = s.unicode_len();
    if n > max {
        let keep = if max >= 3 {
            max - 3
        } else {
            0
        };
        let head = substring(s, 0, keep);
        proof {
            assert(s@.take(keep as int) =~= s@.subrange(0, keep as int));
        }
        concat2(head.as_str(), "...")
    } else {
        String::from_str(s)
    }
}

/// A scope as one fixed-width cell: organizations carry an `[org] ` badge,
/// and over-long names keep their ending behind an ellipsis.
pub open spec fn spec_scope_cell(v: ScopeView, max_len: int) -> Seq<char> {
    match v {
        ScopeView::Organization { org } => {
            let available = if max_len >= 6 {
                max_len - 6
            } else {
                0
            };
            if org.len() > available {
                let keep = if available >= 3 {
                    available - 3
                } else {
                    0
                };
                "[org] "@ + "..."@ + org.skip(org.len() - keep)
            } else {
                "[org] "@ + org
            }
        },
        ScopeView::Repository { owner, repo } => {
            let full = owner + "/"@ + repo;
            if full.len() > max_len {
                let keep = if max_len >= 3 {
                    max_len - 3
                } else {
                    0
                };
                "..."@ + full.skip(full.len() - keep)
            } else {
                full
            }
        },
    }
}

/// Renders a scope into a fixed-width cell for display.
pub fn format_scope_display(scope: &RunnerScope, max_len: usize) -> (r: String)
    ensures
        r@ == spec_scope_cell(scope@, max_len as int),
{
    match scope {
        RunnerScope::Organization { org } => {
            let available = if max_len >= 6 {
                max_len - 6
            } else {
                0
            };
            let olen = org.as_str().unicode_len();
            if olen > available {
                let keep = if available >= 3 {
                    available - 3
                } else {
                    0
                };
                let tail = substring(org.as_str(), olen - keep, olen);
                proof {
                    assert(org@.skip(org@.len() - keep) =~= org@.subrange(
                        olen - keep,
                        olen as int,
                    ));
                }
                let mut r = String::from_str("[org] ");
                r.append("...");
                r.append(tail.as_str());
                r
            } else {
                concat2("[org] ", org.as_str())
            }
        },
        RunnerScope::Repository { owner, repo } => {
            let full = crate::strutil::concat3(owner.as_str(), "/", repo.as_str());
            let flen = full.as_str().unicode_len();
            if flen > max_len {
                let keep = if max_len >= 3 {
                    max_len - 3
                } else {
                    0
                };
                let tail = substring(full.as_str(), flen - keep, flen);
                proof {
                    assert(full@.skip(full@.len() - keep) =~= full@.subrange(
                        flen - keep,
                        flen as int,
                    ));
                }
                concat2("...", tail.as_str())
            } else {
                full
            }
        },
    }
}

} // verus!
