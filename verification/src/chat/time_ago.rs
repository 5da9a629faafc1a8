//! Time-ago formatting.

use crate::text::{concat, decimal, decimal_text};
use vstd::prelude::*;

verus! {

/// A count with a unit.
pub open spec fn counted(n: nat, unit: Seq<char>) -> Seq<char> {
    decimal(n) + unit
}

/// A time that many minutes ago, in words.
pub open spec fn minutes_ago(minutes: nat) -> Seq<char> {
    let hours = minutes / 60;
    let days = hours / 24;
    if minutes <= 1 {
        "just now"@
    } else if minutes < 60 {
        counted(minutes, "m ago"@)
    } else if hours < 24 {
        counted(hours, "h ago"@)
    } else if days == 1 {
        "yesterday"@
    } else if days < 7 {
        counted(days, "d ago"@)
    } else if days < 30 {
        counted(days / 7, "w ago"@)
    } else if days < 365 {
        counted(days / 30, "mo ago"@)
    } else {
        counted(days / 365, "y ago"@)
    }
}

/// A time in words, from the milliseconds since then. There are none where the
/// time could not be read, and a negative number where it lies ahead.
pub open spec fn ago(elapsed_ms: Option<int>) -> Seq<char> {
    match elapsed_ms {
        Some(ms) => if ms < 0 {
            "just now"@
        } else {
            minutes_ago((ms / 60_000) as nat)
        },
        None => "(unknown)"@,
    }
}

/// Format the time since a moment as a short "time ago" string.
pub fn time_ago(elapsed_ms: Option<i64>) -> (res: String)
    ensures
        res@ == ago(
            match elapsed_ms {
                Some(ms) => Some(ms as int),
                None => None,
            },
        ),
{
    let ms: i64 = match elapsed_ms {
        Some(ms) => ms,
        None => {
            return "(unknown)".to_owned();
        },
    };
    if ms < 0 {
        return "just now".to_owned();
    }
    let mins: u64 = ms as u64 / 60_000;
    let hours: u64 = mins / 60;
    let days: u64 = hours / 24;
    if mins <= 1 {
        "just now".to_owned()
    } else if mins < 60 {
        concat(decimal_text(mins).as_str(), "m ago")
    } else if hours < 24 {
        concat(decimal_text(hours).as_str(), "h ago")
    } else if days == 1 {
        "yesterday".to_owned()
    } else if days < 7 {
        concat(decimal_text(days).as_str(), "d ago")
    } else if days < 30 {
        concat(decimal_text(days / 7).as_str(), "w ago")
    } else if days < 365 {
        concat(decimal_text(days / 30).as_str(), "mo ago")
    } else {
        concat(decimal_text(days / 365).as_str(), "y ago")
    }
}

/// How long ago a moment was is told in the greatest unit that has passed, in
/// whole numbers of it. What has just happened, or lies ahead, is told as such.
pub proof fn law_ago(ms: int)
    ensures
        ago(None) == "(unknown)"@,
        ms < 120_000 ==> ago(Some(ms)) == "just now"@,
        120_000 <= ms < 3_600_000 ==> ago(Some(ms)) == decimal((ms / 60_000) as nat) + "m ago"@,
        3_600_000 <= ms < 86_400_000 ==> ago(Some(ms)) == decimal((ms / 3_600_000) as nat)
            + "h ago"@,
        86_400_000 <= ms < 172_800_000 ==> ago(Some(ms)) == "yesterday"@,
        172_800_000 <= ms < 604_800_000 ==> ago(Some(ms)) == decimal((ms / 86_400_000) as nat)
            + "d ago"@,
        604_800_000 <= ms < 2_592_000_000 ==> ago(Some(ms)) == decimal((ms / 604_800_000) as nat)
            + "w ago"@,
        2_592_000_000 <= ms < 31_536_000_000 ==> ago(Some(ms)) == decimal(
            (ms / 2_592_000_000) as nat,
        ) + "mo ago"@,
        31_536_000_000 <= ms ==> ago(Some(ms)) == decimal((ms / 31_536_000_000) as nat)
            + "y ago"@,
{
    if ms >= 0 {
        let minutes = ms / 60_000;
        assert(minutes / 60 == ms / 3_600_000);
        assert(minutes / 60 / 24 == ms / 86_400_000);
        assert(minutes / 60 / 24 / 7 == ms / 604_800_000);
        assert(minutes / 60 / 24 / 30 == ms / 2_592_000_000);
        assert(minutes / 60 / 24 / 365 == ms / 31_536_000_000);
    }
}

} // verus!
