//! The footer bar.

use crate::text::{concat, decimal, decimal_text};
use vstd::prelude::*;

verus! {

/// What the footer shows for a value that is not known.
pub open spec fn placeholder() -> Seq<char> {
    "—"@
}

/// A value, or the placeholder where it is not known.
pub fn footer_text(value: &Option<String>) -> (res: String)
    ensures
        res@ == (match value {
            Some(value) => value@,
            None => placeholder(),
        }),
{
    match value {
        Some(value) => value.clone(),
        None => "—".to_owned(),
    }
}

/// The number of tools, or the placeholder where it is not known.
pub fn footer_tools(tool_count: Option<u32>) -> (res: String)
    ensures
        res@ == (match tool_count {
            Some(n) => decimal(n as nat) + " tools"@,
            None => placeholder(),
        }),
{
    match tool_count {
        Some(n) => concat(decimal_text(n as u64).as_str(), " tools"),
        None => "—".to_owned(),
    }
}

} // verus!
