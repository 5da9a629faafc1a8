//! The input row.

use crate::chat::events::ChatState;
use crate::text::str_eq;
use vstd::prelude::*;

verus! {

/// Whether the input is disabled: while a reply or a replay is on.
pub fn input_disabled(state: &ChatState) -> (res: bool)
    ensures
        res == (state@.sending || state@.replaying),
{
    state.sending || state.replaying
}

/// What the empty input shows.
pub fn input_placeholder(state: &ChatState) -> (res: &'static str)
    ensures
        res@ == (if state@.replaying {
            "Loading session…"@
        } else {
            "Message…"@
        }),
{
    if state.replaying {
        "Loading session…"
    } else {
        "Message…"
    }
}

/// Whether a key press submits: Enter does, unless Shift is held.
pub fn key_submits(key: &str, shift: bool) -> (res: bool)
    ensures
        res == (key@ == "Enter"@ && !shift),
{
    str_eq(key, "Enter") && !shift
}

/// Whether a key press on a button activates it: Enter and Space do.
pub fn key_activates(key: &str) -> (res: bool)
    ensures
        res == (key@ == "Enter"@ || key@ == " "@),
{
    str_eq(key, "Enter") || str_eq(key, " ")
}

} // verus!
