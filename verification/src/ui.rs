//! The dashboard's one piece of state besides the ledger: the selection
//! index into the downtime history, moved by key presses and clamped to
//! `[0, len]`.

use vstd::prelude::*;

verus! {

/// Moves the downtime-list selection one step. `deeper` chooses the
/// direction: toward higher indices when true, toward zero when false. The
/// selection stays inside `[0, len]`; a step that would leave the range is
/// refused, and the second result asks the caller to flash instead.
pub fn adjust_selection(sel: usize, len: usize, deeper: bool) -> (r: (usize, bool))
    ensures
        deeper && sel < len ==> r == (((sel + 1) as usize, false)),
        deeper && sel >= len ==> r == ((sel, true)),
        !deeper && sel > 0 ==> r == (((sel - 1) as usize, false)),
        !deeper && sel == 0 ==> r == ((sel, true)),
{
    if deeper {
        if sel < len {
            (sel + 1, false)
        } else {
            (sel, true)
        }
    } else {
        if sel > 0 {
            (sel - 1, false)
        } else {
            (sel, true)
        }
    }
}

} // verus!
