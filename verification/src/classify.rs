//! The classifier: one probe round's batch of outcomes becomes a single
//! up/down signal, and an edge against the ledger's current state triggers
//! exactly one transition.

use vstd::prelude::*;
use crate::ledger::{Period, TimeTracker};
use crate::probe::PingResponse;

verus! {

/// The all-or-nothing rule: the link counts as down only when every target
/// of the round dropped its echo; one answering host keeps it up.
pub open spec fn all_dropped(batch: Seq<PingResponse>) -> bool {
    forall|i: int| 0 <= i < batch.len() ==> batch[i].dropped
}

/// The round's signal: true means the link is down (every host dropped).
pub fn link_down_signal(batch: &Vec<PingResponse>) -> (r: bool)
    ensures
        r == all_dropped(batch@),
{
    let mut i: usize = 0;
    while i < batch.len()
        invariant
            i <= batch@.len(),
            forall|j: int| 0 <= j < i ==> batch@[j].dropped,
        decreases batch@.len() - i,
    {
        if !batch[i].dropped {
            return false;
        }
        i = i + 1;
    }
    true
}

/// Feeds one probe round into the ledger: transitions only on a true edge
/// (up with an all-dropped round, or down with an answered round), and
/// leaves the ledger untouched when the signal matches its state. Returns
/// whether a transition happened.
pub fn apply_batch(t: &mut TimeTracker, batch: &Vec<PingResponse>, now: u64) -> (changed: bool)
    requires
        old(t).wf(),
        now >= old(t).open_start(),
    ensures
        final(t).wf(),
        final(t).up == !all_dropped(batch@),
        final(t).start == old(t).start,
        changed == (old(t).up != final(t).up),
        !changed ==> *final(t) == *old(t),
        changed ==> final(t).open_start() == now,
        (changed && !final(t).up) ==> final(t).downtimes@ == old(t).downtimes@.push(
            (Period { start: now, closed_len: None }),
        ) && final(t).uptimes@ == old(t).uptimes@.drop_last().push(
            (Period {
                start: old(t).uptimes@.last().start,
                closed_len: Some((now - old(t).open_start()) as u64),
            }),
        ),
        (changed && final(t).up) ==> final(t).uptimes@ == old(t).uptimes@.push(
            (Period { start: now, closed_len: None }),
        ) && final(t).downtimes@ == old(t).downtimes@.drop_last().push(
            (Period {
                start: old(t).downtimes@.last().start,
                closed_len: Some((now - old(t).open_start()) as u64),
            }),
        ),
{
    let down_signal = link_down_signal(batch);
    if down_signal && t.is_up() {
        t.down(now);
        true
    } else if !down_signal && t.is_down() {
        t.up(now);
        true
    } else {
        false
    }
}

} // verus!
