//! First-ready-wins multiplexing over an ordered collection of pending
//! operations.

use vstd::prelude::*;

verus! {

/// What the multiplexer does next on one wake.
#[derive(Clone, Copy, Debug, PartialEq, Eq, Structural)]
pub enum Select {
    /// Poll the entry at this index.
    Poll(usize),
    /// Every entry was polled and none was ready: stay suspended.
    Pending,
}

/// The next move of a scan over `len` entries of which the first `polled`
/// were polled on this wake and found pending.
pub open spec fn spec_slice_select(len: nat, polled: nat) -> Select {
    if polled < len {
        Select::Poll(polled as usize)
    } else {
        Select::Pending
    }
}

/// The scan that follows `spec_slice_select` from `polled` on, over entries
/// whose readiness is `ready`: the index at which it stops, if it stops.
pub open spec fn scan(ready: Seq<bool>, polled: nat) -> Option<int>
    decreases ready.len() - polled,
{
    match spec_slice_select(ready.len(), polled) {
        Select::Pending => None,
        Select::Poll(i) => if ready[polled as int] {
            Some(polled as int)
        } else {
            scan(ready, polled + 1)
        },
    }
}

/// Entries are polled from the start of the collection, in order: after
/// `polled` pending entries the next one is polled, and once all `len` were
/// pending the multiplexer suspends.
pub fn slice_select(len: usize, polled: usize) -> (next: Select)
    ensures
        next == spec_slice_select(len as nat, polled as nat),
{
    if polled < len {
        Select::Poll(polled)
    } else {
        Select::Pending
    }
}

/// Removes the entry that was found ready and hands it out; the entries
/// behind it shift forward by one and keep their order.
pub fn take_ready<T>(tasks: &mut Vec<T>, ready: usize) -> (task: T)
    requires
        ready < old(tasks).len(),
    ensures
        task == old(tasks)@[ready as int],
        final(tasks)@ == old(tasks)@.remove(ready as int),
{
    tasks.remove(ready)
}

/// The scan stops at the first ready entry: no entry before it is ready, and
/// it suspends exactly when no entry is ready at all.
pub proof fn lemma_scan_first_ready(ready: Seq<bool>, polled: nat)
    requires
        ready.len() <= usize::MAX,
    ensures
        match scan(ready, polled) {
            Some(i) => polled <= i < ready.len() && ready[i] && forall|j: int|
                polled <= j < i ==> !ready[j],
            None => forall|j: int| polled <= j < ready.len() ==> !ready[j],
        },
    decreases ready.len() - polled,
{
    if polled < ready.len() && !ready[polled as int] {
        lemma_scan_first_ready(ready, polled + 1);
    }
}

} // verus!
