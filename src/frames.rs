//! The two frame slots shared by the capturer and the painters: the active
//! slot that painters read, and the staging slot that the capturer fills
//! before exchanging the two.

use vstd::prelude::*;
use crate::wire::Pixel;

verus! {

/// Slots `(active, staging)` once the capture has been written into the
/// staging slot.
pub open spec fn after_stage(slots: (Seq<Pixel>, Seq<Pixel>), captured: Seq<Pixel>) -> (
    Seq<Pixel>,
    Seq<Pixel>,
) {
    (slots.0, captured)
}

/// Slots `(active, staging)` once the two have been exchanged.
pub open spec fn after_exchange(slots: (Seq<Pixel>, Seq<Pixel>)) -> (Seq<Pixel>, Seq<Pixel>) {
    (slots.1, slots.0)
}

/// A slot of `len` black pixels.
pub fn blank_frame(len: usize) -> (r: Vec<Pixel>)
    ensures
        r@.len() == len,
        forall|i: int| 0 <= i < len ==> #[trigger] r@[i] == (Pixel { r: 0, g: 0, b: 0 }),
{
    let mut out: Vec<Pixel> = Vec::new();
    let mut i: usize = 0;
    while i < len
        invariant
            i <= len,
            out@.len() == i,
            forall|k: int| 0 <= k < i ==> #[trigger] out@[k] == (Pixel { r: 0, g: 0, b: 0 }),
        decreases len - i,
    {
        out.push(Pixel { r: 0, g: 0, b: 0 });
        i = i + 1;
    }
    out
}

/// Writes a captured frame over a slot of the same length. Used on the
/// staging slot under double buffering, on the active slot otherwise.
pub fn copy_frame(slot: &mut Vec<Pixel>, captured: &[Pixel])
    requires
        old(slot)@.len() == captured@.len(),
    ensures
        final(slot)@ == captured@,
{
    let n = captured.len();
    let mut i: usize = 0;
    while i < n
        invariant
            n == captured@.len(),
            slot@.len() == n,
            i <= n,
            forall|k: int| 0 <= k < i ==> #[trigger] slot@[k] == captured@[k],
        decreases n - i,
    {
        slot.set(i, captured[i]);
        i = i + 1;
    }
    assert(slot@ =~= captured@);
}

/// Exchanges the staging and the active slot.
pub fn swap_frames(staging: &mut Vec<Pixel>, active: &mut Vec<Pixel>)
    ensures
        (final(active)@, final(staging)@) == after_exchange((old(active)@, old(staging)@)),
{
    core::mem::swap(staging, active);
}

/// Under double buffering painters never see a mix of two captures: while a
/// capture is written into the staging slot the active slot keeps the
/// previous frame whole, and after the exchange it holds the new capture
/// whole, with the previous frame left in the staging slot.
pub proof fn lemma_double_buffer_whole_frames(
    active: Seq<Pixel>,
    staging: Seq<Pixel>,
    captured: Seq<Pixel>,
)
    ensures
        after_stage((active, staging), captured).0 == active,
        after_exchange(after_stage((active, staging), captured)).0 == captured,
        after_exchange(after_stage((active, staging), captured)).1 == active,
        forall|i: int|
            0 <= i < active.len() ==> #[trigger] after_stage((active, staging), captured).0[i]
                == active[i],
{
}

} // verus!
