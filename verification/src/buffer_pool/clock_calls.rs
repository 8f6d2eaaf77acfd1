//! What the clock does, call by call, in its two marks per frame and its hand.

use crate::buffer_pool::replacer;
use crate::buffer_pool::replacer::ClockReplacer;
use crate::buffer_pool::BufferPoolError;
use vstd::prelude::*;

verus! {

/// How far a hand is from a frame, around a clock of `size` frames.
pub proof fn law_ahead(hand: int, frame: int, size: int)
    requires
        0 <= hand < size,
        0 <= frame < size,
    ensures
        0 <= replacer::ahead(hand, frame, size) < size,
        hand <= frame ==> hand + replacer::ahead(hand, frame, size) == frame,
        frame < hand ==> hand + replacer::ahead(hand, frame, size) == frame + size,
{
}

/// A clock is sound when its two tables have one mark per frame, its hand points at a frame, and only
/// frames on the clock are referenced.
pub proof fn law_sound_clock(clock: ClockReplacer)
    ensures
        clock.wf() <==> {
            &&& clock.ref_bits@.len() == clock.size
            &&& clock.evictable@.len() == clock.size
            &&& 2 * clock.size <= usize::MAX
            &&& clock.size == 0 || clock.hand < clock.size
            &&& forall|f: int|
                0 <= f < clock.size && #[trigger] clock.ref_bits@[f] ==> clock.evictable@[f]
        },
        clock@.hand == clock.hand,
        clock@.ref_bits == clock.ref_bits@,
        clock@.evictable == clock.evictable@,
{
}

/// A new clock has no frame on it and its hand at frame 0.
pub proof fn law_new_clock(clock: ClockReplacer, size: usize, f: int)
    requires
        call_ensures(ClockReplacer::new, (size,), clock),
    ensures
        clock.wf(),
        clock.size == size,
        clock.hand == 0,
        0 <= f < size ==> !clock.evictable@[f] && !clock.ref_bits@[f],
{
}

/// A frame that is put on the clock is on it and referenced; nothing else changes.
pub proof fn law_unpin(clock: &mut ClockReplacer, frame: usize, f: int)
    requires
        call_ensures(ClockReplacer::unpin, (clock, frame), ()),
        old(clock).wf(),
        frame < old(clock).size,
    ensures
        final(clock).wf(),
        final(clock).size == old(clock).size,
        final(clock).hand == old(clock).hand,
        final(clock).evictable@[frame as int],
        final(clock).ref_bits@[frame as int],
        0 <= f < old(clock).size && f != frame ==> {
            &&& final(clock).evictable@[f] == old(clock).evictable@[f]
            &&& final(clock).ref_bits@[f] == old(clock).ref_bits@[f]
        },
{
}

/// A frame that is taken off the clock is neither on it nor referenced; nothing else changes.
pub proof fn law_pin(clock: &mut ClockReplacer, frame: usize, f: int)
    requires
        call_ensures(ClockReplacer::pin, (clock, frame), ()),
        old(clock).wf(),
        frame < old(clock).size,
    ensures
        final(clock).wf(),
        final(clock).size == old(clock).size,
        final(clock).hand == old(clock).hand,
        !final(clock).evictable@[frame as int],
        !final(clock).ref_bits@[frame as int],
        0 <= f < old(clock).size && f != frame ==> {
            &&& final(clock).evictable@[f] == old(clock).evictable@[f]
            &&& final(clock).ref_bits@[f] == old(clock).ref_bits@[f]
        },
{
}

/// The victim is on the clock and not busy. While some such frame is unreferenced, it is unreferenced,
/// and the first such frame from the hand on; else it is the first frame from the hand on.
pub proof fn law_victim_is_first(
    clock: &mut ClockReplacer,
    busy: &Vec<bool>,
    frame: usize,
    g: int,
)
    requires
        call_ensures(
            ClockReplacer::victim_among,
            (clock, busy),
            Ok::<usize, BufferPoolError>(frame),
        ),
        old(clock).wf(),
        busy@.len() == old(clock).size,
        0 <= g < old(clock).size,
        old(clock).evictable@[g],
        !busy@[g],
    ensures
        frame < old(clock).size,
        old(clock).evictable@[frame as int],
        !busy@[frame as int],
        !old(clock).ref_bits@[g] ==> !old(clock).ref_bits@[frame as int],
        old(clock).ref_bits@[frame as int] || !old(clock).ref_bits@[g] ==> replacer::ahead(
            old(clock).hand as int,
            frame as int,
            old(clock).size as int,
        ) <= replacer::ahead(old(clock).hand as int, g, old(clock).size as int),
{
    let idle = old(clock)@.idle(busy@);
    assert(idle.offers(frame as int) && idle.offers(g));
}

/// Taking a victim takes it off the clock and puts the hand behind it. Frames that the hand passed lose
/// their reference, all of them if it went all the way round; busy frames, and frames ahead of the
/// victim, keep theirs.
pub proof fn law_victim_marks(clock: &mut ClockReplacer, busy: &Vec<bool>, frame: usize, g: int)
    requires
        call_ensures(
            ClockReplacer::victim_among,
            (clock, busy),
            Ok::<usize, BufferPoolError>(frame),
        ),
        old(clock).wf(),
        busy@.len() == old(clock).size,
        0 <= g < old(clock).size,
    ensures
        ({
            let (c, d) = (*old(clock), *final(clock));
            let n = c.size as int;
            let to_g = replacer::ahead(c.hand as int, g, n);
            let to_frame = replacer::ahead(c.hand as int, frame as int, n);
            &&& d.wf()
            &&& d.size == c.size
            &&& d.hand == if frame + 1 == c.size {
                0
            } else {
                frame + 1
            }
            &&& !d.evictable@[frame as int]
            &&& !d.ref_bits@[frame as int]
            &&& g != frame ==> d.evictable@[g] == c.evictable@[g]
            &&& busy@[g] ==> d.ref_bits@[g] == c.ref_bits@[g]
            &&& !busy@[g] && c.ref_bits@[frame as int] ==> !d.ref_bits@[g]
            &&& !busy@[g] && !c.ref_bits@[frame as int] && to_g < to_frame ==> !d.ref_bits@[g]
            &&& !c.ref_bits@[frame as int] && to_g > to_frame ==> d.ref_bits@[g] == c.ref_bits@[g]
        }),
{
    let c = old(clock)@;
    let idle = c.idle(busy@);
    assert(idle.offers(frame as int));
    if !idle.ref_bits[frame as int] {
        assert(!idle.all_referenced());
    }
}

/// There is a victim exactly when some frame on the clock is not busy; without one nothing changes.
pub proof fn law_no_victim(
    clock: &mut ClockReplacer,
    busy: &Vec<bool>,
    res: Result<usize, BufferPoolError>,
    g: int,
)
    requires
        call_ensures(ClockReplacer::victim_among, (clock, busy), res),
        busy@.len() == old(clock).size,
        old(clock).wf(),
    ensures
        0 <= g < old(clock).size && old(clock).evictable@[g] && !busy@[g] ==> res is Ok,
        res matches Ok(f) ==> f < old(clock).size && old(clock).evictable@[f as int]
            && !busy@[f as int],
        res matches Err(e) ==> e is NoEvictableFrames,
        res is Err ==> {
            &&& final(clock).hand == old(clock).hand
            &&& final(clock).evictable@ == old(clock).evictable@
            &&& final(clock).ref_bits@ == old(clock).ref_bits@
        },
{
    let idle = old(clock)@.idle(busy@);
    match res {
        Ok(f) => assert(idle.offers(f as int)),
        Err(_) => assert(!idle.offers(g)),
    }
}

/// The plain victim is the victim when no frame is busy.
pub proof fn law_plain_victim(
    clock: &mut ClockReplacer,
    res: Result<usize, BufferPoolError>,
    g: int,
)
    requires
        call_ensures(ClockReplacer::victim, (clock,), res),
        old(clock).wf(),
        0 <= g < old(clock).size,
        old(clock).evictable@[g],
    ensures
        res is Ok,
        res matches Ok(frame) ==> {
            let (c, d) = (*old(clock), *final(clock));
            let n = c.size as int;
            let to_g = replacer::ahead(c.hand as int, g, n);
            let to_frame = replacer::ahead(c.hand as int, frame as int, n);
            &&& frame < c.size
            &&& c.evictable@[frame as int]
            &&& !c.ref_bits@[g] ==> !c.ref_bits@[frame as int]
            &&& c.ref_bits@[frame as int] || !c.ref_bits@[g] ==> to_frame <= to_g
            &&& d.wf()
            &&& d.hand == if frame + 1 == c.size {
                0
            } else {
                frame + 1
            }
            &&& !d.evictable@[frame as int]
            &&& g != frame ==> d.evictable@[g]
            &&& c.ref_bits@[frame as int] || to_g < to_frame ==> !d.ref_bits@[g]
            &&& !c.ref_bits@[frame as int] && to_g > to_frame ==> d.ref_bits@[g] == c.ref_bits@[g]
        },
{
    let c = old(clock)@;
    assert(c.offers(g));
    if let Ok(frame) = res {
        assert(c.offers(frame as int));
        if !c.ref_bits[frame as int] {
            assert(!c.all_referenced());
        }
    }
}

/// Without a frame on the clock there is no victim, and nothing changes.
pub proof fn law_no_plain_victim(clock: &mut ClockReplacer, res: Result<usize, BufferPoolError>)
    requires
        call_ensures(ClockReplacer::victim, (clock,), res),
        old(clock).wf(),
        forall|f: int| 0 <= f < old(clock).size ==> !(#[trigger] old(clock).evictable@[f]),
    ensures
        res matches Err(BufferPoolError::NoEvictableFrames),
        final(clock).hand == old(clock).hand,
        final(clock).evictable@ == old(clock).evictable@,
        final(clock).ref_bits@ == old(clock).ref_bits@,
{
    if let Ok(frame) = res {
        assert(old(clock)@.offers(frame as int));
    }
}

/// A frame that was put on the clock can be evicted: the next search finds a victim.
pub proof fn law_unpin_then_victim(
    first: &mut ClockReplacer,
    second: &mut ClockReplacer,
    frame: usize,
    res: Result<usize, BufferPoolError>,
)
    requires
        old(first).wf(),
        frame < old(first).size,
        call_ensures(ClockReplacer::unpin, (first, frame), ()),
        *old(second) == *final(first),
        call_ensures(ClockReplacer::victim, (second,), res),
    ensures
        res is Ok,
{
    law_unpin(first, frame, 0);
    assert(old(second)@.offers(frame as int));
}

/// Any sound clock can be asked for a victim, and any of its frames be put on it or taken off it.
pub proof fn law_calls_accepted(clock: &mut ClockReplacer, busy: &Vec<bool>, frame: usize)
    requires
        old(clock).wf(),
    ensures
        call_requires(ClockReplacer::victim, (clock,)),
        busy@.len() == old(clock).size ==> call_requires(ClockReplacer::victim_among, (clock, busy)),
        frame < old(clock).size ==> call_requires(ClockReplacer::unpin, (clock, frame)),
        frame < old(clock).size ==> call_requires(ClockReplacer::pin, (clock, frame)),
{
}

} // verus!
