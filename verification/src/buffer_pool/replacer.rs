//! The clock that chooses which frame to reuse.

use crate::buffer_pool::BufferPoolError;
use vstd::prelude::*;

verus! {

/// Second-chance replacement over `size` frames. A frame takes part while it is evictable; its
/// reference bit buys it one round.
pub struct ClockReplacer {
    pub size: usize,
    pub hand: usize,
    pub ref_bits: Vec<bool>,
    pub evictable: Vec<bool>,
}

/// What a clock shows: where its hand is, and the two marks of every frame.
#[verifier::ext_equal]
pub struct Clock {
    pub hand: int,
    pub ref_bits: Seq<bool>,
    pub evictable: Seq<bool>,
}

/// How many steps a clock hand at `hand` takes to come to `frame`.
pub open spec fn ahead(hand: int, frame: int, size: int) -> int {
    if frame >= hand {
        frame - hand
    } else {
        frame + size - hand
    }
}

impl Clock {
    pub open spec fn size(self) -> int {
        self.evictable.len() as int
    }

    /// `frame` can be evicted.
    pub open spec fn offers(self, frame: int) -> bool {
        0 <= frame < self.size() && self.evictable[frame]
    }

    /// No frame can be evicted.
    pub open spec fn offers_none(self) -> bool {
        forall|f: int| !(#[trigger] self.offers(f))
    }

    /// How far the hand is from `frame`.
    pub open spec fn steps_to(self, frame: int) -> int {
        ahead(self.hand, frame, self.size())
    }

    /// Every evictable frame has its reference bit set, so the hand goes round once.
    pub open spec fn all_referenced(self) -> bool {
        forall|f: int| #[trigger] self.offers(f) ==> self.ref_bits[f]
    }

    /// `frame` is the one whose turn it is: the first evictable frame from the hand on whose
    /// reference bit is clear, or, if all are set, the first evictable frame.
    pub open spec fn is_next_victim(self, frame: int) -> bool {
        &&& self.offers(frame)
        &&& self.all_referenced() || !self.ref_bits[frame]
        &&& forall|g: int| #[trigger]
            self.offers(g) && (self.all_referenced() || !self.ref_bits[g]) ==> self.steps_to(frame)
                <= self.steps_to(g)
    }

    /// The clock after its hand has swept up to `frame` and taken it: every referenced frame that it
    /// passed has lost its bit, `frame` is off the clock, and the hand is behind it.
    pub open spec fn taking(self, frame: int) -> Clock {
        Clock {
            hand: if frame + 1 == self.size() {
                0
            } else {
                frame + 1
            },
            evictable: self.evictable.update(frame, false),
            ref_bits: Seq::new(
                self.evictable.len(),
                |g: int|
                    self.ref_bits[g] && !self.all_referenced() && self.steps_to(g)
                        > self.steps_to(frame),
            ),
        }
    }

    /// The clock without the frames that are `busy`.
    pub open spec fn idle(self, busy: Seq<bool>) -> Clock {
        Clock {
            hand: self.hand,
            evictable: Seq::new(
                self.evictable.len(),
                |g: int| self.evictable[g] && !busy[g],
            ),
            ref_bits: Seq::new(self.evictable.len(), |g: int| self.ref_bits[g] && !busy[g]),
        }
    }

    /// The clock after its hand has swept over the frames that are not `busy` and taken `frame`; busy
    /// frames keep their marks.
    pub open spec fn taking_idle(self, frame: int, busy: Seq<bool>) -> Clock {
        let swept = self.idle(busy).taking(frame);
        Clock {
            hand: swept.hand,
            evictable: self.evictable.update(frame, false),
            ref_bits: Seq::new(
                self.evictable.len(),
                |g: int|
                    if busy[g] {
                        self.ref_bits[g]
                    } else {
                        swept.ref_bits[g]
                    },
            ),
        }
    }

    /// The clock with both marks of `frame` set to `on`.
    pub open spec fn marking(self, frame: int, on: bool) -> Clock {
        Clock {
            hand: self.hand,
            evictable: self.evictable.update(frame, on),
            ref_bits: self.ref_bits.update(frame, on),
        }
    }
}

impl View for ClockReplacer {
    type V = Clock;

    open spec fn view(&self) -> Clock {
        Clock { hand: self.hand as int, ref_bits: self.ref_bits@, evictable: self.evictable@ }
    }
}

impl ClockReplacer {
    /// The tables cover every frame, the hand points at one, and only evictable frames are
    /// referenced.
    pub open spec fn wf(&self) -> bool {
        &&& self.ref_bits@.len() == self.size
        &&& self.evictable@.len() == self.size
        &&& 2 * self.size <= usize::MAX
        &&& self.size == 0 || self.hand < self.size
        &&& forall|f: int| 0 <= f < self.size && #[trigger] self.ref_bits@[f] ==> self.evictable@[f]
    }

    pub fn new(size: usize) -> (replacer: Self)
        requires
            2 * size <= usize::MAX,
        ensures
            replacer.wf(),
            replacer.size == size,
            replacer@ == (Clock {
                hand: 0,
                ref_bits: Seq::new(size as nat, |i: int| false),
                evictable: Seq::new(size as nat, |i: int| false),
            }),
    {
        let replacer = Self {
            size,
            hand: 0,
            ref_bits: vec![false; size],
            evictable: vec![false; size],
        };
        assert(replacer.ref_bits@ =~= Seq::new(size as nat, |i: int| false));
        assert(replacer.evictable@ =~= Seq::new(size as nat, |i: int| false));
        replacer
    }

    /// Chooses the frame to reuse and takes it off the clock.
    pub fn victim(&mut self) -> (res: Result<usize, BufferPoolError>)
        requires
            old(self).wf(),
        ensures
            final(self).wf(),
            final(self).size == old(self).size,
            match res {
                Ok(frame) => {
                    &&& old(self)@.is_next_victim(frame as int)
                    &&& final(self)@ == old(self)@.taking(frame as int)
                },
                Err(e) => {
                    &&& e is NoEvictableFrames
                    &&& forall|f: int| !(#[trigger] old(self)@.offers(f))
                    &&& final(self)@ == old(self)@
                },
            },
    {
        let nobody: Vec<bool> = vec![false; self.size];
        assert(self@.idle(nobody@) =~= self@);
        let res = self.victim_among(&nobody);
        proof {
            if let Ok(frame) = res {
                assert(old(self)@.taking_idle(frame as int, nobody@) =~= old(self)@.taking(
                    frame as int,
                ));
            }
        }
        res
    }

    /// Chooses the frame to reuse among those that are not `busy` and takes it off the clock.
    pub fn victim_among(&mut self, busy: &Vec<bool>) -> (res: Result<usize, BufferPoolError>)
        requires
            old(self).wf(),
            busy@.len() == old(self).size,
        ensures
            final(self).wf(),
            final(self).size == old(self).size,
            match res {
                Ok(frame) => {
                    &&& old(self)@.idle(busy@).is_next_victim(frame as int)
                    &&& final(self)@ == old(self)@.taking_idle(frame as int, busy@)
                },
                Err(e) => {
                    &&& e is NoEvictableFrames
                    &&& forall|f: int| !(#[trigger] old(self)@.idle(busy@).offers(f))
                    &&& old(self)@.idle(busy@).offers_none()
                    &&& final(self)@ == old(self)@
                },
            },
    {
        let size: usize = self.size;
        let mut searched: usize = 0;
        let ghost start = self@;
        let ghost idle = start.idle(busy@);
        while searched < 2 * size
            invariant
                start == old(self)@,
                idle == start.idle(busy@),
                old(self).wf(),
                self.wf(),
                size == self.size == old(self).size,
                busy@.len() == size,
                searched <= 2 * size <= usize::MAX,
                self.hand == turned(start.hand, searched as int, size as int),
                self.evictable@ == start.evictable,
                self.ref_bits@ == swept(
                    start,
                    busy@,
                    if searched < size {
                        searched as int
                    } else {
                        size as int
                    },
                ),
                forall|g: int| #[trigger]
                    idle.offers(g) && idle.steps_to(g) < searched ==> idle.ref_bits[g],
                forall|g: int| #[trigger] idle.offers(g) ==> idle.steps_to(g) >= searched - size,
            decreases 2 * size - searched,
        {
            let hand: usize = self.hand;
            proof {
                lemma_turned(start.hand, searched as int, size as int);
            }
            if self.evictable[hand] && !busy[hand] {
                assert(idle.offers(hand as int));
                if self.ref_bits[hand] {
                    self.ref_bits.set(hand, false);
                } else {
                    self.evictable.set(hand, false);
                    self.ref_bits.set(hand, false);
                    self.hand = next_hand(hand, size);
                    proof {
                        lemma_taken(start, busy@, self@, searched as int, hand as int);
                    }
                    return Ok(hand);
                }
            }
            self.hand = next_hand(hand, size);
            searched = searched + 1;
            assert(self.ref_bits@ =~= swept(
                start,
                busy@,
                if searched < size {
                    searched as int
                } else {
                    size as int
                },
            ));
        }
        proof {
            assert(size > 0 ==> turned(start.hand, 2 * size, size as int) == start.hand);
            assert forall|f: int| !(#[trigger] idle.offers(f)) by {
                if idle.offers(f) {
                    assert(idle.steps_to(f) >= size);
                }
            }
            assert forall|f: int| 0 <= f < size implies self.ref_bits@[f] == start.ref_bits[f] by {
                assert(!idle.offers(f));
            }
            assert(self.ref_bits@ =~= start.ref_bits);
        }
        Err(BufferPoolError::NoEvictableFrames)
    }

    /// Puts a frame on the clock, with one round bought.
    pub fn unpin(&mut self, local_id: usize)
        requires
            old(self).wf(),
            local_id < old(self).size,
        ensures
            final(self).wf(),
            final(self).size == old(self).size,
            final(self)@ == old(self)@.marking(local_id as int, true),
    {
        self.evictable.set(local_id, true);
        self.ref_bits.set(local_id, true);
    }

    /// Takes a frame off the clock.
    pub fn pin(&mut self, local_id: usize)
        requires
            old(self).wf(),
            local_id < old(self).size,
        ensures
            final(self).wf(),
            final(self).size == old(self).size,
            final(self)@ == old(self)@.marking(local_id as int, false),
    {
        self.evictable.set(local_id, false);
        self.ref_bits.set(local_id, false);
    }
}

/// Where a hand that starts at `hand` is after `steps` steps, up to two rounds.
spec fn turned(hand: int, steps: int, size: int) -> int {
    if hand + steps < size {
        hand + steps
    } else if hand + steps < 2 * size {
        hand + steps - size
    } else {
        hand + steps - 2 * size
    }
}

/// The reference bits after the hand has passed `steps` frames of its first round.
spec fn swept(start: Clock, busy: Seq<bool>, steps: int) -> Seq<bool> {
    Seq::new(
        start.evictable.len(),
        |g: int| start.ref_bits[g] && (busy[g] || start.steps_to(g) >= steps),
    )
}

/// The hand after `hand`, around the clock.
fn next_hand(hand: usize, size: usize) -> (next: usize)
    requires
        hand < size,
        size < usize::MAX,
    ensures
        next == if hand + 1 == size {
            0
        } else {
            hand + 1
        },
{
    proof {
        if hand + 1 == size {
            vstd::arithmetic::div_mod::lemma_mod_self_0(size as int);
        } else {
            vstd::arithmetic::div_mod::lemma_small_mod((hand + 1) as nat, size as nat);
        }
    }
    (hand + 1) % size
}

/// An evictable frame that the hand finds unreferenced and not busy after `steps` steps is the one
/// to take.
proof fn lemma_taken(start: Clock, busy: Seq<bool>, end: Clock, steps: int, frame: int)
    requires
        0 < start.size(),
        start.ref_bits.len() == start.size(),
        busy.len() == start.size(),
        0 <= start.hand < start.size(),
        0 <= steps < 2 * start.size(),
        frame == turned(start.hand, steps, start.size()),
        start.idle(busy).offers(frame),
        steps < start.size() ==> !start.ref_bits[frame],
        forall|f: int|
            0 <= f < start.size() && #[trigger] start.ref_bits[f] ==> start.evictable[f],
        forall|g: int| #[trigger]
            start.idle(busy).offers(g) && start.idle(busy).steps_to(g) < steps
                ==> start.idle(busy).ref_bits[g],
        forall|g: int| #[trigger]
            start.idle(busy).offers(g) ==> start.idle(busy).steps_to(g) >= steps - start.size(),
        end.hand == if frame + 1 == start.size() {
            0
        } else {
            frame + 1
        },
        end.evictable == start.evictable.update(frame, false),
        end.ref_bits == swept(
            start,
            busy,
            if steps < start.size() {
                steps
            } else {
                start.size()
            },
        ).update(frame, false),
    ensures
        start.idle(busy).is_next_victim(frame),
        end == start.taking_idle(frame, busy),
{
    let idle = start.idle(busy);
    lemma_turned(start.hand, steps, start.size());
    assert forall|g: int| #[trigger] idle.steps_to(g) == start.steps_to(g) by {}
    if steps >= start.size() {
        assert forall|g: int| #[trigger] idle.offers(g) implies idle.ref_bits[g] by {
            assert(idle.steps_to(g) < start.size());
        }
        assert(idle.all_referenced());
    } else {
        assert(!idle.all_referenced());
        assert forall|g: int| 0 <= g < start.size() && g != frame implies #[trigger] idle.steps_to(g)
            != steps by {}
    }
    assert forall|g: int| 0 <= g < start.size() implies end.ref_bits[g] == start.taking_idle(
        frame,
        busy,
    ).ref_bits[g] by {
        assert(idle.offers(g) <==> start.evictable[g] && !busy[g]);
        assert(idle.steps_to(g) == start.steps_to(g));
    }
    assert(end =~= start.taking_idle(frame, busy));
}

/// The frame under the hand is as many steps ahead of the start as were taken.
proof fn lemma_turned(hand: int, steps: int, size: int)
    requires
        0 <= hand < size,
        0 <= steps < 2 * size,
    ensures
        0 <= turned(hand, steps, size) < size,
        steps < size ==> ahead(hand, turned(hand, steps, size), size) == steps,
        steps >= size ==> ahead(hand, turned(hand, steps, size), size) == steps - size,
{
}

} // verus!
