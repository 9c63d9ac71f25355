//! Nobody waits for ever.
//!
//! A slot that waits in the queue has a rank: fourteen for each slot before
//! it, and for the first in the queue the number of moves that are left of
//! its turn. No move makes the rank of a waiting slot grow, and in every
//! state one move, the helpful one, makes it shrink: a move of the first in
//! the queue, or, where that slot waits for its successor to make itself
//! known, the successor's. So a slot holds the lock once as many helpful
//! moves were made as its rank says, whatever else happens in between. Where
//! the first in the queue holds the lock, the helpful move is its owner's
//! request to give it up: the lock cannot make a holder let go.
use vstd::prelude::*;
use crate::inductive::{
    lemma_after_inv, lemma_clear_inv, lemma_enter_inv, lemma_grant_inv, lemma_handed_queue,
    lemma_handed_run, lemma_member, lemma_place, lemma_publish_pred, lemma_step_inv,
    lemma_step_keeps_others,
};
use crate::model::{Move, Node, State};
use crate::protocol::{Phase, Request};

verus! {

impl State {
    /// Whether `p` is in the queue and has not been granted the lock.
    pub open spec fn waits(self, p: usize) -> bool {
        p < self.nodes.len() && self.phase(p).queued() && !self.phase(p).granted()
    }

    /// How many slots stand before `p` in the queue.
    pub open spec fn ahead(self, p: usize) -> nat {
        self.queue().index_of(p) as nat
    }

    /// How many helpful moves, at most, are left of the turn of the first in
    /// the queue.
    pub open spec fn turn_left(self) -> nat {
        let h = self.queue()[0];
        let known = self.nodes[h as int].next is Some;
        match self.phase(h) {
            Phase::LockPause => 13,
            Phase::LockSpin => 12,
            Phase::LockFence => 11,
            Phase::Holding => 10,
            Phase::UnlockLoad => 9,
            Phase::UnlockClear => 8,
            Phase::UnlockWait => if known {
                4
            } else {
                7
            },
            Phase::UnlockPause => if known {
                5
            } else {
                7
            },
            Phase::UnlockFence { .. } => 2,
            Phase::UnlockGrant { .. } => 1,
            _ => 0,
        }
    }

    /// The rank of `p`: a bound on the helpful moves that are made before
    /// `p` holds the lock.
    pub open spec fn rank(self, p: usize) -> nat {
        14 * self.ahead(p) + self.turn_left()
    }

    /// Whether the first in the queue waits for its successor to make itself
    /// known.
    pub open spec fn awaits_successor(self) -> bool {
        let h = self.queue()[0];
        &&& self.phase(h) is UnlockWait || self.phase(h) is UnlockPause
        &&& self.nodes[h as int].next is None
    }

    /// How many of `moves`, made one after the other from this state, are
    /// the helpful move of the state in which they are made.
    pub open spec fn helpful_among(self, moves: Seq<(usize, Move)>) -> nat
        decreases moves.len(),
    {
        if moves.len() == 0 {
            0
        } else {
            let before = moves.drop_last();
            let helps: nat = if moves.last() == self.after(before).helpful() {
                1
            } else {
                0
            };
            self.helpful_among(before) + helps
        }
    }

    /// Whether `p` holds the lock in this state or after some of the first
    /// of `moves`.
    pub open spec fn holds_during(self, moves: Seq<(usize, Move)>, p: usize) -> bool {
        exists|k: int|
            0 <= k <= moves.len() && #[trigger] self.after(moves.take(k)).phase(p) is Holding
    }

    /// The move that brings the queue forward.
    pub open spec fn helpful(self) -> (usize, Move) {
        let h = self.queue()[0];
        if self.phase(h) is Holding {
            (h, Move::Ask(Request::Unlock))
        } else if self.awaits_successor() {
            (self.queue()[1], Move::Run)
        } else {
            (h, Move::Run)
        }
    }
}

/// What a move does to the queue: it appends the slot that enters, drops the
/// first where that slot leaves, and changes nothing else.
pub proof fn lemma_queue_after(s: State, slot: usize, mv: Move)
    requires
        s.inv(),
        slot < s.nodes.len(),
    ensures
        s.step(slot, mv).queue() == if mv is Run && (s.phase(slot) is LockSwap || (s.phase(
            slot,
        ) is TryClaim && s.tail is None)) {
            s.queue().push(slot)
        } else if mv is Run && (s.phase(slot) is UnlockGrant || (s.phase(slot) is UnlockClear
            && s.tail == Some(slot))) {
            s.queue().skip(1)
        } else {
            s.queue()
        },
{
    if mv is Run {
        match s.phase(slot) {
            Phase::LockSwap => lemma_enter_inv(s, slot),
            Phase::TryClaim => {
                if s.tail is None {
                    lemma_enter_inv(s, slot);
                }
            },
            Phase::UnlockGrant { .. } => lemma_grant_inv(s, slot),
            Phase::UnlockClear => {
                if s.tail == Some(slot) {
                    lemma_clear_inv(s, slot);
                    assert(s.run(slot).queue() =~= s.queue().skip(1));
                }
            },
            _ => {},
        }
    }
}

/// A slot stands at one place in the queue.
pub proof fn lemma_ahead(s: State, p: usize, i: int)
    requires
        s.inv(),
        0 <= i < s.queue().len(),
        s.queue()[i] == p,
    ensures
        s.ahead(p) == i,
{
    reveal(State::inv);
}

/// What a move does to the successor words: a slot that resets its own word
/// sets it to none, a slot that makes itself known writes itself into the
/// word of its predecessor, and no other word changes.
pub proof fn lemma_successors_after(s: State, slot: usize, mv: Move)
    requires
        s.inv(),
        slot < s.nodes.len(),
    ensures
        forall|x: usize|
            x < s.nodes.len() ==> #[trigger] s.step(slot, mv).nodes[x as int].next == if mv is Run
                && x == slot && (s.phase(slot) is TryReset || s.phase(slot) is LockReset) {
                None
            } else if mv is Run && s.phase(slot) == (Phase::LockPublish { pred: x }) {
                Some(slot)
            } else {
                s.nodes[x as int].next
            },
{
    if mv is Run {
        match s.phase(slot) {
            Phase::LockPublish { pred } => {
                lemma_publish_pred(s, slot, pred);
            },
            Phase::UnlockGrant { succ } => {
                lemma_handed_queue(s, slot, succ);
                lemma_handed_run(s, slot, succ);
            },
            _ => {},
        }
    }
}

/// No move makes the rank of a waiting slot grow, and a waiting slot goes on
/// waiting until it holds the lock.
pub proof fn lemma_rank_never_grows(s: State, p: usize, slot: usize, mv: Move)
    requires
        s.inv(),
        s.waits(p),
    ensures
        s.step(slot, mv).phase(p) is Holding || {
            &&& s.step(slot, mv).waits(p)
            &&& s.step(slot, mv).rank(p) <= s.rank(p)
        },
{
    let t = s.step(slot, mv);
    if slot < s.nodes.len() {
        let q = s.queue();
        let i = lemma_place(s, p);
        lemma_ahead(s, p, i);
        lemma_step_inv(s, slot, mv);
        lemma_step_keeps_others(s, slot, mv);
        lemma_queue_after(s, slot, mv);
        lemma_successors_after(s, slot, mv);
        let h = q[0];
        lemma_member(s, 0);
        let leaves = mv is Run && (s.phase(slot) is UnlockGrant || (s.phase(slot) is UnlockClear
            && s.tail == Some(slot)));
        if leaves {
            // The first in the queue leaves; `p` stood behind it.
            let k = lemma_place(s, slot);
            assert(slot == h && i >= 1);
            assert(t.queue()[i - 1] == p);
            lemma_ahead(t, p, i - 1);
            if let Phase::UnlockGrant { succ } = s.phase(slot) {
                lemma_handed_queue(s, slot, succ);
            } else {
                lemma_clear_inv(s, slot);
            }
            assert(t.waits(p));
            assert(t.turn_left() <= 13);
            assert(t.rank(p) <= s.rank(p));
        } else {
            assert(t.queue()[i] == p);
            lemma_ahead(t, p, i);
            assert(t.queue()[0] == h);
            if let Phase::LockPublish { pred } = s.phase(slot) {
                lemma_publish_pred(s, slot, pred);
            }
            if slot == p && mv is Run {
                assert(t.phase(p) == match s.phase(p) {
                    Phase::LockPublish { .. } => Phase::LockSpin,
                    Phase::LockSpin => if s.nodes[p as int].locked {
                        Phase::LockPause
                    } else {
                        Phase::LockFence
                    },
                    Phase::LockPause => Phase::LockSpin,
                    _ => Phase::Holding,
                });
            } else {
                assert(t.phase(p) == s.phase(p));
            }
            assert(t.phase(p) is Holding || t.waits(p));
            assert(t.turn_left() <= s.turn_left() || t.phase(p) is Holding);
        }
    }
}

/// The helpful move makes the rank of every waiting slot shrink, or gives the
/// slot the lock.
pub proof fn lemma_helpful_move_counts(s: State, p: usize)
    requires
        s.inv(),
        s.waits(p),
    ensures
        ({
            let t = s.step(s.helpful().0, s.helpful().1);
            t.phase(p) is Holding || (t.waits(p) && t.rank(p) < s.rank(p))
        }),
{
    let (slot, mv) = s.helpful();
    let t = s.step(slot, mv);
    let q = s.queue();
    let h = q[0];
    let i = lemma_place(s, p);
    lemma_ahead(s, p, i);
    lemma_member(s, 0);
    if s.awaits_successor() {
        lemma_member(s, 1);
    }
    lemma_rank_never_grows(s, p, slot, mv);
    lemma_step_keeps_others(s, slot, mv);
    lemma_queue_after(s, slot, mv);
    lemma_successors_after(s, slot, mv);
    if s.phase(h) is UnlockGrant {
        lemma_grant_inv(s, h);
        lemma_step_inv(s, slot, mv);
        assert(i >= 1);
        assert(t.queue()[i - 1] == p);
        lemma_ahead(t, p, i - 1);
    } else if s.phase(h) is UnlockClear && s.tail == Some(h) {
        lemma_clear_inv(s, h);
    } else if !(t.phase(p) is Holding) {
        lemma_step_inv(s, slot, mv);
        assert(t.queue()[i] == p);
        lemma_ahead(t, p, i);
        assert(t.queue()[0] == h);
        assert(t.turn_left() < s.turn_left());
    }
}

/// A waiting slot has a rank above zero.
pub proof fn lemma_rank_of_a_waiting_slot(s: State, p: usize)
    requires
        s.inv(),
        s.waits(p),
    ensures
        s.rank(p) > 0,
{
    let i = lemma_place(s, p);
    lemma_ahead(s, p, i);
}

/// While a slot waits, its rank and the helpful moves made so far are
/// together no more than its rank was at first.
proof fn lemma_waits_or_holds(s: State, p: usize, moves: Seq<(usize, Move)>)
    requires
        s.inv(),
        s.waits(p),
    ensures
        s.holds_during(moves, p) || {
            &&& s.after(moves).waits(p)
            &&& s.after(moves).rank(p) + s.helpful_among(moves) <= s.rank(p)
        },
    decreases moves.len(),
{
    if moves.len() > 0 {
        let before = moves.drop_last();
        let (slot, mv) = moves.last();
        let mid = s.after(before);
        lemma_waits_or_holds(s, p, before);
        lemma_after_inv(s, before);
        if s.holds_during(before, p) {
            let k = choose|k: int|
                0 <= k <= before.len() && #[trigger] s.after(before.take(k)).phase(p) is Holding;
            assert(moves.take(k) =~= before.take(k));
        } else {
            lemma_rank_never_grows(mid, p, slot, mv);
            if moves.last() == mid.helpful() {
                lemma_helpful_move_counts(mid, p);
            }
            if s.after(moves).phase(p) is Holding {
                assert(moves.take(moves.len() as int) =~= moves);
            }
        }
    }
}

/// Nobody waits for ever. Take a slot that waits in the queue and any moves
/// at all. Once as many of them were helpful as the rank of the slot says,
/// the slot has held the lock. The rank is at most fourteen for each slot
/// before it and thirteen more, so who comes first waits least.
pub proof fn lemma_bounded_wait(s: State, p: usize, moves: Seq<(usize, Move)>)
    requires
        s.inv(),
        s.waits(p),
        s.helpful_among(moves) >= s.rank(p),
    ensures
        s.holds_during(moves, p),
        s.rank(p) <= 14 * s.ahead(p) + 13,
{
    lemma_waits_or_holds(s, p, moves);
    lemma_after_inv(s, moves);
    if s.after(moves).waits(p) {
        lemma_rank_of_a_waiting_slot(s.after(moves), p);
    }
}

/// How to tell the first in the queue: it is the one slot that has been
/// granted the lock, or that has seen its flag cleared, or whose flag is
/// cleared while it still looks at it.
pub open spec fn leads(node: Node) -> bool {
    ||| node.phase.granted()
    ||| node.phase is LockFence
    ||| (node.phase is LockSpin || node.phase is LockPause) && !node.locked
}

/// The first in the queue leads, and no other slot does.
pub proof fn lemma_first_leads(s: State, p: usize)
    requires
        s.inv(),
        p < s.nodes.len(),
    ensures
        leads(s.nodes[p as int]) <==> s.queue().len() > 0 && s.queue()[0] == p,
{
    if s.queue().len() > 0 {
        lemma_member(s, 0);
        if s.queue()[0] == p {
            lemma_ahead(s, p, 0);
        }
    }
    if s.phase(p).queued() {
        let i = lemma_place(s, p);
        lemma_ahead(s, p, i);
    }
}

/// The second in the queue is the one slot that is about to make itself
/// known to the first, where there is such a slot.
pub proof fn lemma_second_follows(s: State, p: usize)
    requires
        s.inv(),
        p < s.nodes.len(),
        s.queue().len() > 0,
        s.phase(p) == (Phase::LockPublish { pred: s.queue()[0] }),
    ensures
        s.queue().len() > 1,
        s.queue()[1] == p,
{
    let i = lemma_place(s, p);
    lemma_ahead(s, s.queue()[i - 1], i - 1);
    lemma_ahead(s, s.queue()[0], 0);
}

} // verus!
