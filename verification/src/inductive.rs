//! The proof that every move keeps the invariant of the model.
//!
//! The moves fall into a few kinds. A slot outside the queue changes its own
//! node; a slot in the queue changes its phase; a slot enters the queue, makes
//! itself known to its predecessor, takes the lock, or leaves, alone or with
//! a hand-off. Each kind has its lemma, and [`lemma_step_inv`] puts them
//! together.
use vstd::prelude::*;
use crate::model::{Move, Node, State};
use crate::protocol::{Phase, Request};

verus! {

/// Where a slot stands in the queue and what follows from the invariant for
/// that place.
pub proof fn lemma_place(s: State, p: usize) -> (i: int)
    requires
        s.inv(),
        p < s.nodes.len(),
        s.phase(p).queued(),
    ensures
        0 <= i < s.queue().len(),
        s.queue()[i] == p,
        i == 0 ==> s.headed(p),
        i > 0 ==> s.linked(s.queue()[i - 1], p),
        s.phase(p).granted() || s.phase(p) is LockFence ==> i == 0,
        s.phase(p) is LockPublish ==> i > 0,
{
    reveal(State::inv);
    let q = s.queue();
    assert(s.placed(p));
    let i = choose|i: int| 0 <= i < q.len() && q[i] == p;
    if i > 0 {
        assert(s.linked(q[i - 1], q[(i - 1) + 1]));
    } else {
        assert(s.headed(q[0]));
    }
    i
}

/// What follows from the invariant for the slot at place `i` of the queue.
pub proof fn lemma_member(s: State, i: int)
    requires
        s.inv(),
        0 <= i < s.queue().len(),
    ensures
        s.queue()[i] < s.nodes.len(),
        s.phase(s.queue()[i]).queued(),
        i == 0 ==> s.headed(s.queue()[i]),
        i > 0 ==> s.linked(s.queue()[i - 1], s.queue()[i]),
{
    reveal(State::inv);
    let q = s.queue();
    assert(q.contains(q[i]));
    assert(s.placed(q[i]));
    if i > 0 {
        assert(s.linked(q[i - 1], q[(i - 1) + 1]));
    }
}

/// A slot that is not in the queue differs from every slot that is.
proof fn lemma_outside(s: State, p: usize)
    requires
        s.inv(),
        p < s.nodes.len(),
        !s.phase(p).queued(),
    ensures
        forall|i: int| 0 <= i < s.queue().len() ==> (#[trigger] s.queue()[i]) != p,
{
    reveal(State::inv);
    let q = s.queue();
    assert(s.placed(p));
    assert forall|i: int| 0 <= i < q.len() implies (#[trigger] q[i]) != p by {
        if q[i] == p {
            assert(q.contains(p));
        }
    }
}

/// The first in the queue stands behind nobody.
proof fn lemma_head_is_behind_nobody(s: State)
    requires
        s.inv(),
    ensures
        forall|i: int|
            0 <= i && i + 1 < s.queue().len() ==> s.queue()[0] != #[trigger] s.queue()[i + 1],
{
    reveal(State::inv);
}

/// A slot that is about to make itself known has a predecessor among the
/// slots, other than itself, and the predecessor is in the queue.
pub proof fn lemma_publish_pred(s: State, p: usize, pred: usize)
    requires
        s.inv(),
        p < s.nodes.len(),
        s.phase(p) == (Phase::LockPublish { pred }),
    ensures
        pred < s.nodes.len(),
        pred != p,
        s.phase(pred).queued(),
{
    reveal(State::inv);
    let i = lemma_place(s, p);
    assert(s.queue()[i - 1] == pred);
    assert(s.queue().contains(pred));
    assert(s.placed(pred));
}

/// What the links and the head need of a state `t` that was made from `s`
/// with the queue unchanged: where the nodes that a link or the head looks at
/// are the same in both, the links and the head of `s` are those of `t`.
proof fn lemma_same_links(s: State, t: State)
    requires
        s.inv(),
        t.queue() == s.queue(),
        t.grants.len() == s.grants.len(),
        t.departures == s.departures,
        t.nodes.len() == s.nodes.len(),
        forall|i: int|
            0 <= i < s.queue().len() ==> t.nodes[(#[trigger] s.queue()[i]) as int]
                == s.nodes[s.queue()[i] as int],
    ensures
        t.links_agree(),
{
    reveal(State::inv);
    let q = s.queue();
    assert forall|j: int| 0 <= j && j + 1 < q.len() implies t.linked(#[trigger] q[j], q[j + 1]) by {
        assert(s.linked(q[j], q[j + 1]));
        assert(t.nodes[q[j + 1] as int] == s.nodes[q[j + 1] as int]);
    }
    if q.len() > 0 {
        assert(s.headed(q[0]));
        assert(t.nodes[q[0] as int] == s.nodes[q[0] as int]);
        assert(t.nodes[q[q.len() - 1] as int] == s.nodes[q[q.len() - 1] as int]);
    }
}

/// A slot outside the queue may change its own node in any way that keeps it
/// outside.
proof fn lemma_outside_turn(s: State, p: usize, node: Node)
    requires
        s.inv(),
        p < s.nodes.len(),
        !s.phase(p).queued(),
        !node.phase.queued(),
        node.phase is TryClaim || node.phase is LockSwap ==> node.next is None,
    ensures
        s.with_node(p, node).inv(),
{
    reveal(State::inv);
    let t = s.with_node(p, node);
    lemma_outside(s, p);
    lemma_same_links(s, t);
    assert forall|x: usize| x < t.nodes.len() implies #[trigger] t.placed(x) by {
        assert(s.placed(x));
    }
}

/// A slot in the queue may change its phase, and nothing else, where the new
/// phase fits its place.
proof fn lemma_queued_turn(s: State, p: usize, to: Phase)
    requires
        s.inv(),
        p < s.nodes.len(),
        s.phase(p).queued(),
        to.queued(),
        s.queue()[0] == p ==> s.with_phase(p, to).headed(p),
        forall|i: int|
            0 <= i && i + 1 < s.queue().len() && s.queue()[i + 1] == p ==> s.with_phase(
                p,
                to,
            ).linked(#[trigger] s.queue()[i], p),
    ensures
        s.with_phase(p, to).inv(),
{
    reveal(State::inv);
    let t = s.with_phase(p, to);
    let q = s.queue();
    let i = lemma_place(s, p);
    assert forall|j: int| 0 <= j && j + 1 < q.len() implies t.linked(#[trigger] q[j], q[j + 1]) by {
        assert(s.linked(q[j], q[j + 1]));
        if q[j + 1] != p {
            assert(t.phase(q[j + 1]) == s.phase(q[j + 1]));
        }
    }
    assert forall|x: usize| x < t.nodes.len() implies #[trigger] t.placed(x) by {
        assert(s.placed(x));
    }
    assert(s.headed(q[0]));
    if q[0] != p {
        assert(t.phase(q[0]) == s.phase(q[0]));
    }
}

/// A request keeps the invariant.
pub proof fn lemma_ask_inv(s: State, p: usize, request: Request)
    requires
        s.inv(),
        p < s.nodes.len(),
    ensures
        s.ask(p, request).inv(),
{
    if s.phase(p).spec_permits(request) {
        let to = Phase::first(request);
        if request is Unlock {
            let i = lemma_place(s, p);
            lemma_head_is_behind_nobody(s);
            lemma_queued_turn(s, p, to);
        } else {
            lemma_outside_turn(s, p, Node { phase: to, ..s.nodes[p as int] });
        }
    }
}

/// The first in the queue, once it has seen its flag cleared, takes the lock.
proof fn lemma_take_inv(s: State, p: usize)
    requires
        s.inv(),
        p < s.nodes.len(),
        s.phase(p) is LockFence,
    ensures
        s.run(p).inv(),
        s.run(p).grants == s.grants.push(p),
{
    reveal(State::inv);
    let t = s.run(p);
    let q = s.queue();
    let i = lemma_place(s, p);
    lemma_head_is_behind_nobody(s);
    assert(q[0] == s.arrivals[s.departures as int]);
    assert(t.grants =~= t.arrivals.take(t.grants.len() as int));
    assert forall|j: int| 0 <= j && j + 1 < q.len() implies t.linked(#[trigger] q[j], q[j + 1]) by {
        assert(s.linked(q[j], q[j + 1]));
        assert(t.phase(q[j + 1]) == s.phase(q[j + 1]));
    }
    assert forall|x: usize| x < t.nodes.len() implies #[trigger] t.placed(x) by {
        assert(s.placed(x));
    }
}

/// A slot that enters the queue, by a claim that wins or by a swap, keeps the
/// invariant.
pub proof fn lemma_enter_inv(s: State, p: usize)
    requires
        s.inv(),
        p < s.nodes.len(),
        s.phase(p) is LockSwap || (s.phase(p) is TryClaim && s.tail is None),
    ensures
        s.run(p).inv(),
        s.run(p).queue() == s.queue().push(p),
{
    reveal(State::inv);
    let t = s.run(p);
    let q = s.queue();
    let q2 = t.queue();
    lemma_outside(s, p);
    assert(s.placed(p));
    assert(q2 =~= q.push(p));
    assert(t.grants =~= t.arrivals.take(t.grants.len() as int)) by {
        if q.len() == 0 {
            assert(s.grants =~= s.arrivals);
        }
    }
    assert forall|j: int| 0 <= j && j + 1 < q2.len() implies t.linked(
        #[trigger] q2[j],
        q2[j + 1],
    ) by {
        if j + 1 < q.len() {
            assert(s.linked(q[j], q[j + 1]));
            assert(t.phase(q[j + 1]) == s.phase(q[j + 1]));
        } else {
            assert(q2[j] == q.last());
        }
    }
    assert forall|x: usize| x < t.nodes.len() implies #[trigger] t.placed(x) by {
        assert(s.placed(x));
        if x == p {
            assert(q2[q2.len() - 1] == p);
        } else if q.contains(x) {
            let k = choose|k: int| 0 <= k < q.len() && q[k] == x;
            assert(q2[k] == x);
        }
    }
    if q.len() > 0 {
        assert(s.headed(q[0]));
        assert(q2[0] == q[0]);
        assert(t.phase(q[0]) == s.phase(q[0]));
    }
}

/// A slot that makes itself known to its predecessor keeps the invariant.
proof fn lemma_publish_inv(s: State, p: usize)
    requires
        s.inv(),
        p < s.nodes.len(),
        s.phase(p) is LockPublish,
    ensures
        s.run(p).inv(),
{
    reveal(State::inv);
    let t = s.run(p);
    let q = s.queue();
    let i = lemma_place(s, p);
    let pred = q[i - 1];
    lemma_publish_pred(s, p, pred);
    assert forall|j: int| 0 <= j && j + 1 < q.len() implies t.linked(#[trigger] q[j], q[j + 1]) by {
        assert(s.linked(q[j], q[j + 1]));
        if j + 1 != i {
            assert(q[j + 1] != p);
            assert(q[j] != pred);
            assert(t.phase(q[j + 1]) == s.phase(q[j + 1]));
        }
    }
    assert forall|x: usize| x < t.nodes.len() implies #[trigger] t.placed(x) by {
        assert(s.placed(x));
    }
    assert(s.headed(q[0]));
    assert(t.phase(q[0]) == s.phase(q[0]));
    assert(q.last() != pred);
}

/// The only slot in the queue, once it has cleared the tail, has left.
pub proof fn lemma_clear_inv(s: State, p: usize)
    requires
        s.inv(),
        p < s.nodes.len(),
        s.phase(p) is UnlockClear,
        s.tail == Some(p),
    ensures
        s.run(p).inv(),
        s.queue().len() == 1,
        s.run(p).queue().len() == 0,
{
    reveal(State::inv);
    let t = s.run(p);
    let q = s.queue();
    let i = lemma_place(s, p);
    assert(q.len() == 1);
    assert(t.queue() =~= Seq::<usize>::empty());
    assert forall|x: usize| x < t.nodes.len() implies #[trigger] t.placed(x) by {
        assert(s.placed(x));
        if q.contains(x) {
            assert(x == p);
        }
    }
}

/// What the hand-off leaves: the flag of `succ` cleared, `p` idle, one more
/// departure.
pub open spec fn handed(s: State, p: usize, succ: usize) -> State {
    State { departures: s.departures + 1, ..s.with_locked(succ, false).with_phase(p, Phase::Idle) }
}

/// To skip one more is to skip the first of what is left.
proof fn lemma_skip_one(a: Seq<usize>, d: nat)
    requires
        d < a.len(),
    ensures
        a.skip((d + 1) as int) == a.skip(d as int).skip(1),
{
    assert(a.skip((d + 1) as int) =~= a.skip(d as int).skip(1));
}

/// The queue around a hand-off: `p` is first, `succ` second and waiting, and
/// after it the queue is what it was without `p`.
pub proof fn lemma_handed_queue(s: State, p: usize, succ: usize)
    requires
        s.inv(),
        p < s.nodes.len(),
        s.phase(p) == (Phase::UnlockGrant { succ }),
    ensures
        s.queue().len() >= 2,
        s.queue()[0] == p,
        s.queue()[1] == succ,
        succ != p,
        succ < s.nodes.len(),
        s.phase(succ) is LockSpin || s.phase(succ) is LockPause,
        handed(s, p, succ).queue() == s.queue().skip(1),
{
    reveal(State::inv);
    let q = s.queue();
    let i = lemma_place(s, p);
    assert(s.linked(q[0], q[0int + 1]));
    lemma_skip_one(s.arrivals, s.departures);
}

/// The hand-off is what the model's `run` does for a slot that is about to
/// clear its successor's flag.
pub proof fn lemma_handed_run(s: State, p: usize, succ: usize)
    requires
        s.phase(p) == (Phase::UnlockGrant { succ }),
        p < s.nodes.len(),
        succ < s.nodes.len(),
        succ != p,
    ensures
        s.run(p) == handed(s, p, succ),
{
    assert(s.run(p).nodes =~= handed(s, p, succ).nodes);
}

/// After a hand-off the phases fit the places, and the tail and the logs
/// agree with the queue.
proof fn lemma_handed_phases(s: State, p: usize, succ: usize)
    requires
        s.inv(),
        p < s.nodes.len(),
        s.phase(p) == (Phase::UnlockGrant { succ }),
    ensures
        handed(s, p, succ).phases_agree(),
        handed(s, p, succ).tail_agrees(),
        handed(s, p, succ).logs_agree(),
{
    reveal(State::inv);
    let t = handed(s, p, succ);
    let q = s.queue();
    lemma_handed_queue(s, p, succ);
    let q2 = q.skip(1);
    assert(q2.last() == q.last());
    assert forall|x: usize| x < t.nodes.len() implies #[trigger] t.placed(x) by {
        assert(s.placed(x));
        if q2.contains(x) {
            let k = choose|k: int| 0 <= k < q2.len() && q2[k] == x;
            assert(q[k + 1] == x);
        }
        if x != p && q.contains(x) {
            let k = choose|k: int| 0 <= k < q.len() && q[k] == x;
            assert(q2[k - 1] == x);
        }
    }
}

/// After a hand-off the successor words link the queue.
proof fn lemma_handed_links(s: State, p: usize, succ: usize)
    requires
        s.inv(),
        p < s.nodes.len(),
        s.phase(p) == (Phase::UnlockGrant { succ }),
    ensures
        handed(s, p, succ).links_agree(),
{
    reveal(State::inv);
    let t = handed(s, p, succ);
    let q = s.queue();
    lemma_handed_queue(s, p, succ);
    let q2 = q.skip(1);
    assert forall|j: int| 0 <= j && j + 1 < q2.len() implies t.linked(
        #[trigger] q2[j],
        q2[j + 1],
    ) by {
        let a = q[j + 1];
        let b = q[j + 1 + 1];
        assert(s.linked(a, b));
        assert(b != p && b != succ && a != p);
        assert(t.nodes[b as int] == s.nodes[b as int]);
        assert(t.nodes[a as int].next == s.nodes[a as int].next);
    }
    assert(s.headed(p));
    assert(t.headed(succ));
    assert(q2.last() == q.last());
}

/// A slot that clears its successor's flag has left, and the successor is
/// the first in the queue.
pub proof fn lemma_grant_inv(s: State, p: usize)
    requires
        s.inv(),
        p < s.nodes.len(),
        s.phase(p) is UnlockGrant,
    ensures
        s.run(p).inv(),
        s.run(p).queue() == s.queue().skip(1),
{
    reveal(State::inv);
    let succ = s.phase(p)->UnlockGrant_succ;
    lemma_handed_queue(s, p, succ);
    lemma_handed_run(s, p, succ);
    lemma_handed_phases(s, p, succ);
    lemma_handed_links(s, p, succ);
}

/// An action keeps the invariant.
pub proof fn lemma_run_inv(s: State, p: usize)
    requires
        s.inv(),
        p < s.nodes.len(),
    ensures
        s.run(p).inv(),
{
    let t = s.run(p);
    let node = s.nodes[p as int];
    match s.phase(p) {
        Phase::Idle | Phase::Holding => {},
        Phase::TryReset => {
            let reset = Node { next: None, phase: Phase::TryClaim, ..node };
            lemma_outside_turn(s, p, reset);
            assert(t.nodes =~= s.with_node(p, reset).nodes);
        },
        Phase::LockReset => {
            let reset = Node { next: None, phase: Phase::LockSwap, ..node };
            lemma_outside_turn(s, p, reset);
            assert(t.nodes =~= s.with_node(p, reset).nodes);
        },
        Phase::TryClaim => {
            if s.tail is None {
                lemma_enter_inv(s, p);
            } else {
                lemma_outside_turn(s, p, Node { phase: Phase::Idle, ..node });
            }
        },
        Phase::LockSwap => {
            lemma_enter_inv(s, p);
        },
        Phase::LockPublish { .. } => {
            lemma_publish_inv(s, p);
        },
        Phase::LockFence => {
            lemma_take_inv(s, p);
        },
        Phase::UnlockClear => {
            if s.tail == Some(p) {
                lemma_clear_inv(s, p);
            } else {
                lemma_turn_in_place(s, p, Phase::UnlockWait);
            }
        },
        Phase::UnlockGrant { .. } => {
            lemma_grant_inv(s, p);
        },
        _ => {
            let to = t.phase(p);
            assert(t == s.with_phase(p, to));
            lemma_turn_in_place(s, p, to);
        },
    }
}

/// A slot in the queue that polls, pauses, fences or loads goes on to a phase
/// that fits the place where it stands.
proof fn lemma_turn_in_place(s: State, p: usize, to: Phase)
    requires
        s.inv(),
        p < s.nodes.len(),
        match s.phase(p) {
            Phase::LockSpin => to == if s.nodes[p as int].locked {
                Phase::LockPause
            } else {
                Phase::LockFence
            },
            Phase::LockPause => to is LockSpin,
            Phase::UnlockLoad => to == match s.nodes[p as int].next {
                None => Phase::UnlockClear,
                Some(succ) => Phase::UnlockFence { succ },
            },
            Phase::UnlockClear => to is UnlockWait && s.tail != Some(p),
            Phase::UnlockWait => to == match s.nodes[p as int].next {
                None => Phase::UnlockPause,
                Some(succ) => Phase::UnlockFence { succ },
            },
            Phase::UnlockPause => to is UnlockWait,
            Phase::UnlockFence { succ } => to == (Phase::UnlockGrant { succ }),
            _ => false,
        },
    ensures
        s.with_phase(p, to).inv(),
{
    reveal(State::inv);
    let q = s.queue();
    let i = lemma_place(s, p);
    if i == 0 {
        assert(s.headed(p));
        lemma_head_is_behind_nobody(s);
        if q.len() == 1 {
            assert(q.last() == p);
        } else {
            assert(s.linked(q[0], q[0int + 1]));
        }
    } else {
        assert(s.linked(q[i - 1], p));
        assert forall|j: int| 0 <= j && j + 1 < q.len() && q[j + 1] == p implies s.with_phase(
            p,
            to,
        ).linked(#[trigger] q[j], p) by {
            assert(j + 1 == i);
        }
    }
    lemma_queued_turn(s, p, to);
}

/// A move keeps the invariant.
pub proof fn lemma_step_inv(s: State, slot: usize, mv: Move)
    requires
        s.inv(),
    ensures
        s.step(slot, mv).inv(),
{
    if slot < s.nodes.len() {
        match mv {
            Move::Ask(request) => lemma_ask_inv(s, slot, request),
            Move::Run => lemma_run_inv(s, slot),
        }
    }
}

/// The state in which nothing has happened satisfies the invariant.
pub proof fn lemma_init_inv(slots: nat)
    ensures
        State::init(slots).inv(),
{
    reveal(State::inv);
    let s = State::init(slots);
    assert(s.queue() =~= Seq::<usize>::empty());
    assert(s.grants =~= s.arrivals.take(0));
}

/// Whatever moves are made, in whatever order, the invariant holds of the
/// state that they lead to.
pub proof fn lemma_after_inv(s: State, moves: Seq<(usize, Move)>)
    requires
        s.inv(),
    ensures
        s.after(moves).inv(),
    decreases moves.len(),
{
    if moves.len() > 0 {
        lemma_after_inv(s, moves.drop_last());
        lemma_step_inv(s.after(moves.drop_last()), moves.last().0, moves.last().1);
    }
}

/// A move of one slot adds or removes no slot, and leaves the phase of every
/// other slot as it was.
pub proof fn lemma_step_keeps_others(s: State, slot: usize, mv: Move)
    requires
        s.inv(),
    ensures
        s.step(slot, mv).nodes.len() == s.nodes.len(),
        forall|other: usize|
            other < s.nodes.len() && other != slot ==> #[trigger] s.step(slot, mv).phase(other)
                == s.phase(other),
{
    if slot < s.nodes.len() && mv is Run {
        match s.phase(slot) {
            Phase::LockPublish { pred } => {
                lemma_publish_pred(s, slot, pred);
            },
            Phase::UnlockGrant { succ } => {
                lemma_handed_queue(s, slot, succ);
            },
            _ => {},
        }
    }
}

/// No moves add or remove a slot.
pub proof fn lemma_after_len(s: State, moves: Seq<(usize, Move)>)
    requires
        s.inv(),
    ensures
        s.after(moves).nodes.len() == s.nodes.len(),
    decreases moves.len(),
{
    if moves.len() > 0 {
        lemma_after_len(s, moves.drop_last());
        lemma_after_inv(s, moves.drop_last());
        lemma_step_keeps_others(s.after(moves.drop_last()), moves.last().0, moves.last().1);
    }
}

/// The invariant does not look at stale words.
pub proof fn lemma_stale_words_keep_inv(s: State, t: State)
    requires
        s.inv(),
        s.differs_in_stale_words(t),
    ensures
        t.inv(),
{
    reveal(State::inv);
    let q = s.queue();
    assert forall|x: usize| x < t.nodes.len() implies #[trigger] t.placed(x) by {
        assert(s.placed(x));
        assert(s.agrees_on(t, x));
    }
    assert forall|i: int| 0 <= i < q.len() implies s.agrees_on(t, #[trigger] q[i])
        && s.phase(q[i]).queued() by {
        assert(q.contains(q[i]));
        assert(s.placed(q[i]));
    }
    assert forall|j: int| 0 <= j && j + 1 < q.len() implies t.linked(#[trigger] q[j], q[j + 1]) by {
        assert(s.linked(q[j], q[j + 1]));
    }
    if q.len() > 0 {
        assert(s.headed(q[0]));
    }
}

} // verus!
