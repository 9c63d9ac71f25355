//! What holds of the lock in every interleaving.
//!
//! Each law is stated of a state that satisfies the model's invariant; the
//! laws whose name ends in `always` say the same of every state that any
//! moves lead to from the start.
use vstd::prelude::*;
use crate::inductive::{
    lemma_after_inv, lemma_after_len, lemma_ask_inv, lemma_clear_inv, lemma_enter_inv,
    lemma_handed_queue, lemma_handed_run, lemma_init_inv, lemma_place, lemma_publish_pred,
    lemma_run_inv, lemma_step_inv,
};
use crate::model::{Move, Node, State};
use crate::protocol::{Phase, Request};

verus! {

/// Mutual exclusion: at no time have two slots been granted the lock without
/// one of them having left. So at most one party holds the lock, and no
/// party holds it while another is still giving it up.
pub proof fn lemma_mutual_exclusion(s: State, a: usize, b: usize)
    requires
        s.inv(),
        a < s.nodes.len(),
        b < s.nodes.len(),
        s.phase(a).granted(),
        s.phase(b).granted(),
    ensures
        a == b,
{
    let i = lemma_place(s, a);
    let j = lemma_place(s, b);
    assert(i == 0 && j == 0);
}

/// Mutual exclusion in every interleaving: start with any number of idle
/// slots and make any moves; no two slots hold the lock in the state that
/// results.
pub proof fn lemma_mutual_exclusion_always(
    slots: nat,
    moves: Seq<(usize, Move)>,
    a: usize,
    b: usize,
)
    requires
        a < slots,
        b < slots,
        State::init(slots).after(moves).phase(a) is Holding,
        State::init(slots).after(moves).phase(b) is Holding,
    ensures
        a == b,
{
    let s = State::init(slots);
    lemma_init_inv(slots);
    lemma_after_inv(s, moves);
    lemma_after_len(s, moves);
    lemma_mutual_exclusion(s.after(moves), a, b);
}

/// The tail is none exactly when no slot is in the queue: none waits, none
/// holds the lock and none is giving it up.
pub proof fn lemma_tail_none_iff_unused(s: State)
    requires
        s.inv(),
    ensures
        s.tail is None <==> forall|p: usize|
            p < s.nodes.len() ==> !(#[trigger] s.phase(p)).queued(),
{
    reveal(State::inv);
    let q = s.queue();
    if s.tail is None {
        assert forall|p: usize| p < s.nodes.len() implies !(#[trigger] s.phase(p)).queued() by {
            assert(s.placed(p));
        }
    } else {
        assert(q.contains(q[0]));
        assert(s.placed(q[0]));
    }
}

/// First come, first served: the lock is granted in the order of the writes
/// to the tail. The grants made so far are the first of the arrivals, one for
/// one, so nobody is granted the lock before a slot that arrived earlier.
/// All who were granted the lock have left but at most one, and where none is
/// left of them, the first in the queue is the next to be granted it.
pub proof fn lemma_first_come_first_served(s: State)
    requires
        s.inv(),
    ensures
        s.grants.is_prefix_of(s.arrivals),
        s.departures <= s.grants.len() <= s.departures + 1,
        s.queue().len() > 0 && s.grants.len() == s.departures ==> s.queue()[0]
            == s.arrivals[s.grants.len() as int],
{
    reveal(State::inv);
    if s.queue().len() > 0 {
        assert(s.headed(s.queue()[0]));
    }
}

/// First come, first served in every interleaving.
pub proof fn lemma_first_come_first_served_always(slots: nat, moves: Seq<(usize, Move)>)
    ensures
        State::init(slots).after(moves).grants.is_prefix_of(
            State::init(slots).after(moves).arrivals,
        ),
{
    let s = State::init(slots);
    lemma_init_inv(slots);
    lemma_after_inv(s, moves);
    lemma_first_come_first_served(s.after(moves));
}

/// No barging: a move that grants the lock grants it to the slot that made
/// the move, and that slot is the earliest arrival that was not yet granted
/// it.
pub proof fn lemma_next_in_line(s: State, slot: usize, mv: Move)
    requires
        s.inv(),
        s.step(slot, mv).grants != s.grants,
    ensures
        s.step(slot, mv).grants == s.grants.push(slot),
        s.grants.len() < s.step(slot, mv).arrivals.len(),
        s.step(slot, mv).arrivals[s.grants.len() as int] == slot,
{
    let t = s.step(slot, mv);
    lemma_step_inv(s, slot, mv);
    lemma_first_come_first_served(t);
    assert(t.grants == s.grants.push(slot));
    assert(t.grants[s.grants.len() as int] == slot);
}

/// The successor words reflect the order of arrival. Of two slots that
/// stand one behind the other in the queue, the first points to the second,
/// or has no successor yet while the second is about to make itself known to
/// it. The last in the queue has no successor and is the tail.
pub proof fn lemma_links_follow_arrivals(s: State, i: int)
    requires
        s.inv(),
        0 <= i < s.queue().len(),
    ensures
        s.queue()[i] < s.nodes.len(),
        i + 1 < s.queue().len() ==> {
            let a = s.queue()[i];
            let b = s.queue()[i + 1];
            ||| s.nodes[a as int].next == Some(b)
            ||| s.nodes[a as int].next is None && s.phase(b) == (Phase::LockPublish { pred: a })
        },
        i + 1 == s.queue().len() ==> {
            &&& s.nodes[s.queue()[i] as int].next is None
            &&& s.tail == Some(s.queue()[i])
        },
{
    reveal(State::inv);
    let q = s.queue();
    if i + 1 < q.len() {
        assert(s.linked(q[i], q[i + 1]));
    }
}

/// A try on a lock that nobody holds or awaits succeeds: the slot holds the
/// lock and is the tail.
pub proof fn lemma_try_lock_unused(s: State, p: usize)
    requires
        s.inv(),
        p < s.nodes.len(),
        s.phase(p) is Idle,
        s.tail is None,
    ensures
        s.tried(p).phase(p) is Holding,
        s.tried(p).tail == Some(p),
        s.tried(p).queue() == seq![p],
{
    reveal(State::inv);
    let asked = s.ask(p, Request::TryLock);
    lemma_ask_inv(s, p, Request::TryLock);
    let reset = asked.run(p);
    lemma_run_inv(asked, p);
    assert(reset.phase(p) is TryClaim && reset.tail is None);
    lemma_enter_inv(reset, p);
    assert(reset.queue().push(p) =~= seq![p]);
}

/// A try on a lock that somebody holds or awaits fails and leaves the queue
/// as it was: the tail, the logs and every other slot's node are unchanged,
/// and the slot is idle again, with its successor word reset.
pub proof fn lemma_try_lock_in_use(s: State, p: usize)
    requires
        p < s.nodes.len(),
        s.phase(p) is Idle,
        s.tail is Some,
    ensures
        s.tried(p) == s.with_next(p, None),
{
    let reset = s.ask(p, Request::TryLock).run(p);
    assert(reset.nodes =~= s.with_node(
        p,
        Node { next: None, phase: Phase::TryClaim, ..s.nodes[p as int] },
    ).nodes);
    assert(reset.run(p).nodes =~= s.with_next(p, None).nodes);
}

/// The hand-off ends the wait of the successor. Once a slot has cleared its
/// successor's flag it is idle, the successor is the first in the queue, and
/// the next look of the successor at its flag finds it cleared.
pub proof fn lemma_hand_off(s: State, p: usize, succ: usize)
    requires
        s.inv(),
        p < s.nodes.len(),
        s.phase(p) == (Phase::UnlockGrant { succ }),
    ensures
        s.run(p).phase(p) is Idle,
        s.run(p).queue().len() > 0,
        s.run(p).queue()[0] == succ,
        s.run(p).phase(succ) is LockSpin || s.run(p).phase(succ) is LockPause,
        !s.run(p).nodes[succ as int].locked,
        s.run(p).tail == s.tail,
{
    lemma_handed_queue(s, p, succ);
    lemma_handed_run(s, p, succ);
}

/// The wait of a release ends. A slot that gives the lock up and has found
/// the tail moved on has a successor in the queue. Either the successor has
/// made itself known, and the next load finds it, or it is about to, and its
/// next action is the write that the release waits for.
pub proof fn lemma_awaited_successor_is_coming(s: State, p: usize)
    requires
        s.inv(),
        p < s.nodes.len(),
        s.phase(p) is UnlockWait || s.phase(p) is UnlockPause,
    ensures
        s.queue().len() >= 2,
        s.queue()[0] == p,
        ({
            let b = s.queue()[1];
            ||| s.nodes[p as int].next == Some(b)
            ||| {
                &&& s.nodes[p as int].next is None
                &&& s.phase(b) == (Phase::LockPublish { pred: p })
                &&& s.run(b).nodes[p as int].next == Some(b)
            }
        }),
{
    reveal(State::inv);
    let q = s.queue();
    let i = lemma_place(s, p);
    assert(s.headed(p));
    assert(s.linked(q[0], q[0int + 1]));
}

/// A slot that gives the lock up with nobody behind it leaves the lock
/// unused: the tail is none and the queue is empty.
pub proof fn lemma_last_one_out(s: State, p: usize)
    requires
        s.inv(),
        p < s.nodes.len(),
        s.phase(p) is UnlockClear,
        s.tail == Some(p),
    ensures
        s.run(p).phase(p) is Idle,
        s.run(p).tail is None,
        s.run(p).queue().len() == 0,
{
    lemma_clear_inv(s, p);
}

/// A used slot is as good as a new one. Let two states differ only in words
/// that are stale, such as the successor word and the flag that an idle slot
/// keeps from its last turn: then the same move leads both to states that
/// again differ only in stale words. So a slot behaves in its second turn as
/// a slot that was never used.
pub proof fn lemma_stale_words_do_not_matter(s: State, t: State, slot: usize, mv: Move)
    requires
        s.inv(),
        s.differs_in_stale_words(t),
    ensures
        s.step(slot, mv).differs_in_stale_words(t.step(slot, mv)),
{
    let s2 = s.step(slot, mv);
    let t2 = t.step(slot, mv);
    if slot < s.nodes.len() {
        assert(s.agrees_on(t, slot));
        if mv is Run {
            match s.phase(slot) {
                Phase::LockPublish { pred } => {
                    lemma_publish_pred(s, slot, pred);
                    assert(s.agrees_on(t, pred));
                },
                Phase::UnlockGrant { succ } => {
                    lemma_handed_queue(s, slot, succ);
                    assert(s.agrees_on(t, succ));
                },
                _ => {},
            }
        }
        assert forall|p: usize| p < s2.nodes.len() implies #[trigger] s2.agrees_on(t2, p) by {
            assert(s.agrees_on(t, p));
        }
    }
}

} // verus!
