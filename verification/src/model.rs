//! The queue memory that any number of slots share, and what holds of it in
//! every interleaving of their accesses.
//!
//! A state holds the lock's tail word and, for each slot, its successor word,
//! its flag and the phase of its party. One step is one request of a slot's
//! owner or one action of a slot's party, performed as a whole. Three logs
//! record what happened: which slots entered the queue, which were granted
//! the lock, and how many have left.
use vstd::prelude::*;
use crate::protocol::{Action, Outcome, Phase, Request};

verus! {

/// What the memory holds for one slot.
#[derive(Clone, Copy, Debug, PartialEq, Eq, Structural)]
pub struct Node {
    /// The successor word: the slot whose flag is to be cleared on release.
    pub next: Option<usize>,
    /// The flag of the slot's party: `true` while it must wait.
    pub locked: bool,
    /// Where the slot's party stands.
    pub phase: Phase,
}

/// The memory and the logs.
pub struct State {
    /// The tail word: the slot that entered the queue last, if any is in it.
    pub tail: Option<usize>,
    /// One node per slot.
    pub nodes: Seq<Node>,
    /// The slots that entered the queue, in the order of their writes to the
    /// tail.
    pub arrivals: Seq<usize>,
    /// The slots that were granted the lock, in the order of the grants.
    pub grants: Seq<usize>,
    /// How many slots have left the queue.
    pub departures: nat,
}

/// What one move of the scheduler lets a slot do.
#[derive(Clone, Copy, Debug, PartialEq, Eq, Structural)]
pub enum Move {
    /// The slot's owner makes a request.
    Ask(Request),
    /// The slot's party performs its next action.
    Run,
}

impl Phase {
    /// Whether a slot in this phase is in the queue.
    pub open spec fn queued(self) -> bool {
        !(self is Idle || self is TryReset || self is TryClaim || self is LockReset
            || self is LockSwap)
    }

    /// Whether a slot in this phase has been granted the lock and has not
    /// left the queue.
    pub open spec fn granted(self) -> bool {
        self is Holding || self.leaving()
    }

    /// Whether the successor word of a slot in this phase is in use: the
    /// slot has reset it and has not left the queue.
    pub open spec fn reads_successor(self) -> bool {
        !(self is Idle || self is TryReset || self is LockReset)
    }

    /// Whether the flag of a slot in this phase is in use: the slot has
    /// armed it and has not seen it cleared.
    pub open spec fn reads_flag(self) -> bool {
        self is LockSpin || self is LockPause
    }

    /// Whether a slot in this phase is giving the lock up.
    pub open spec fn leaving(self) -> bool {
        self is UnlockLoad || self is UnlockClear || self is UnlockWait || self is UnlockPause
            || self is UnlockFence || self is UnlockGrant
    }
}

impl State {
    /// The state in which `slots` slots are idle and nothing has happened.
    pub open spec fn init(slots: nat) -> State {
        State {
            tail: None,
            nodes: Seq::new(slots, |i: int| Node { next: None, locked: false, phase: Phase::Idle }),
            arrivals: Seq::empty(),
            grants: Seq::empty(),
            departures: 0,
        }
    }

    /// The slots that are in the queue, first come first.
    pub open spec fn queue(self) -> Seq<usize> {
        self.arrivals.skip(self.departures as int)
    }

    /// The phase of `slot`.
    pub open spec fn phase(self, slot: usize) -> Phase {
        self.nodes[slot as int].phase
    }

    /// This state with the node of `slot` replaced.
    pub open spec fn with_node(self, slot: usize, node: Node) -> State {
        State { nodes: self.nodes.update(slot as int, node), ..self }
    }

    /// This state with `slot` in another phase.
    pub open spec fn with_phase(self, slot: usize, phase: Phase) -> State {
        self.with_node(slot, Node { phase, ..self.nodes[slot as int] })
    }

    /// This state with another successor word for `slot`.
    pub open spec fn with_next(self, slot: usize, next: Option<usize>) -> State {
        self.with_node(slot, Node { next, ..self.nodes[slot as int] })
    }

    /// This state with another flag for `slot`.
    pub open spec fn with_locked(self, slot: usize, locked: bool) -> State {
        self.with_node(slot, Node { locked, ..self.nodes[slot as int] })
    }

    /// What `action`, performed for `slot`, leaves in the memory and returns.
    pub open spec fn perform(self, slot: usize, action: Action) -> (State, Outcome) {
        match action {
            Action::ResetSuccessor => (self.with_next(slot, None), Outcome::Done),
            Action::ClaimTail => if self.tail is None {
                (State { tail: Some(slot), ..self }, Outcome::Exchanged { won: true })
            } else {
                (self, Outcome::Exchanged { won: false })
            },
            Action::SwapTail => (
                State { tail: Some(slot), ..self },
                Outcome::Swapped { pred: self.tail },
            ),
            Action::Publish { pred } => (
                self.with_locked(slot, true).with_next(pred, Some(slot)),
                Outcome::Done,
            ),
            Action::PollFlag => (self, Outcome::Flag { locked: self.nodes[slot as int].locked }),
            Action::Pause | Action::AcquireFence | Action::ReleaseFence => (self, Outcome::Done),
            Action::LoadSuccessor => (
                self,
                Outcome::Successor { succ: self.nodes[slot as int].next },
            ),
            Action::ClearTail => if self.tail == Some(slot) {
                (State { tail: None, ..self }, Outcome::Exchanged { won: true })
            } else {
                (self, Outcome::Exchanged { won: false })
            },
            Action::Grant { succ } => (self.with_locked(succ, false), Outcome::Done),
        }
    }

    /// The logs once `slot` has gone from phase `from` to phase `to` by
    /// `action`.
    pub open spec fn record(self, slot: usize, from: Phase, action: Action, to: Phase) -> State {
        State {
            arrivals: if action is SwapTail || (action is ClaimTail && to is Holding) {
                self.arrivals.push(slot)
            } else {
                self.arrivals
            },
            grants: if to is Holding {
                self.grants.push(slot)
            } else {
                self.grants
            },
            departures: if from.leaving() && to is Idle {
                self.departures + 1
            } else {
                self.departures
            },
            ..self
        }
    }

    /// The state once the party of `slot` has performed its next action.
    pub open spec fn run(self, slot: usize) -> State {
        let from = self.phase(slot);
        match from.spec_action() {
            None => self,
            Some(action) => {
                let (memory, outcome) = self.perform(slot, action);
                let to = from.after(outcome);
                memory.with_phase(slot, to).record(slot, from, action, to)
            },
        }
    }

    /// The state once the owner of `slot` has made `request`.
    pub open spec fn ask(self, slot: usize, request: Request) -> State {
        if self.phase(slot).spec_permits(request) {
            self.with_phase(slot, Phase::first(request))
        } else {
            self
        }
    }

    /// The state after one move of `slot`. A move that the slot's phase does
    /// not allow changes nothing.
    pub open spec fn step(self, slot: usize, mv: Move) -> State {
        if slot < self.nodes.len() {
            match mv {
                Move::Ask(request) => self.ask(slot, request),
                Move::Run => self.run(slot),
            }
        } else {
            self
        }
    }

    /// Whether `b` stands in the queue right behind `a` as it should: either
    /// `a` does not know of `b` yet, or `a` points to `b` and `b` waits.
    pub open spec fn linked(self, a: usize, b: usize) -> bool {
        match self.phase(b) {
            Phase::LockPublish { pred } => pred == a && self.nodes[a as int].next is None,
            Phase::LockSpin | Phase::LockPause => self.nodes[b as int].locked
                && self.nodes[a as int].next == Some(b),
            _ => false,
        }
    }

    /// Whether `h` stands at the head of the queue as it should.
    pub open spec fn headed(self, h: usize) -> bool {
        let waiters = self.queue().len() >= 2;
        match self.phase(h) {
            Phase::LockSpin | Phase::LockPause => !self.nodes[h as int].locked
                && self.grants.len() == self.departures,
            Phase::LockFence => self.grants.len() == self.departures,
            Phase::Holding | Phase::UnlockLoad | Phase::UnlockClear => self.grants.len()
                == self.departures + 1,
            Phase::UnlockWait | Phase::UnlockPause => self.grants.len() == self.departures + 1
                && waiters,
            Phase::UnlockFence { succ } | Phase::UnlockGrant { succ } => self.grants.len()
                == self.departures + 1 && waiters && self.nodes[h as int].next == Some(succ),
            _ => false,
        }
    }

    /// The state after `moves`, each a slot and what it is let to do, made
    /// one after the other.
    pub open spec fn after(self, moves: Seq<(usize, Move)>) -> State
        decreases moves.len(),
    {
        if moves.len() == 0 {
            self
        } else {
            self.after(moves.drop_last()).step(moves.last().0, moves.last().1)
        }
    }

    /// The state after the owner of `slot` has asked for the lock by a try
    /// and the slot's party has made both its accesses, with no move of
    /// another slot in between.
    pub open spec fn tried(self, slot: usize) -> State {
        self.ask(slot, Request::TryLock).run(slot).run(slot)
    }

    /// Whether `other` holds for `p` what this state holds, but for words
    /// that the party of `p` will not read before it has written them: the
    /// successor word where it has not reset it yet, and the flag where it
    /// has not armed it yet.
    pub open spec fn agrees_on(self, other: State, p: usize) -> bool {
        let a = self.nodes[p as int];
        let b = other.nodes[p as int];
        &&& a.phase == b.phase
        &&& a.phase.reads_successor() ==> a.next == b.next
        &&& a.phase.reads_flag() ==> a.locked == b.locked
    }

    /// Whether `other` differs from this state at most in stale words.
    pub open spec fn differs_in_stale_words(self, other: State) -> bool {
        &&& self.tail == other.tail
        &&& self.arrivals == other.arrivals
        &&& self.grants == other.grants
        &&& self.departures == other.departures
        &&& self.nodes.len() == other.nodes.len()
        &&& forall|p: usize| p < self.nodes.len() ==> #[trigger] self.agrees_on(other, p)
    }

    /// The logs agree: nobody has left who did not arrive, and the grants
    /// went to the arrivals in their order.
    pub open spec fn logs_agree(self) -> bool {
        &&& self.departures <= self.arrivals.len()
        &&& self.grants.len() <= self.arrivals.len()
        &&& self.grants == self.arrivals.take(self.grants.len() as int)
    }

    /// The queue holds slots of this memory, none of them twice, and the tail
    /// is the last of them.
    pub open spec fn tail_agrees(self) -> bool {
        let q = self.queue();
        &&& q.no_duplicates()
        &&& forall|i: int| 0 <= i < q.len() ==> (#[trigger] q[i]) < self.nodes.len()
        &&& self.tail == if q.len() == 0 {
            None
        } else {
            Some(q.last())
        }
    }

    /// Whether the phase of `p` fits its place: `p` is in the queue exactly
    /// when its phase says so, and where it is about to enter, its successor
    /// word is none.
    pub open spec fn placed(self, p: usize) -> bool {
        &&& self.phase(p).queued() <==> self.queue().contains(p)
        &&& self.phase(p) is TryClaim || self.phase(p) is LockSwap
            ==> self.nodes[p as int].next is None
    }

    /// The phase of every slot fits its place.
    pub open spec fn phases_agree(self) -> bool {
        forall|p: usize| p < self.nodes.len() ==> #[trigger] self.placed(p)
    }

    /// The successor words link the queue: each slot but the first stands
    /// behind its predecessor as it should, the first is the one that holds
    /// the lock or is about to, and the last has no successor.
    pub open spec fn links_agree(self) -> bool {
        let q = self.queue();
        &&& q.len() > 0 ==> self.nodes[q.last() as int].next is None
        &&& forall|i: int| 0 <= i && i + 1 < q.len() ==> self.linked(#[trigger] q[i], q[i + 1])
        &&& q.len() > 0 ==> self.headed(q[0])
        &&& q.len() == 0 ==> self.grants.len() == self.departures
    }

    /// What holds of every state that the moves lead to.
    #[verifier::opaque]
    pub open spec fn inv(self) -> bool {
        &&& self.logs_agree()
        &&& self.tail_agrees()
        &&& self.phases_agree()
        &&& self.links_agree()
    }
}

} // verus!
