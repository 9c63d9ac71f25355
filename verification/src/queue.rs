//! The queue memory as a value that its owner advances one move at a time.
//!
//! A [`Queue`] holds the tail and the nodes of a fixed number of slots. Its
//! owner plays the scheduler: it picks a slot and lets the slot's owner make a
//! request, or the slot's party perform its next action. Every state that a
//! `Queue` can be in satisfies the invariant of the model, so no sequence of
//! calls leads to two holders.
use vstd::prelude::*;
use crate::inductive::{
    lemma_handed_queue, lemma_init_inv, lemma_member, lemma_publish_pred, lemma_step_inv,
};
use crate::laws::lemma_mutual_exclusion;
use crate::model::{Move, Node, State};
use crate::pause::pause;
use crate::progress::{leads, lemma_first_leads, lemma_second_follows};
use crate::protocol::{Action, Outcome, Phase, Request};

verus! {

/// What happened so far: the logs of the model.
struct Log {
    arrivals: Seq<usize>,
    grants: Seq<usize>,
    departures: nat,
}

/// The tail, the nodes and the logs, without the promise that they fit
/// together.
struct Memory {
    tail: Option<usize>,
    nodes: Vec<Node>,
    log: Ghost<Log>,
}

impl Memory {
    spec fn state(&self) -> State {
        State {
            tail: self.tail,
            nodes: self.nodes@,
            arrivals: self.log@.arrivals,
            grants: self.log@.grants,
            departures: self.log@.departures,
        }
    }

    /// Performs `action` for `slot` on the tail and the nodes.
    fn perform(&mut self, slot: usize, action: Action) -> (outcome: Outcome)
        requires
            old(self).state().inv(),
            slot < old(self).nodes.len(),
            old(self).state().phase(slot).spec_action() == Some(action),
        ensures
            (final(self).state(), outcome) == old(self).state().perform(slot, action),
            final(self).nodes.len() == old(self).nodes.len(),
            action.spec_yields(outcome),
        no_unwind
    {
        let node = self.nodes[slot];
        match action {
            Action::ResetSuccessor => {
                self.nodes[slot] = Node { next: None, ..node };
                Outcome::Done
            },
            Action::ClaimTail => {
                match self.tail {
                    None => {
                        self.tail = Some(slot);
                        Outcome::Exchanged { won: true }
                    },
                    Some(_) => Outcome::Exchanged { won: false },
                }
            },
            Action::SwapTail => {
                let pred = self.tail;
                self.tail = Some(slot);
                Outcome::Swapped { pred }
            },
            Action::Publish { pred } => {
                proof {
                    lemma_publish_pred(old(self).state(), slot, pred);
                }
                self.nodes[slot] = Node { locked: true, ..node };
                let before = self.nodes[pred];
                self.nodes[pred] = Node { next: Some(slot), ..before };
                Outcome::Done
            },
            Action::PollFlag => Outcome::Flag { locked: node.locked },
            Action::Pause => {
                pause();
                Outcome::Done
            },
            Action::AcquireFence | Action::ReleaseFence => Outcome::Done,
            Action::LoadSuccessor => Outcome::Successor { succ: node.next },
            Action::ClearTail => {
                if self.tail == Some(slot) {
                    self.tail = None;
                    Outcome::Exchanged { won: true }
                } else {
                    Outcome::Exchanged { won: false }
                }
            },
            Action::Grant { succ } => {
                proof {
                    lemma_handed_queue(old(self).state(), slot, succ);
                }
                let before = self.nodes[succ];
                self.nodes[succ] = Node { locked: false, ..before };
                Outcome::Done
            },
        }
    }

    fn run(&mut self, slot: usize) -> (action: Option<Action>)
        requires
            old(self).state().inv(),
            slot < old(self).nodes.len(),
        ensures
            final(self).state() == old(self).state().run(slot),
            final(self).state().inv(),
            action == old(self).state().phase(slot).spec_action(),
        no_unwind
    {
        let from = self.nodes[slot].phase;
        let action = from.action();
        if let Some(action) = action {
            let outcome = self.perform(slot, action);
            let to = match from.advance(outcome) {
                Some(to) => to,
                None => from,
            };
            let node = self.nodes[slot];
            self.nodes[slot] = Node { phase: to, ..node };
            proof {
                let ghost before = old(self).state();
                let ghost after = before.run(slot);
                self.log = Ghost(
                    Log {
                        arrivals: after.arrivals,
                        grants: after.grants,
                        departures: after.departures,
                    },
                );
                lemma_step_inv(before, slot, Move::Run);
            }
        }
        action
    }

    fn ask(&mut self, slot: usize, request: Request) -> (asked: bool)
        requires
            old(self).state().inv(),
            slot < old(self).nodes.len(),
        ensures
            final(self).state() == old(self).state().ask(slot, request),
            final(self).state().inv(),
            asked == old(self).state().phase(slot).spec_permits(request),
        no_unwind
    {
        let node = self.nodes[slot];
        match node.phase.begin(request) {
            Some(phase) => {
                self.nodes[slot] = Node { phase, ..node };
                proof {
                    lemma_step_inv(old(self).state(), slot, Move::Ask(request));
                }
                true
            },
            None => false,
        }
    }
}

/// The tail and the nodes of a fixed number of slots.
pub struct Queue {
    memory: Memory,
}

impl View for Queue {
    type V = State;

    closed spec fn view(&self) -> State {
        self.memory.state()
    }
}

impl Queue {
    #[verifier::type_invariant]
    spec fn valid(self) -> bool {
        self.memory.state().inv()
    }

    /// A queue of `slots` idle slots, with nobody in it.
    pub fn new(slots: usize) -> (queue: Queue)
        ensures
            queue@ == State::init(slots as nat),
            queue@.inv(),
    {
        let mut nodes: Vec<Node> = Vec::new();
        let mut i: usize = 0;
        while i < slots
            invariant
                i <= slots,
                nodes@ == Seq::new(
                    i as nat,
                    |k: int| Node { next: None, locked: false, phase: Phase::Idle },
                ),
            decreases slots - i,
        {
            nodes.push(Node { next: None, locked: false, phase: Phase::Idle });
            i += 1;
        }
        let log = Ghost(Log { arrivals: Seq::empty(), grants: Seq::empty(), departures: 0 });
        let memory = Memory { tail: None, nodes, log };
        proof {
            lemma_init_inv(slots as nat);
        }
        Queue { memory }
    }

    /// How many slots there are.
    pub fn slots(&self) -> (slots: usize)
        ensures
            slots == self@.nodes.len(),
            self@.inv(),
        no_unwind
    {
        proof {
            use_type_invariant(self);
        }
        self.memory.nodes.len()
    }

    /// The tail word.
    pub fn tail(&self) -> (tail: Option<usize>)
        ensures
            tail == self@.tail,
            self@.inv(),
        no_unwind
    {
        proof {
            use_type_invariant(self);
        }
        self.memory.tail
    }

    /// What the memory holds for `slot`; none where there is no such slot.
    pub fn node(&self, slot: usize) -> (node: Option<Node>)
        ensures
            node == if slot < self@.nodes.len() {
                Some(self@.nodes[slot as int])
            } else {
                None
            },
            self@.inv(),
        no_unwind
    {
        proof {
            use_type_invariant(self);
        }
        if slot < self.memory.nodes.len() {
            Some(self.memory.nodes[slot])
        } else {
            None
        }
    }

    /// Lets the owner of `slot` make `request`, and says whether the slot's
    /// phase permitted it. Nothing changes where it did not, or where there
    /// is no such slot.
    pub fn ask(&mut self, slot: usize, request: Request) -> (asked: bool)
        ensures
            final(self)@ == old(self)@.step(slot, Move::Ask(request)),
            final(self)@.inv(),
            asked == (slot < old(self)@.nodes.len() && old(self)@.phase(slot).spec_permits(
                request,
            )),
        no_unwind
    {
        proof {
            use_type_invariant(&*self);
        }
        if slot < self.memory.nodes.len() {
            self.memory.ask(slot, request)
        } else {
            false
        }
    }

    /// Lets the party of `slot` perform its next action, and says which it
    /// was. Nothing changes where the slot waits for a request, or where
    /// there is no such slot.
    pub fn run(&mut self, slot: usize) -> (action: Option<Action>)
        ensures
            final(self)@ == old(self)@.step(slot, Move::Run),
            final(self)@.inv(),
            action == if slot < old(self)@.nodes.len() {
                old(self)@.phase(slot).spec_action()
            } else {
                None
            },
        no_unwind
    {
        proof {
            use_type_invariant(&*self);
        }
        if slot < self.memory.nodes.len() {
            self.memory.run(slot)
        } else {
            None
        }
    }

    /// The slot that holds the lock, if any does. There is at most one.
    pub fn holder(&self) -> (holder: Option<usize>)
        ensures
            self@.inv(),
            holder matches Some(slot) ==> slot < self@.nodes.len(),
            forall|p: usize|
                p < self@.nodes.len() ==> (#[trigger] self@.phase(p) is Holding <==> holder
                    == Some(p)),
        no_unwind
    {
        proof {
            use_type_invariant(self);
        }
        let mut i: usize = 0;
        while i < self.memory.nodes.len()
            invariant
                i <= self.memory.nodes.len(),
                self.memory.state().inv(),
                forall|p: usize| p < i ==> !(#[trigger] self.memory.state().phase(p) is Holding),
            decreases self.memory.nodes.len() - i,
        {
            if matches!(self.memory.nodes[i].phase, Phase::Holding) {
                proof {
                    assert forall|p: usize| p < self@.nodes.len() && #[trigger] self@.phase(
                        p,
                    ) is Holding implies p == i by {
                        lemma_mutual_exclusion(self@, p, i);
                    }
                }
                return Some(i);
            }
            i += 1;
        }
        None
    }

    /// The first in the queue, if anybody is in it.
    pub fn first(&self) -> (first: Option<usize>)
        ensures
            self@.inv(),
            first == if self@.queue().len() > 0 {
                Some(self@.queue()[0])
            } else {
                None
            },
        no_unwind
    {
        proof {
            use_type_invariant(self);
        }
        let mut i: usize = 0;
        while i < self.memory.nodes.len()
            invariant
                i <= self.memory.nodes.len(),
                self.memory.state().inv(),
                forall|p: usize| p < i ==> !leads(#[trigger] self.memory.nodes@[p as int]),
            decreases self.memory.nodes.len() - i,
        {
            let node = self.memory.nodes[i];
            let leads = match node.phase {
                Phase::LockSpin | Phase::LockPause => !node.locked,
                Phase::LockFence
                | Phase::Holding
                | Phase::UnlockLoad
                | Phase::UnlockClear
                | Phase::UnlockWait
                | Phase::UnlockPause
                | Phase::UnlockFence { .. }
                | Phase::UnlockGrant { .. } => true,
                _ => false,
            };
            proof {
                lemma_first_leads(self@, i);
            }
            if leads {
                return Some(i);
            }
            i += 1;
        }
        proof {
            if self@.queue().len() > 0 {
                lemma_member(self@, 0);
                lemma_first_leads(self@, self@.queue()[0]);
            }
        }
        None
    }

    /// The move that brings the queue forward, if anybody is in it: the
    /// request to give the lock up where the first in the queue holds it, the
    /// action of the second where the first waits for it to make itself
    /// known, and the action of the first otherwise.
    pub fn helpful(&self) -> (mv: Option<(usize, Move)>)
        ensures
            self@.inv(),
            mv == if self@.queue().len() > 0 {
                Some(self@.helpful())
            } else {
                None
            },
        no_unwind
    {
        let first = match self.first() {
            Some(first) => first,
            None => {
                return None;
            },
        };
        proof {
            lemma_member(self@, 0);
        }
        let node = self.memory.nodes[first];
        match (node.phase, node.next) {
            (Phase::Holding, _) => Some((first, Move::Ask(Request::Unlock))),
            (Phase::UnlockWait, None) | (Phase::UnlockPause, None) => {
                proof {
                    lemma_member(self@, 1);
                }
                let mut i: usize = 0;
                while i < self.memory.nodes.len()
                    invariant
                        i <= self.memory.nodes.len(),
                        self.memory.state().inv(),
                        self@.queue().len() > 1,
                        self@.queue()[0] == first,
                        self@.awaits_successor(),
                        self@.queue()[1] < self.memory.nodes.len(),
                        self@.phase(self@.queue()[1]) == (Phase::LockPublish { pred: first }),
                        i <= self@.queue()[1],
                    decreases self.memory.nodes.len() - i,
                {
                    if let Phase::LockPublish { pred } = self.memory.nodes[i].phase {
                        if pred == first {
                            proof {
                                lemma_second_follows(self@, i);
                            }
                            return Some((i, Move::Run));
                        }
                    }
                    i += 1;
                }
                Some((first, Move::Run))
            },
            _ => Some((first, Move::Run)),
        }
    }
}

} // verus!
