//! A counter behind the lock.
//!
//! Each party that holds the lock may increment a shared counter in two
//! accesses, a load and a store, with any moves of other parties between
//! them. Without the lock such increments get lost. Behind it none does: in
//! every interleaving the counter is the number of increments made.
use vstd::prelude::*;
use crate::inductive::{lemma_init_inv, lemma_step_inv, lemma_step_keeps_others};
use crate::laws::lemma_mutual_exclusion;
use crate::model::{Move, State};
use crate::protocol::Request;

verus! {

/// The queue memory, the counter, and what each party has loaded and not yet
/// stored.
pub struct Counted {
    pub queue: State,
    /// The counter.
    pub payload: int,
    /// For each slot, the value that its party has loaded from the counter
    /// and is about to store back, incremented.
    pub loaded: Seq<Option<int>>,
    /// How many increments were made.
    pub increments: nat,
}

/// What one turn lets a slot do.
pub enum Turn {
    /// A move in the queue. The owner of a slot does not ask to give the
    /// lock up between its load and its store.
    Queue(Move),
    /// The holder loads the counter.
    Load,
    /// The holder stores what it loaded, plus one.
    Store,
}

impl Counted {
    /// Idle slots and a counter of zero.
    pub open spec fn init(slots: nat) -> Counted {
        Counted {
            queue: State::init(slots),
            payload: 0,
            loaded: Seq::new(slots, |i: int| None),
            increments: 0,
        }
    }

    /// The state after one turn of `slot`. A turn that is not the slot's to
    /// take changes nothing.
    pub open spec fn step(self, slot: usize, turn: Turn) -> Counted {
        if slot >= self.queue.nodes.len() {
            self
        } else {
            let holds = self.queue.phase(slot) is Holding;
            match (turn, self.loaded[slot as int]) {
                (Turn::Queue(mv), loaded) => if mv == Move::Ask(Request::Unlock) && loaded is Some {
                    self
                } else {
                    Counted { queue: self.queue.step(slot, mv), ..self }
                },
                (Turn::Load, None) if holds => Counted {
                    loaded: self.loaded.update(slot as int, Some(self.payload)),
                    ..self
                },
                (Turn::Store, Some(value)) if holds => Counted {
                    payload: value + 1,
                    loaded: self.loaded.update(slot as int, None),
                    increments: self.increments + 1,
                    ..self
                },
                _ => self,
            }
        }
    }

    /// The state after `turns`, each a slot and what it is let to do, taken
    /// one after the other.
    pub open spec fn after(self, turns: Seq<(usize, Turn)>) -> Counted
        decreases turns.len(),
    {
        if turns.len() == 0 {
            self
        } else {
            self.after(turns.drop_last()).step(turns.last().0, turns.last().1)
        }
    }

    /// Whether `p` has loaded nothing, or holds the lock and has loaded what
    /// the counter still is.
    pub open spec fn up_to_date(self, p: usize) -> bool {
        match self.loaded[p as int] {
            Some(value) => self.queue.phase(p) is Holding && value == self.payload,
            None => true,
        }
    }

    /// What holds of every state that the turns lead to: the counter is the
    /// number of increments, and what a party has loaded is up to date.
    pub open spec fn inv(self) -> bool {
        &&& self.queue.inv()
        &&& self.loaded.len() == self.queue.nodes.len()
        &&& self.payload == self.increments
        &&& forall|p: usize| p < self.loaded.len() ==> #[trigger] self.up_to_date(p)
    }
}

/// A turn keeps the invariant. A store keeps it because the party that
/// stores is the only one that holds the lock, so nobody else has loaded
/// what it overwrites.
pub proof fn lemma_turn_inv(s: Counted, slot: usize, turn: Turn)
    requires
        s.inv(),
    ensures
        s.step(slot, turn).inv(),
{
    let t = s.step(slot, turn);
    if slot < s.queue.nodes.len() {
        assert(s.up_to_date(slot));
        if let Turn::Queue(mv) = turn {
            lemma_step_inv(s.queue, slot, mv);
            lemma_step_keeps_others(s.queue, slot, mv);
        }
        assert forall|p: usize| p < t.loaded.len() implies #[trigger] t.up_to_date(p) by {
            assert(s.up_to_date(p));
            if turn is Store && s.loaded[p as int] is Some && s.loaded[slot as int] is Some {
                lemma_mutual_exclusion(s.queue, p, slot);
            }
        }
    }
}

/// Whatever turns are taken, the invariant holds of the state that they lead
/// to.
pub proof fn lemma_turns_inv(s: Counted, turns: Seq<(usize, Turn)>)
    requires
        s.inv(),
    ensures
        s.after(turns).inv(),
    decreases turns.len(),
{
    if turns.len() > 0 {
        lemma_turns_inv(s, turns.drop_last());
        lemma_turn_inv(s.after(turns.drop_last()), turns.last().0, turns.last().1);
    }
}

/// No increment is lost. Start with any number of idle slots and a counter
/// of zero, and let the parties take any turns in any order: the counter is
/// then the number of increments that were made. Where each of `n` parties
/// has made a thousand, it is a thousand times `n`.
pub proof fn lemma_no_increment_is_lost(slots: nat, turns: Seq<(usize, Turn)>)
    ensures
        Counted::init(slots).after(turns).payload == Counted::init(slots).after(turns).increments,
{
    lemma_init_inv(slots);
    lemma_turns_inv(Counted::init(slots), turns);
}

} // verus!
