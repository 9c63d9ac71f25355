//! The decisions of one party: which access to the queue memory comes next,
//! and where the party stands once the access has returned.
//!
//! A party is known by its slot. It owns the slot's successor word until it
//! has swapped the slot into the tail; from then on the next arrival may write
//! that word once. Nothing here touches memory: [`Phase::action`] names the
//! access, whoever holds the memory performs it, and [`Phase::advance`] takes
//! what it returned.
use vstd::prelude::*;

verus! {

/// What the owner of a slot may ask for.
#[derive(Clone, Copy, Debug, PartialEq, Eq, Structural)]
pub enum Request {
    /// Take the lock if nobody holds or awaits it; give up otherwise.
    TryLock,
    /// Take the lock, waiting behind whoever came first.
    Lock,
    /// Give the lock up.
    Unlock,
}

/// How an access is ordered against the other accesses of its thread.
#[derive(Clone, Copy, Debug, PartialEq, Eq, Structural)]
pub enum MemoryOrder {
    Relaxed,
    Acquire,
    Release,
    AcquireRelease,
}

/// One access to the queue memory, or one thing done between two accesses.
#[derive(Clone, Copy, Debug, PartialEq, Eq, Structural)]
pub enum Action {
    /// Set the own slot's successor word to none.
    ResetSuccessor,
    /// Set the tail to the own slot if the tail is none.
    ClaimTail,
    /// Set the tail to the own slot and take what it held.
    SwapTail,
    /// Arm the own flag and write it into the successor word of `pred`.
    Publish { pred: usize },
    /// Read the own flag.
    PollFlag,
    /// Invoke the pause strategy.
    Pause,
    /// Keep later accesses from moving before this point.
    AcquireFence,
    /// Read the own slot's successor word.
    LoadSuccessor,
    /// Set the tail to none if it is the own slot.
    ClearTail,
    /// Keep earlier accesses from moving behind this point.
    ReleaseFence,
    /// Clear the flag of `succ`.
    Grant { succ: usize },
}

/// What an access returned.
#[derive(Clone, Copy, Debug, PartialEq, Eq, Structural)]
pub enum Outcome {
    /// The access returns nothing.
    Done,
    /// A conditional write to the tail took place, or did not.
    Exchanged { won: bool },
    /// What the tail held before the swap.
    Swapped { pred: Option<usize> },
    /// What the own flag holds: `true` while the party must wait.
    Flag { locked: bool },
    /// What the own slot's successor word holds.
    Successor { succ: Option<usize> },
}

/// Where a slot stands. Each phase but `Idle` and `Holding` names the one
/// action that its party performs next.
#[derive(Clone, Copy, Debug, PartialEq, Eq, Structural)]
pub enum Phase {
    /// In no attempt; the slot may be moved, dropped or used again.
    Idle,
    /// About to reset the successor word, in a try.
    TryReset,
    /// About to claim the tail.
    TryClaim,
    /// About to reset the successor word, in a blocking attempt.
    LockReset,
    /// About to swap the tail.
    LockSwap,
    /// In the queue behind `pred`, which does not know it yet.
    LockPublish { pred: usize },
    /// About to read the own flag.
    LockSpin,
    /// Has read the flag as locked; about to pause.
    LockPause,
    /// Has read the flag as unlocked; about to fence.
    LockFence,
    /// Holds the lock: the guard exists.
    Holding,
    /// About to read the successor word.
    UnlockLoad,
    /// Found no successor; about to clear the tail.
    UnlockClear,
    /// The tail has moved on; about to read the successor word again.
    UnlockWait,
    /// Found no successor yet; about to pause.
    UnlockPause,
    /// Knows its successor; about to fence.
    UnlockFence { succ: usize },
    /// About to clear the flag of `succ`.
    UnlockGrant { succ: usize },
}

impl Action {
    /// The order that the action is made with; for a conditional write, the
    /// order of a write that takes place; none for the pause, which is no
    /// access.
    pub open spec fn spec_order(self) -> Option<MemoryOrder> {
        match self {
            Action::ResetSuccessor => Some(MemoryOrder::Relaxed),
            Action::ClaimTail => Some(MemoryOrder::Acquire),
            Action::SwapTail => Some(MemoryOrder::AcquireRelease),
            Action::Publish { .. } => Some(MemoryOrder::Release),
            Action::PollFlag => Some(MemoryOrder::Relaxed),
            Action::Pause => None,
            Action::AcquireFence => Some(MemoryOrder::Acquire),
            Action::LoadSuccessor => Some(MemoryOrder::Relaxed),
            Action::ClearTail => Some(MemoryOrder::Release),
            Action::ReleaseFence => Some(MemoryOrder::Release),
            Action::Grant { .. } => Some(MemoryOrder::Release),
        }
    }

    #[verifier::when_used_as_spec(spec_order)]
    pub fn order(self) -> (order: Option<MemoryOrder>)
        ensures
            order == self.spec_order(),
        no_unwind
    {
        match self {
            Action::ResetSuccessor => Some(MemoryOrder::Relaxed),
            Action::ClaimTail => Some(MemoryOrder::Acquire),
            Action::SwapTail => Some(MemoryOrder::AcquireRelease),
            Action::Publish { .. } => Some(MemoryOrder::Release),
            Action::PollFlag => Some(MemoryOrder::Relaxed),
            Action::Pause => None,
            Action::AcquireFence => Some(MemoryOrder::Acquire),
            Action::LoadSuccessor => Some(MemoryOrder::Relaxed),
            Action::ClearTail => Some(MemoryOrder::Release),
            Action::ReleaseFence => Some(MemoryOrder::Release),
            Action::Grant { .. } => Some(MemoryOrder::Release),
        }
    }

    /// The order of a conditional write that does not take place; none for
    /// an action that is no conditional write.
    pub open spec fn spec_order_on_failure(self) -> Option<MemoryOrder> {
        match self {
            Action::ClaimTail | Action::ClearTail => Some(MemoryOrder::Relaxed),
            _ => None,
        }
    }

    #[verifier::when_used_as_spec(spec_order_on_failure)]
    pub fn order_on_failure(self) -> (order: Option<MemoryOrder>)
        ensures
            order == self.spec_order_on_failure(),
        no_unwind
    {
        match self {
            Action::ClaimTail | Action::ClearTail => Some(MemoryOrder::Relaxed),
            _ => None,
        }
    }

    /// Whether `outcome` is of the kind that this action yields.
    pub open spec fn spec_yields(self, outcome: Outcome) -> bool {
        match self {
            Action::ClaimTail | Action::ClearTail => outcome is Exchanged,
            Action::SwapTail => outcome is Swapped,
            Action::PollFlag => outcome is Flag,
            Action::LoadSuccessor => outcome is Successor,
            _ => outcome is Done,
        }
    }

    #[verifier::when_used_as_spec(spec_yields)]
    pub fn yields(self, outcome: Outcome) -> (fits: bool)
        ensures
            fits == self.spec_yields(outcome),
        no_unwind
    {
        match self {
            Action::ClaimTail | Action::ClearTail => matches!(outcome, Outcome::Exchanged { .. }),
            Action::SwapTail => matches!(outcome, Outcome::Swapped { .. }),
            Action::PollFlag => matches!(outcome, Outcome::Flag { .. }),
            Action::LoadSuccessor => matches!(outcome, Outcome::Successor { .. }),
            _ => matches!(outcome, Outcome::Done),
        }
    }
}

impl Phase {
    /// Whether the owner may make `request` of a slot in this phase.
    pub open spec fn spec_permits(self, request: Request) -> bool {
        match request {
            Request::TryLock | Request::Lock => self is Idle,
            Request::Unlock => self is Holding,
        }
    }

    #[verifier::when_used_as_spec(spec_permits)]
    pub fn permits(self, request: Request) -> (ok: bool)
        ensures
            ok == self.spec_permits(request),
        no_unwind
    {
        match request {
            Request::TryLock | Request::Lock => matches!(self, Phase::Idle),
            Request::Unlock => matches!(self, Phase::Holding),
        }
    }

    /// The phase in which a slot starts on `request`.
    pub open spec fn first(request: Request) -> Phase {
        match request {
            Request::TryLock => Phase::TryReset,
            Request::Lock => Phase::LockReset,
            Request::Unlock => Phase::UnlockLoad,
        }
    }

    /// Starts on `request`, if the phase permits it.
    pub fn begin(self, request: Request) -> (next: Option<Phase>)
        ensures
            next == if self.permits(request) {
                Some(Phase::first(request))
            } else {
                None
            },
        no_unwind
    {
        if self.permits(request) {
            Some(
                match request {
                    Request::TryLock => Phase::TryReset,
                    Request::Lock => Phase::LockReset,
                    Request::Unlock => Phase::UnlockLoad,
                },
            )
        } else {
            None
        }
    }

    /// The action that a party in this phase performs next; none where the
    /// party waits for its owner's request.
    pub open spec fn spec_action(self) -> Option<Action> {
        match self {
            Phase::Idle | Phase::Holding => None,
            Phase::TryReset | Phase::LockReset => Some(Action::ResetSuccessor),
            Phase::TryClaim => Some(Action::ClaimTail),
            Phase::LockSwap => Some(Action::SwapTail),
            Phase::LockPublish { pred } => Some(Action::Publish { pred }),
            Phase::LockSpin => Some(Action::PollFlag),
            Phase::LockPause | Phase::UnlockPause => Some(Action::Pause),
            Phase::LockFence => Some(Action::AcquireFence),
            Phase::UnlockLoad | Phase::UnlockWait => Some(Action::LoadSuccessor),
            Phase::UnlockClear => Some(Action::ClearTail),
            Phase::UnlockFence { .. } => Some(Action::ReleaseFence),
            Phase::UnlockGrant { succ } => Some(Action::Grant { succ }),
        }
    }

    #[verifier::when_used_as_spec(spec_action)]
    pub fn action(self) -> (action: Option<Action>)
        ensures
            action == self.spec_action(),
        no_unwind
    {
        match self {
            Phase::Idle | Phase::Holding => None,
            Phase::TryReset | Phase::LockReset => Some(Action::ResetSuccessor),
            Phase::TryClaim => Some(Action::ClaimTail),
            Phase::LockSwap => Some(Action::SwapTail),
            Phase::LockPublish { pred } => Some(Action::Publish { pred }),
            Phase::LockSpin => Some(Action::PollFlag),
            Phase::LockPause | Phase::UnlockPause => Some(Action::Pause),
            Phase::LockFence => Some(Action::AcquireFence),
            Phase::UnlockLoad | Phase::UnlockWait => Some(Action::LoadSuccessor),
            Phase::UnlockClear => Some(Action::ClearTail),
            Phase::UnlockFence { .. } => Some(Action::ReleaseFence),
            Phase::UnlockGrant { succ } => Some(Action::Grant { succ }),
        }
    }

    /// Whether `outcome` is of the kind that this phase's action returns.
    pub open spec fn accepts(self, outcome: Outcome) -> bool {
        match self.spec_action() {
            Some(action) => action.spec_yields(outcome),
            None => false,
        }
    }

    /// The phase that follows once this phase's action has returned
    /// `outcome`. Where the outcome is not of the action's kind, the phase
    /// stays.
    pub open spec fn after(self, outcome: Outcome) -> Phase {
        match (self, outcome) {
            (Phase::TryReset, Outcome::Done) => Phase::TryClaim,
            (Phase::TryClaim, Outcome::Exchanged { won }) => if won {
                Phase::Holding
            } else {
                Phase::Idle
            },
            (Phase::LockReset, Outcome::Done) => Phase::LockSwap,
            (Phase::LockSwap, Outcome::Swapped { pred }) => match pred {
                None => Phase::Holding,
                Some(pred) => Phase::LockPublish { pred },
            },
            (Phase::LockPublish { .. }, Outcome::Done) => Phase::LockSpin,
            (Phase::LockSpin, Outcome::Flag { locked }) => if locked {
                Phase::LockPause
            } else {
                Phase::LockFence
            },
            (Phase::LockPause, Outcome::Done) => Phase::LockSpin,
            (Phase::LockFence, Outcome::Done) => Phase::Holding,
            (Phase::UnlockLoad, Outcome::Successor { succ }) => match succ {
                None => Phase::UnlockClear,
                Some(succ) => Phase::UnlockFence { succ },
            },
            (Phase::UnlockClear, Outcome::Exchanged { won }) => if won {
                Phase::Idle
            } else {
                Phase::UnlockWait
            },
            (Phase::UnlockWait, Outcome::Successor { succ }) => match succ {
                None => Phase::UnlockPause,
                Some(succ) => Phase::UnlockFence { succ },
            },
            (Phase::UnlockPause, Outcome::Done) => Phase::UnlockWait,
            (Phase::UnlockFence { succ }, Outcome::Done) => Phase::UnlockGrant { succ },
            (Phase::UnlockGrant { .. }, Outcome::Done) => Phase::Idle,
            _ => self,
        }
    }

    /// Takes what this phase's action returned and gives the next phase;
    /// none where `outcome` is not of the action's kind.
    pub fn advance(self, outcome: Outcome) -> (next: Option<Phase>)
        ensures
            next == if self.accepts(outcome) {
                Some(self.after(outcome))
            } else {
                None
            },
        no_unwind
    {
        match (self, outcome) {
            (Phase::TryReset, Outcome::Done) => Some(Phase::TryClaim),
            (Phase::TryClaim, Outcome::Exchanged { won }) => Some(
                if won {
                    Phase::Holding
                } else {
                    Phase::Idle
                },
            ),
            (Phase::LockReset, Outcome::Done) => Some(Phase::LockSwap),
            (Phase::LockSwap, Outcome::Swapped { pred }) => Some(
                match pred {
                    None => Phase::Holding,
                    Some(pred) => Phase::LockPublish { pred },
                },
            ),
            (Phase::LockPublish { .. }, Outcome::Done) => Some(Phase::LockSpin),
            (Phase::LockSpin, Outcome::Flag { locked }) => Some(
                if locked {
                    Phase::LockPause
                } else {
                    Phase::LockFence
                },
            ),
            (Phase::LockPause, Outcome::Done) => Some(Phase::LockSpin),
            (Phase::LockFence, Outcome::Done) => Some(Phase::Holding),
            (Phase::UnlockLoad, Outcome::Successor { succ }) => Some(
                match succ {
                    None => Phase::UnlockClear,
                    Some(succ) => Phase::UnlockFence { succ },
                },
            ),
            (Phase::UnlockClear, Outcome::Exchanged { won }) => Some(
                if won {
                    Phase::Idle
                } else {
                    Phase::UnlockWait
                },
            ),
            (Phase::UnlockWait, Outcome::Successor { succ }) => Some(
                match succ {
                    None => Phase::UnlockPause,
                    Some(succ) => Phase::UnlockFence { succ },
                },
            ),
            (Phase::UnlockPause, Outcome::Done) => Some(Phase::UnlockWait),
            (Phase::UnlockFence { succ }, Outcome::Done) => Some(Phase::UnlockGrant { succ }),
            (Phase::UnlockGrant { .. }, Outcome::Done) => Some(Phase::Idle),
            _ => None,
        }
    }
}

} // verus!
