use mcs::protocol::{Action, MemoryOrder, Outcome, Phase, Request};

#[test]
fn requests_are_permitted_where_the_slot_rests() {
    assert_eq!(Phase::Idle.begin(Request::TryLock), Some(Phase::TryReset));
    assert_eq!(Phase::Idle.begin(Request::Lock), Some(Phase::LockReset));
    assert_eq!(Phase::Holding.begin(Request::Unlock), Some(Phase::UnlockLoad));
    assert_eq!(Phase::Idle.begin(Request::Unlock), None);
    assert_eq!(Phase::Holding.begin(Request::Lock), None);
    assert_eq!(Phase::Holding.begin(Request::TryLock), None);
    assert_eq!(Phase::LockSpin.begin(Request::Lock), None);
    assert!(Phase::Idle.permits(Request::Lock));
    assert!(!Phase::UnlockWait.permits(Request::Unlock));
}

#[test]
fn each_phase_names_its_action() {
    assert_eq!(Phase::Idle.action(), None);
    assert_eq!(Phase::Holding.action(), None);
    assert_eq!(Phase::TryReset.action(), Some(Action::ResetSuccessor));
    assert_eq!(Phase::TryClaim.action(), Some(Action::ClaimTail));
    assert_eq!(Phase::LockReset.action(), Some(Action::ResetSuccessor));
    assert_eq!(Phase::LockSwap.action(), Some(Action::SwapTail));
    assert_eq!(Phase::LockPublish { pred: 3 }.action(), Some(Action::Publish { pred: 3 }));
    assert_eq!(Phase::LockSpin.action(), Some(Action::PollFlag));
    assert_eq!(Phase::LockPause.action(), Some(Action::Pause));
    assert_eq!(Phase::LockFence.action(), Some(Action::AcquireFence));
    assert_eq!(Phase::UnlockLoad.action(), Some(Action::LoadSuccessor));
    assert_eq!(Phase::UnlockClear.action(), Some(Action::ClearTail));
    assert_eq!(Phase::UnlockWait.action(), Some(Action::LoadSuccessor));
    assert_eq!(Phase::UnlockPause.action(), Some(Action::Pause));
    assert_eq!(Phase::UnlockFence { succ: 2 }.action(), Some(Action::ReleaseFence));
    assert_eq!(Phase::UnlockGrant { succ: 2 }.action(), Some(Action::Grant { succ: 2 }));
}

#[test]
fn a_try_claims_the_tail_or_gives_up() {
    assert_eq!(Phase::TryReset.advance(Outcome::Done), Some(Phase::TryClaim));
    assert_eq!(Phase::TryClaim.advance(Outcome::Exchanged { won: true }), Some(Phase::Holding));
    assert_eq!(Phase::TryClaim.advance(Outcome::Exchanged { won: false }), Some(Phase::Idle));
}

#[test]
fn a_lock_without_predecessor_holds_at_once() {
    assert_eq!(Phase::LockReset.advance(Outcome::Done), Some(Phase::LockSwap));
    assert_eq!(Phase::LockSwap.advance(Outcome::Swapped { pred: None }), Some(Phase::Holding));
}

#[test]
fn a_lock_with_predecessor_publishes_spins_and_fences() {
    assert_eq!(
        Phase::LockSwap.advance(Outcome::Swapped { pred: Some(4) }),
        Some(Phase::LockPublish { pred: 4 })
    );
    assert_eq!(Phase::LockPublish { pred: 4 }.advance(Outcome::Done), Some(Phase::LockSpin));
    assert_eq!(Phase::LockSpin.advance(Outcome::Flag { locked: true }), Some(Phase::LockPause));
    assert_eq!(Phase::LockPause.advance(Outcome::Done), Some(Phase::LockSpin));
    assert_eq!(Phase::LockSpin.advance(Outcome::Flag { locked: false }), Some(Phase::LockFence));
    assert_eq!(Phase::LockFence.advance(Outcome::Done), Some(Phase::Holding));
}

#[test]
fn an_unlock_without_successor_clears_the_tail() {
    assert_eq!(
        Phase::UnlockLoad.advance(Outcome::Successor { succ: None }),
        Some(Phase::UnlockClear)
    );
    assert_eq!(Phase::UnlockClear.advance(Outcome::Exchanged { won: true }), Some(Phase::Idle));
}

#[test]
fn an_unlock_behind_a_moved_tail_waits_for_its_successor() {
    assert_eq!(
        Phase::UnlockClear.advance(Outcome::Exchanged { won: false }),
        Some(Phase::UnlockWait)
    );
    assert_eq!(
        Phase::UnlockWait.advance(Outcome::Successor { succ: None }),
        Some(Phase::UnlockPause)
    );
    assert_eq!(Phase::UnlockPause.advance(Outcome::Done), Some(Phase::UnlockWait));
    assert_eq!(
        Phase::UnlockWait.advance(Outcome::Successor { succ: Some(1) }),
        Some(Phase::UnlockFence { succ: 1 })
    );
}

#[test]
fn an_unlock_with_successor_fences_and_grants() {
    assert_eq!(
        Phase::UnlockLoad.advance(Outcome::Successor { succ: Some(5) }),
        Some(Phase::UnlockFence { succ: 5 })
    );
    assert_eq!(
        Phase::UnlockFence { succ: 5 }.advance(Outcome::Done),
        Some(Phase::UnlockGrant { succ: 5 })
    );
    assert_eq!(Phase::UnlockGrant { succ: 5 }.advance(Outcome::Done), Some(Phase::Idle));
}

#[test]
fn an_outcome_of_the_wrong_kind_is_refused() {
    assert_eq!(Phase::Idle.advance(Outcome::Done), None);
    assert_eq!(Phase::Holding.advance(Outcome::Done), None);
    assert_eq!(Phase::TryClaim.advance(Outcome::Done), None);
    assert_eq!(Phase::LockSwap.advance(Outcome::Exchanged { won: true }), None);
    assert_eq!(Phase::LockSpin.advance(Outcome::Successor { succ: None }), None);
    assert_eq!(Phase::UnlockLoad.advance(Outcome::Flag { locked: false }), None);
    assert_eq!(Phase::UnlockGrant { succ: 0 }.advance(Outcome::Swapped { pred: None }), None);
    assert!(Action::SwapTail.yields(Outcome::Swapped { pred: None }));
    assert!(Action::ClaimTail.yields(Outcome::Exchanged { won: false }));
    assert!(Action::ClearTail.yields(Outcome::Exchanged { won: true }));
    assert!(Action::PollFlag.yields(Outcome::Flag { locked: true }));
    assert!(Action::LoadSuccessor.yields(Outcome::Successor { succ: Some(1) }));
    assert!(Action::Pause.yields(Outcome::Done));
    assert!(!Action::Pause.yields(Outcome::Flag { locked: true }));
    assert!(!Action::SwapTail.yields(Outcome::Done));
}

#[test]
fn each_access_has_its_order() {
    assert_eq!(Action::SwapTail.order(), Some(MemoryOrder::AcquireRelease));
    assert_eq!(Action::Publish { pred: 0 }.order(), Some(MemoryOrder::Release));
    assert_eq!(Action::PollFlag.order(), Some(MemoryOrder::Relaxed));
    assert_eq!(Action::AcquireFence.order(), Some(MemoryOrder::Acquire));
    assert_eq!(Action::ClearTail.order(), Some(MemoryOrder::Release));
    assert_eq!(Action::ReleaseFence.order(), Some(MemoryOrder::Release));
    assert_eq!(Action::Grant { succ: 0 }.order(), Some(MemoryOrder::Release));
    assert_eq!(Action::ClaimTail.order(), Some(MemoryOrder::Acquire));
    assert_eq!(Action::LoadSuccessor.order(), Some(MemoryOrder::Relaxed));
    assert_eq!(Action::ResetSuccessor.order(), Some(MemoryOrder::Relaxed));
    assert_eq!(Action::Pause.order(), None);
}

#[test]
fn a_conditional_write_that_fails_is_relaxed() {
    assert_eq!(Action::ClaimTail.order_on_failure(), Some(MemoryOrder::Relaxed));
    assert_eq!(Action::ClearTail.order_on_failure(), Some(MemoryOrder::Relaxed));
    assert_eq!(Action::SwapTail.order_on_failure(), None);
    assert_eq!(Action::PollFlag.order_on_failure(), None);
    assert_eq!(Action::Grant { succ: 1 }.order_on_failure(), None);
}
