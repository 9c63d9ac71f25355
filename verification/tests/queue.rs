use mcs::model::{Move, Node};
use mcs::protocol::{Action, Phase, Request};
use mcs::queue::Queue;

/// Runs the party of `slot` until it rests or is about to pause.
fn settle(queue: &mut Queue, slot: usize) -> Phase {
    loop {
        let phase = queue.node(slot).unwrap().phase;
        match phase {
            Phase::Idle | Phase::Holding | Phase::LockPause | Phase::UnlockPause => return phase,
            _ => {
                queue.run(slot);
            }
        }
    }
}

fn holders(queue: &Queue) -> usize {
    (0..queue.slots())
        .filter(|&slot| queue.node(slot).unwrap().phase == Phase::Holding)
        .count()
}

#[test]
fn a_new_queue_is_empty() {
    let queue = Queue::new(3);
    assert_eq!(queue.slots(), 3);
    assert_eq!(queue.tail(), None);
    assert_eq!(queue.holder(), None);
    for slot in 0..3 {
        assert_eq!(
            queue.node(slot),
            Some(Node { next: None, locked: false, phase: Phase::Idle })
        );
    }
    assert_eq!(queue.node(3), None);
}

#[test]
fn a_queue_of_no_slots_accepts_no_move() {
    let mut queue = Queue::new(0);
    assert!(!queue.ask(0, Request::Lock));
    assert_eq!(queue.run(0), None);
    assert_eq!(queue.tail(), None);
}

#[test]
fn a_try_on_an_empty_queue_holds_the_lock() {
    let mut queue = Queue::new(2);
    assert!(queue.ask(1, Request::TryLock));
    assert_eq!(queue.run(1), Some(Action::ResetSuccessor));
    assert_eq!(queue.run(1), Some(Action::ClaimTail));
    assert_eq!(queue.node(1).unwrap().phase, Phase::Holding);
    assert_eq!(queue.tail(), Some(1));
    assert_eq!(queue.holder(), Some(1));
    assert_eq!(queue.run(1), None);
}

#[test]
fn a_try_on_a_held_lock_fails_and_leaves_the_queue_as_it_was() {
    let mut queue = Queue::new(2);
    queue.ask(0, Request::TryLock);
    assert_eq!(settle(&mut queue, 0), Phase::Holding);
    let holder = queue.node(0);
    assert!(queue.ask(1, Request::TryLock));
    assert_eq!(settle(&mut queue, 1), Phase::Idle);
    assert_eq!(queue.tail(), Some(0));
    assert_eq!(queue.node(0), holder);
    assert_eq!(queue.node(1), Some(Node { next: None, locked: false, phase: Phase::Idle }));
    assert_eq!(queue.holder(), Some(0));
}

#[test]
fn a_request_that_the_phase_does_not_permit_changes_nothing() {
    let mut queue = Queue::new(1);
    assert!(!queue.ask(0, Request::Unlock));
    assert!(queue.ask(0, Request::Lock));
    assert!(!queue.ask(0, Request::Lock));
    assert!(!queue.ask(0, Request::TryLock));
    assert_eq!(queue.node(0).unwrap().phase, Phase::LockReset);
    assert!(!queue.ask(1, Request::Lock));
}

#[test]
fn an_uncontended_cycle_ends_with_an_empty_queue() {
    let mut queue = Queue::new(1);
    queue.ask(0, Request::Lock);
    assert_eq!(queue.run(0), Some(Action::ResetSuccessor));
    assert_eq!(queue.run(0), Some(Action::SwapTail));
    assert_eq!(queue.node(0).unwrap().phase, Phase::Holding);
    assert_eq!(queue.tail(), Some(0));
    assert!(queue.ask(0, Request::Unlock));
    assert_eq!(queue.run(0), Some(Action::LoadSuccessor));
    assert_eq!(queue.run(0), Some(Action::ClearTail));
    assert_eq!(queue.node(0).unwrap().phase, Phase::Idle);
    assert_eq!(queue.tail(), None);
}

#[test]
fn a_waiter_is_granted_the_lock_by_its_predecessor() {
    let mut queue = Queue::new(2);
    queue.ask(0, Request::Lock);
    assert_eq!(settle(&mut queue, 0), Phase::Holding);
    queue.ask(1, Request::Lock);
    assert_eq!(queue.run(1), Some(Action::ResetSuccessor));
    assert_eq!(queue.run(1), Some(Action::SwapTail));
    assert_eq!(queue.node(1).unwrap().phase, Phase::LockPublish { pred: 0 });
    assert_eq!(queue.tail(), Some(1));
    assert_eq!(queue.run(1), Some(Action::Publish { pred: 0 }));
    assert_eq!(queue.node(0).unwrap().next, Some(1));
    assert!(queue.node(1).unwrap().locked);
    assert_eq!(queue.run(1), Some(Action::PollFlag));
    assert_eq!(queue.node(1).unwrap().phase, Phase::LockPause);
    assert_eq!(queue.run(1), Some(Action::Pause));
    assert_eq!(queue.node(1).unwrap().phase, Phase::LockSpin);
    assert_eq!(queue.holder(), Some(0));

    queue.ask(0, Request::Unlock);
    assert_eq!(queue.run(0), Some(Action::LoadSuccessor));
    assert_eq!(queue.node(0).unwrap().phase, Phase::UnlockFence { succ: 1 });
    assert_eq!(queue.run(0), Some(Action::ReleaseFence));
    assert_eq!(queue.run(0), Some(Action::Grant { succ: 1 }));
    assert_eq!(queue.node(0).unwrap().phase, Phase::Idle);
    assert!(!queue.node(1).unwrap().locked);
    assert_eq!(queue.holder(), None);

    assert_eq!(queue.run(1), Some(Action::PollFlag));
    assert_eq!(queue.run(1), Some(Action::AcquireFence));
    assert_eq!(queue.node(1).unwrap().phase, Phase::Holding);
    assert_eq!(queue.holder(), Some(1));
    assert_eq!(queue.tail(), Some(1));
}

#[test]
fn a_release_waits_for_a_successor_that_has_swapped_but_not_published() {
    let mut queue = Queue::new(2);
    queue.ask(0, Request::Lock);
    settle(&mut queue, 0);
    queue.ask(0, Request::Unlock);
    assert_eq!(queue.run(0), Some(Action::LoadSuccessor));
    assert_eq!(queue.node(0).unwrap().phase, Phase::UnlockClear);
    // The successor arrives between the load and the clearing of the tail.
    queue.ask(1, Request::Lock);
    queue.run(1);
    assert_eq!(queue.run(1), Some(Action::SwapTail));
    assert_eq!(queue.run(0), Some(Action::ClearTail));
    assert_eq!(queue.node(0).unwrap().phase, Phase::UnlockWait);
    assert_eq!(queue.tail(), Some(1));
    assert_eq!(queue.run(0), Some(Action::LoadSuccessor));
    assert_eq!(queue.node(0).unwrap().phase, Phase::UnlockPause);
    assert_eq!(queue.run(0), Some(Action::Pause));
    assert_eq!(queue.run(1), Some(Action::Publish { pred: 0 }));
    assert_eq!(queue.run(0), Some(Action::LoadSuccessor));
    assert_eq!(queue.node(0).unwrap().phase, Phase::UnlockFence { succ: 1 });
    assert_eq!(settle(&mut queue, 0), Phase::Idle);
    assert_eq!(settle(&mut queue, 1), Phase::Holding);
}

#[test]
fn the_lock_is_granted_in_the_order_of_arrival() {
    let mut queue = Queue::new(4);
    queue.ask(2, Request::Lock);
    assert_eq!(settle(&mut queue, 2), Phase::Holding);
    // 3, 0 and 1 swap the tail in this order; they publish in another.
    for slot in [3, 0, 1] {
        queue.ask(slot, Request::Lock);
        queue.run(slot);
        assert_eq!(queue.run(slot), Some(Action::SwapTail));
    }
    for slot in [1, 3, 0] {
        assert_eq!(settle(&mut queue, slot), Phase::LockPause);
    }
    let mut served = vec![2];
    for _ in 0..3 {
        let holder = queue.holder().unwrap();
        queue.ask(holder, Request::Unlock);
        assert_eq!(settle(&mut queue, holder), Phase::Idle);
        for slot in [1, 0, 3] {
            if slot != holder {
                queue.run(slot);
                if settle(&mut queue, slot) == Phase::Holding {
                    served.push(slot);
                }
            }
        }
        assert_eq!(holders(&queue), 1);
    }
    assert_eq!(served, vec![2, 3, 0, 1]);
}

#[test]
fn a_slot_that_was_handed_the_lock_once_can_be_used_again() {
    let mut queue = Queue::new(2);
    queue.ask(0, Request::Lock);
    settle(&mut queue, 0);
    queue.ask(1, Request::Lock);
    settle(&mut queue, 1);
    queue.ask(0, Request::Unlock);
    settle(&mut queue, 0);
    // Slot 0 keeps the successor word of its last turn.
    assert_eq!(queue.node(0).unwrap().next, Some(1));
    queue.run(1);
    assert_eq!(settle(&mut queue, 1), Phase::Holding);
    queue.ask(1, Request::Unlock);
    assert_eq!(settle(&mut queue, 1), Phase::Idle);
    assert_eq!(queue.tail(), None);

    queue.ask(0, Request::Lock);
    assert_eq!(settle(&mut queue, 0), Phase::Holding);
    assert_eq!(queue.node(0).unwrap().next, None);
    queue.ask(0, Request::Unlock);
    assert_eq!(settle(&mut queue, 0), Phase::Idle);
    assert_eq!(queue.tail(), None);
}

#[test]
fn a_release_that_begins_in_the_middle_of_an_update_hands_the_lock_on() {
    let mut queue = Queue::new(2);
    let mut counter = 10;
    queue.ask(0, Request::Lock);
    assert_eq!(settle(&mut queue, 0), Phase::Holding);
    queue.ask(1, Request::Lock);
    assert_eq!(settle(&mut queue, 1), Phase::LockPause);
    // The holder has loaded the counter and gives up before it stores.
    let loaded = counter;
    assert!(queue.ask(0, Request::Unlock));
    assert_eq!(settle(&mut queue, 0), Phase::Idle);
    queue.run(1);
    assert_eq!(settle(&mut queue, 1), Phase::Holding);
    counter += 1;
    assert_eq!(counter, loaded + 1);
    assert_eq!(queue.holder(), Some(1));
    assert_eq!(queue.tail(), Some(1));
    queue.ask(1, Request::Unlock);
    assert_eq!(settle(&mut queue, 1), Phase::Idle);
    assert_eq!(queue.tail(), None);
}

/// Lets `parties` slots take the lock `rounds` times each, in an interleaving
/// drawn from `seed`, with one increment of a shared counter per turn. The
/// increment is a load and a store with other parties' moves between them.
fn contend(parties: usize, rounds: u32, mut seed: u64) -> u32 {
    let mut queue = Queue::new(parties);
    let mut counter: u32 = 0;
    let mut loaded: Vec<Option<u32>> = vec![None; parties];
    let mut left: Vec<u32> = vec![rounds; parties];
    let mut arrivals: Vec<usize> = Vec::new();
    let mut grants: Vec<usize> = Vec::new();
    while left.iter().any(|&n| n > 0)
        || (0..parties).any(|slot| queue.node(slot).unwrap().phase != Phase::Idle)
    {
        seed = seed.wrapping_mul(6364136223846793005).wrapping_add(1442695040888963407);
        let slot = ((seed >> 33) as usize) % parties;
        match queue.node(slot).unwrap().phase {
            Phase::Idle => {
                if left[slot] > 0 {
                    assert!(queue.ask(slot, Request::Lock));
                }
            }
            Phase::Holding => match loaded[slot] {
                None => loaded[slot] = Some(counter),
                Some(value) => {
                    counter = value + 1;
                    loaded[slot] = None;
                    left[slot] -= 1;
                    assert!(queue.ask(slot, Request::Unlock));
                }
            },
            _ => {
                let action = queue.run(slot);
                if action == Some(Action::SwapTail) {
                    arrivals.push(slot);
                }
                if queue.node(slot).unwrap().phase == Phase::Holding {
                    grants.push(slot);
                }
            }
        }
        assert!(holders(&queue) <= 1);
        assert_eq!(&arrivals[..grants.len()], &grants[..]);
    }
    assert_eq!(queue.tail(), None);
    assert_eq!(arrivals, grants);
    counter
}

#[test]
fn lots_and_lots() {
    const ITERS: u32 = 1000;
    const CONCURRENCY: u32 = 3;
    let counter = contend((2 * CONCURRENCY) as usize, ITERS, 1);
    assert_eq!(counter, ITERS * CONCURRENCY * 2);
}

#[test]
fn no_increment_is_lost_whatever_the_interleaving() {
    for parties in 1..5 {
        for seed in 0..20 {
            assert_eq!(contend(parties, 50, seed), 50 * parties as u32);
        }
    }
}

#[test]
fn the_first_in_the_queue_is_the_one_that_leads() {
    let mut queue = Queue::new(3);
    assert_eq!(queue.first(), None);
    assert_eq!(queue.helpful(), None);
    queue.ask(1, Request::Lock);
    queue.run(1);
    assert_eq!(queue.first(), None);
    queue.run(1);
    assert_eq!(queue.first(), Some(1));
    for slot in [2, 0] {
        queue.ask(slot, Request::Lock);
        assert_eq!(settle(&mut queue, slot), Phase::LockPause);
    }
    assert_eq!(queue.first(), Some(1));
    queue.ask(1, Request::Unlock);
    assert_eq!(settle(&mut queue, 1), Phase::Idle);
    // Slot 2 has been handed the lock and has not looked yet.
    assert_eq!(queue.node(2).unwrap().phase, Phase::LockPause);
    assert_eq!(queue.first(), Some(2));
    assert_eq!(settle_holding(&mut queue, 2), Phase::Holding);
    assert_eq!(queue.first(), Some(2));
}

fn settle_holding(queue: &mut Queue, slot: usize) -> Phase {
    queue.run(slot);
    settle(queue, slot)
}

#[test]
fn the_helpful_move_is_the_request_the_successor_or_the_first() {
    let mut queue = Queue::new(2);
    queue.ask(0, Request::Lock);
    queue.run(0);
    queue.run(0);
    assert_eq!(queue.helpful(), Some((0, Move::Ask(Request::Unlock))));
    queue.ask(0, Request::Unlock);
    assert_eq!(queue.helpful(), Some((0, Move::Run)));
    queue.run(0);
    queue.ask(1, Request::Lock);
    queue.run(1);
    queue.run(1);
    assert_eq!(queue.helpful(), Some((0, Move::Run)));
    assert_eq!(queue.run(0), Some(Action::ClearTail));
    assert_eq!(queue.node(0).unwrap().phase, Phase::UnlockWait);
    // The first waits for the second to make itself known.
    assert_eq!(queue.helpful(), Some((1, Move::Run)));
    queue.run(0);
    assert_eq!(queue.node(0).unwrap().phase, Phase::UnlockPause);
    assert_eq!(queue.helpful(), Some((1, Move::Run)));
    assert_eq!(queue.run(1), Some(Action::Publish { pred: 0 }));
    assert_eq!(queue.helpful(), Some((0, Move::Run)));
}

/// Makes `move_` and says whether it was the helpful one.
fn make(queue: &mut Queue, (slot, move_): (usize, Move)) -> bool {
    let helpful = queue.helpful() == Some((slot, move_));
    match move_ {
        Move::Ask(request) => {
            queue.ask(slot, request);
        }
        Move::Run => {
            queue.run(slot);
        }
    }
    helpful
}

#[test]
fn helpful_moves_alone_serve_a_waiter_within_its_rank() {
    let mut queue = Queue::new(4);
    for slot in 0..4 {
        queue.ask(slot, Request::Lock);
        queue.run(slot);
        queue.run(slot);
    }
    // Slot 0 holds the lock; 1, 2 and 3 have swapped and not made themselves known.
    assert_eq!(queue.holder(), Some(0));
    let rank_of_the_last = 14 * 3 + 10;
    let mut helpful = 0;
    while queue.node(3).unwrap().phase != Phase::Holding {
        let next = queue.helpful().unwrap();
        assert!(make(&mut queue, next));
        helpful += 1;
        assert!(helpful <= rank_of_the_last);
    }
    assert_eq!(queue.first(), Some(3));
    assert_eq!(queue.tail(), Some(3));
}

#[test]
fn a_waiter_is_served_within_its_rank_whatever_else_happens() {
    for seed in 0..20u64 {
        let mut seed = seed;
        let mut queue = Queue::new(5);
        queue.ask(4, Request::Lock);
        queue.run(4);
        queue.run(4);
        queue.ask(2, Request::Lock);
        queue.run(2);
        queue.run(2);
        // Slot 4 holds the lock and slot 2 stands behind it.
        let rank = 14 + 10;
        let mut helpful = 0;
        let mut turn = 0;
        while queue.node(2).unwrap().phase != Phase::Holding {
            seed = seed.wrapping_mul(6364136223846793005).wrapping_add(1442695040888963407);
            let slot = ((seed >> 33) as usize) % 5;
            let next = if turn % 3 == 0 {
                queue.helpful().unwrap()
            } else if slot != 2 && queue.node(slot).unwrap().phase == Phase::Idle {
                (slot, Move::Ask(Request::Lock))
            } else {
                (slot, Move::Run)
            };
            if make(&mut queue, next) {
                helpful += 1;
            }
            turn += 1;
            assert!(helpful <= rank);
        }
        assert_eq!(queue.holder(), Some(2));
    }
}
