use dispatch_pool::multi_queue_multi_thread::MultiQueueMultiThread;
use dispatch_pool::pool::{after_queued, after_send, Rejected, ThreadPool};
use dispatch_pool::sync::LockPoisoned;
use dispatch_pool::sqmt::SingleQueueMultiThread;
use dispatch_pool::sqst::SingleQueueSingleThread;
use dispatch_pool::work_stealing::{
    after_probe, scan_target, scan_then_wait, scan_with, ScanStep, WorkStealing,
};
use std::cell::RefCell;
use dispatch_pool::worker::{after_recv, is_working, step, wait_for_task, WorkerEvent, WorkerState};

#[test]
fn scan_starts_at_home_and_walks_the_ring() {
    let order: Vec<usize> = (0..4).map(|i| scan_target(2, i, 4)).collect();
    assert_eq!(order, vec![2, 3, 0, 1]);
    assert_eq!(scan_target(0, 0, 1), 0);
    assert_eq!(scan_target(usize::MAX - 1, usize::MAX - 1, usize::MAX), usize::MAX - 2);
}

#[test]
fn probe_outcomes_decide_the_scan() {
    assert!(matches!(after_probe(0, 3, Some(Some(5))), ScanStep::Run(5)));
    assert!(matches!(after_probe(2, 3, Some(Some(5))), ScanStep::Run(5)));
    assert!(matches!(after_probe::<i32>(0, 3, None), ScanStep::Probe(1)));
    assert!(matches!(after_probe::<i32>(1, 3, Some(None)), ScanStep::Probe(2)));
    assert!(matches!(after_probe::<i32>(2, 3, None), ScanStep::Block));
    assert!(matches!(after_probe::<i32>(2, 3, Some(None)), ScanStep::Block));
}

#[test]
fn idle_workers_steal_a_backlog() {
    let pool = WorkStealing::<u32>::new(4);
    for task in 0..10 {
        pool.submit_to(0, task).unwrap();
    }
    let mut seen = Vec::new();
    for round in 0..10 {
        let thief = 1 + round % 3;
        seen.push(pool.next_task(thief).unwrap());
    }
    assert_eq!(seen, (0..10).collect::<Vec<u32>>());
    for id in 0..4 {
        assert_eq!(pool.steal(id), Ok(None));
    }
}

#[test]
fn a_worker_takes_from_its_own_queue_first() {
    let pool = WorkStealing::<&str>::new(3);
    pool.submit_to(0, "peer").unwrap();
    pool.submit_to(1, "own").unwrap();
    assert_eq!(pool.steal(1), Ok(Some("own")));
    assert_eq!(pool.steal(1), Ok(Some("peer")));
    assert_eq!(pool.steal(1), Ok(None));
}

#[test]
fn a_scan_passes_over_a_locked_queue() {
    let pool = WorkStealing::<u32>::new(3);
    pool.submit_to(0, 1).unwrap();
    pool.submit_to(1, 2).unwrap();
    {
        let _held = pool.queue(0).lock();
        assert_eq!(pool.steal(0), Ok(Some(2)));
        assert_eq!(pool.steal(0), Ok(None));
    }
    assert_eq!(pool.steal(0), Ok(Some(1)));
    assert_eq!(pool.steal(0), Ok(None));
    assert_eq!(pool.num_threads(), 3);
}

#[test]
fn a_scan_gives_up_when_every_queue_is_locked() {
    let pool = WorkStealing::<u32>::new(2);
    pool.submit_to(0, 1).unwrap();
    pool.submit_to(1, 2).unwrap();
    {
        let _first = pool.queue(0).lock();
        let _second = pool.queue(1).lock();
        assert_eq!(pool.steal(0), Ok(None));
        assert_eq!(pool.steal(1), Ok(None));
    }
    assert_eq!(pool.next_task(1), Ok(2));
    assert_eq!(pool.next_task(1), Ok(1));
}

#[test]
fn work_stealing_runs_every_task_once() {
    let pool = WorkStealing::<usize>::new(3);
    for task in 0..30 {
        pool.execute(task).unwrap();
    }
    let mut seen = Vec::new();
    for round in 0..30 {
        seen.push(pool.next_task(round % 3).unwrap());
    }
    seen.sort();
    assert_eq!(seen, (0..30).collect::<Vec<usize>>());
    assert_eq!(pool.steal(0), Ok(None));
}

#[test]
fn work_stealing_fills_the_queues_in_turn() {
    let pool = WorkStealing::<usize>::new(3);
    for task in 0..6 {
        pool.execute(task).unwrap();
    }
    assert_eq!(pool.steal(1), Ok(Some(1)));
    assert_eq!(pool.steal(1), Ok(Some(4)));
    assert_eq!(pool.steal(1), Ok(Some(2)));
    assert_eq!(pool.steal(1), Ok(Some(5)));
    assert_eq!(pool.steal(1), Ok(Some(0)));
    assert_eq!(pool.steal(1), Ok(Some(3)));
}

#[test]
fn round_robin_gives_each_worker_its_share() {
    let (pool, receivers) = MultiQueueMultiThread::<usize>::new(4);
    assert_eq!(pool.num_threads(), 4);
    assert_eq!(receivers.len(), 4);
    for task in 0..12 {
        assert_eq!(pool.execute(task), Ok(()));
    }
    drop(pool);
    for (id, receiver) in receivers.iter().enumerate() {
        let got: Vec<usize> = receiver.iter().collect();
        assert_eq!(got, vec![id, id + 4, id + 8]);
    }
}

#[test]
fn a_task_comes_back_when_its_worker_is_gone() {
    let (pool, receivers) = MultiQueueMultiThread::<String>::new(2);
    drop(receivers);
    assert_eq!(
        pool.execute(String::from("lost")),
        Err(Rejected::WorkerGone(String::from("lost")))
    );
    assert_eq!(
        pool.send_to(1, String::from("too")),
        Err(Rejected::WorkerGone(String::from("too")))
    );

    let (single, receiver) = SingleQueueSingleThread::<u8>::new();
    drop(receiver);
    assert_eq!(single.execute(9), Err(Rejected::WorkerGone(9)));

    let (shared, receiver) = SingleQueueMultiThread::<u8>::new(2);
    drop(receiver);
    assert_eq!(shared.execute(4), Err(Rejected::WorkerGone(4)));
}

#[test]
fn single_queue_keeps_the_order_of_arrival() {
    let (pool, receiver) = SingleQueueSingleThread::<u32>::new();
    for task in 0..5 {
        assert_eq!(pool.execute(task), Ok(()));
    }
    drop(pool);
    assert_eq!(receiver.iter().collect::<Vec<u32>>(), vec![0, 1, 2, 3, 4]);

    let (shared, receiver) = SingleQueueMultiThread::<u32>::new(3);
    assert_eq!(shared.num_threads(), 3);
    for task in 0..5 {
        assert_eq!(shared.execute(task), Ok(()));
    }
    drop(shared);
    assert_eq!(receiver.iter().collect::<Vec<u32>>(), vec![0, 1, 2, 3, 4]);
}

#[test]
fn worker_states_follow_the_events() {
    assert_eq!(step(WorkerState::Idle, WorkerEvent::TaskReceived), WorkerState::Executing);
    assert_eq!(step(WorkerState::Executing, WorkerEvent::TaskDone), WorkerState::Idle);
    assert_eq!(step(WorkerState::Idle, WorkerEvent::SourceClosed), WorkerState::Terminated);
    assert_eq!(step(WorkerState::Idle, WorkerEvent::TaskDone), WorkerState::Idle);
    assert_eq!(step(WorkerState::Executing, WorkerEvent::TaskReceived), WorkerState::Executing);
    assert_eq!(step(WorkerState::Executing, WorkerEvent::SourceClosed), WorkerState::Executing);
    for event in [WorkerEvent::TaskReceived, WorkerEvent::TaskDone, WorkerEvent::SourceClosed] {
        assert_eq!(step(WorkerState::Terminated, event), WorkerState::Terminated);
    }
    assert!(is_working(WorkerState::Executing));
    assert!(!is_working(WorkerState::Idle));
    assert!(!is_working(WorkerState::Terminated));
}

#[test]
fn a_worker_ends_when_its_channel_closes() {
    assert_eq!(after_recv(Some(3)), (WorkerState::Executing, Some(3)));
    assert_eq!(after_recv::<i32>(None), (WorkerState::Terminated, None));

    let (pool, receiver) = SingleQueueSingleThread::<u32>::new();
    pool.execute(11).unwrap();
    drop(pool);
    assert_eq!(wait_for_task(&receiver), (WorkerState::Executing, Some(11)));
    assert_eq!(wait_for_task(&receiver), (WorkerState::Terminated, None));
}

#[test]
fn a_refused_send_names_the_task() {
    assert_eq!(after_send::<u8>(Ok(())), Ok(()));
    assert_eq!(after_send(Err(5)), Err(Rejected::WorkerGone(5)));
}

#[test]
fn every_pool_answers_to_the_same_call() {
    fn submit<P: ThreadPool<u32>>(pool: &P, task: u32) -> Result<(), Rejected<u32>> {
        pool.execute(task)
    }
    let (one, one_rx) = SingleQueueSingleThread::<u32>::new();
    let (many, many_rx) = SingleQueueMultiThread::<u32>::new(2);
    let (robin, robin_rx) = MultiQueueMultiThread::<u32>::new(2);
    let stealing = WorkStealing::<u32>::new(2);
    assert_eq!(submit(&one, 1), Ok(()));
    assert_eq!(submit(&many, 2), Ok(()));
    assert_eq!(submit(&robin, 3), Ok(()));
    assert_eq!(submit(&stealing, 4), Ok(()));
    assert_eq!(one_rx.recv(), Ok(1));
    assert_eq!(many_rx.recv(), Ok(2));
    assert_eq!(robin_rx[0].recv(), Ok(3));
    assert_eq!(stealing.next_task(1), Ok(4));
}

#[test]
fn a_poisoned_queue_rejects_the_task() {
    assert_eq!(after_queued::<u8>(Ok(())), Ok(()));
    assert_eq!(after_queued::<u8>(Err(LockPoisoned)), Err(Rejected::LockPoisoned));
}

#[test]
fn a_vain_scan_tries_every_queue_once_in_ring_order() {
    let tried = RefCell::new(Vec::new());
    let probe = |slot: usize| -> Result<Option<Option<u32>>, String> {
        tried.borrow_mut().push(slot);
        if slot % 2 == 0 {
            Ok(None)
        } else {
            Ok(Some(None))
        }
    };
    let (found, _) = scan_with(2, 4, &probe);
    assert_eq!(found, Ok(None));
    assert_eq!(*tried.borrow(), vec![2, 3, 0, 1]);
}

#[test]
fn a_scan_ends_with_the_first_task() {
    let tried = RefCell::new(Vec::new());
    let probe = |slot: usize| -> Result<Option<Option<usize>>, String> {
        tried.borrow_mut().push(slot);
        match slot {
            0 | 1 => Ok(Some(Some(slot * 10))),
            2 => Ok(None),
            _ => Ok(Some(None)),
        }
    };
    let (found, _) = scan_with(2, 4, &probe);
    assert_eq!(found, Ok(Some(0)));
    assert_eq!(*tried.borrow(), vec![2, 3, 0]);

    tried.borrow_mut().clear();
    let (found, _) = scan_with(1, 4, &probe);
    assert_eq!(found, Ok(Some(10)));
    assert_eq!(*tried.borrow(), vec![1]);
}

#[test]
fn a_scan_ends_with_the_first_failure() {
    let tried = RefCell::new(Vec::new());
    let probe = |slot: usize| -> Result<Option<Option<usize>>, String> {
        tried.borrow_mut().push(slot);
        match slot {
            0 => Err(String::from("broken")),
            1 => Ok(Some(Some(1))),
            _ => Ok(Some(None)),
        }
    };
    let (found, _) = scan_with(3, 4, &probe);
    assert_eq!(found, Err(String::from("broken")));
    assert_eq!(*tried.borrow(), vec![3, 0]);
}

#[test]
fn a_worker_waits_at_its_own_queue_only_after_a_vain_scan() {
    let waited = RefCell::new(Vec::new());
    let wait = |own: usize| -> Result<usize, String> {
        waited.borrow_mut().push(own);
        Ok(99)
    };

    let nothing = |_slot: usize| -> Result<Option<Option<usize>>, String> { Ok(Some(None)) };
    let (next, _) = scan_then_wait(1, 3, &nothing, &wait);
    assert_eq!(next, Ok(99));
    assert_eq!(*waited.borrow(), vec![1]);

    waited.borrow_mut().clear();
    let a_peer_has_work = |slot: usize| -> Result<Option<Option<usize>>, String> {
        if slot == 0 {
            Ok(Some(Some(5)))
        } else {
            Ok(None)
        }
    };
    let (next, _) = scan_then_wait(1, 3, &a_peer_has_work, &wait);
    assert_eq!(next, Ok(5));
    assert!(waited.borrow().is_empty());

    let fails = |_slot: usize| -> Result<Option<Option<usize>>, String> {
        Err(String::from("broken"))
    };
    let (next, _) = scan_then_wait(1, 3, &fails, &wait);
    assert_eq!(next, Err(String::from("broken")));
    assert!(waited.borrow().is_empty());
}
