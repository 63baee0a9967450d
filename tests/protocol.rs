use thread_pool::{
    Dispatcher, JobOutcome, Message, MessageQueue, PoolError, ShutdownAction, Worker, WorkerAction,
};

/// Drives shutdown to its end, sending each stop order on `q`, and returns
/// the actions taken, the final `Done` included.
fn drive_shutdown(d: &mut Dispatcher, q: &mut MessageQueue<u64>) -> Vec<ShutdownAction> {
    let mut actions = Vec::new();
    loop {
        let a = d.shutdown_step();
        actions.push(a);
        match a {
            ShutdownAction::SendTerminate => q.send(Message::Terminate),
            ShutdownAction::Join(_) => {}
            ShutdownAction::Done => return actions,
        }
    }
}

/// Lets the workers take messages from `q` in turn until each has exited;
/// returns the jobs run, in the order they were dequeued, and how many stop
/// orders each worker took.
fn run_workers(workers: &mut Vec<Worker>, q: &mut MessageQueue<u64>) -> (Vec<u64>, Vec<u32>) {
    let mut ran = Vec::new();
    let mut stops = vec![0u32; workers.len()];
    loop {
        let mut any = false;
        for (i, w) in workers.iter_mut().enumerate() {
            if !w.is_running() {
                continue;
            }
            any = true;
            match q.receive() {
                Some(m) => match w.handle(m) {
                    WorkerAction::Run(j) => {
                        ran.push(j);
                        w.job_finished(JobOutcome::Completed);
                    }
                    WorkerAction::Exit => stops[i] += 1,
                },
                None => panic!("a running worker found the queue empty"),
            }
        }
        if !any {
            return (ran, stops);
        }
    }
}

#[test]
fn zero_size_is_refused() {
    assert!(matches!(Dispatcher::new(0), Err(PoolError::ZeroSize)));
}

#[test]
fn size_is_kept() {
    let d = Dispatcher::new(4).unwrap();
    assert_eq!(d.size(), 4);
    assert!(!d.is_finished());
}

#[test]
fn shutdown_of_an_idle_pool() {
    for n in 1..6usize {
        let mut d = Dispatcher::new(n).unwrap();
        let mut q = MessageQueue::new();
        let actions = drive_shutdown(&mut d, &mut q);
        let mut expected = vec![ShutdownAction::SendTerminate; n];
        for i in 0..n {
            expected.push(ShutdownAction::Join(i));
        }
        expected.push(ShutdownAction::Done);
        assert_eq!(actions, expected);
        assert_eq!(q.len(), n);
        assert!(d.is_finished());

        let mut workers: Vec<Worker> = (0..n).map(Worker::new).collect();
        let (ran, stops) = run_workers(&mut workers, &mut q);
        assert!(ran.is_empty());
        assert_eq!(stops, vec![1u32; n]);
        assert!(q.is_empty());
    }
}

#[test]
fn shutdown_can_be_driven_again() {
    let mut d = Dispatcher::new(2).unwrap();
    let mut q = MessageQueue::new();
    drive_shutdown(&mut d, &mut q);
    assert_eq!(d.shutdown_step(), ShutdownAction::Done);
    assert_eq!(d.shutdown_step(), ShutdownAction::Done);
    assert_eq!(q.len(), 2);
}

#[test]
fn every_job_runs_once() {
    let m = 100u64;
    let mut d = Dispatcher::new(3).unwrap();
    let mut q = MessageQueue::new();
    for j in 1..=m {
        assert_eq!(d.submit(&mut q, j), Ok(()));
    }
    drive_shutdown(&mut d, &mut q);
    let mut workers: Vec<Worker> = (0..3).map(Worker::new).collect();
    let (mut ran, stops) = run_workers(&mut workers, &mut q);
    assert_eq!(ran.len() as u64, m);
    assert_eq!(stops, vec![1u32, 1, 1]);
    ran.sort();
    assert_eq!(ran, (1..=m).collect::<Vec<u64>>());
}

#[test]
fn single_worker_dequeues_in_submission_order() {
    let mut d = Dispatcher::new(1).unwrap();
    let mut q = MessageQueue::new();
    for j in 1..=20u64 {
        d.submit(&mut q, j).unwrap();
    }
    drive_shutdown(&mut d, &mut q);
    let mut workers = vec![Worker::new(0)];
    let (ran, stops) = run_workers(&mut workers, &mut q);
    assert_eq!(ran, (1..=20u64).collect::<Vec<u64>>());
    assert_eq!(stops, vec![1u32]);
}

#[test]
fn queue_is_first_in_first_out() {
    let mut q = MessageQueue::new();
    assert!(q.receive().is_none());
    q.send(Message::NewJob(7u64));
    q.send(Message::Terminate);
    q.send(Message::NewJob(9u64));
    assert_eq!(q.len(), 3);
    assert!(matches!(q.receive(), Some(Message::NewJob(7))));
    assert!(matches!(q.receive(), Some(Message::Terminate)));
    assert!(matches!(q.receive(), Some(Message::NewJob(9))));
    assert!(q.receive().is_none());
    assert!(q.is_empty());
}

#[test]
fn interleaved_producers_lose_nothing() {
    let mut d = Dispatcher::new(2).unwrap();
    let mut q = MessageQueue::new();
    for k in 0..50u64 {
        d.submit(&mut q, k).unwrap();
        d.submit(&mut q, 1000 + k).unwrap();
    }
    drive_shutdown(&mut d, &mut q);
    let mut workers: Vec<Worker> = (0..2).map(Worker::new).collect();
    let (mut ran, _) = run_workers(&mut workers, &mut q);
    ran.sort();
    let mut expected: Vec<u64> = (0..50u64).chain(1000..1050u64).collect();
    expected.sort();
    assert_eq!(ran, expected);
}

#[test]
fn submit_after_shutdown_began_is_refused() {
    let mut d = Dispatcher::new(2).unwrap();
    let mut q = MessageQueue::new();
    assert_eq!(d.check_submit(), Ok(()));
    assert_eq!(d.shutdown_step(), ShutdownAction::SendTerminate);
    q.send(Message::Terminate);
    assert_eq!(d.check_submit(), Err(PoolError::ShutDown));
    assert_eq!(d.submit(&mut q, 5u64), Err(PoolError::ShutDown));
    assert_eq!(q.len(), 1);
}

#[test]
fn faulted_job_keeps_the_worker() {
    let mut q = MessageQueue::new();
    for j in 1..=3u64 {
        q.send(Message::NewJob(j));
    }
    q.send(Message::Terminate);
    let mut w = Worker::new(5);
    let mut ran = Vec::new();
    while w.is_running() {
        let m = q.receive().unwrap();
        if let WorkerAction::Run(j) = w.handle(m) {
            ran.push(j);
            let outcome = if j == 1 { JobOutcome::Faulted } else { JobOutcome::Completed };
            w.job_finished(outcome);
            assert!(w.is_running());
        }
    }
    assert_eq!(ran, vec![1, 2, 3]);
    assert_eq!(w.faults(), 1);
    assert_eq!(w.id(), 5);
    assert!(q.is_empty());
}

#[test]
fn worker_stops_at_terminate() {
    let mut w = Worker::new(0);
    assert!(w.is_running());
    assert!(matches!(w.handle(Message::<u64>::Terminate), WorkerAction::Exit));
    assert!(!w.is_running());
    assert_eq!(w.faults(), 0);
}

#[test]
fn message_kind() {
    assert!(Message::<u64>::Terminate.is_terminate());
    assert!(!Message::NewJob(3u64).is_terminate());
}

#[test]
fn positive_sizes_are_accepted() {
    for n in 1..=16usize {
        let d = Dispatcher::new(n).expect("a positive size builds a pool");
        assert_eq!(d.size(), n);
        assert_eq!(d.check_submit(), Ok(()));
        assert!(!d.is_finished());
    }
}
