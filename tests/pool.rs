use aspirin::pool::{next_action, Message, PoolState, ThreadPoolError, WorkerAction};

#[test]
fn zero_workers_is_refused() {
    assert!(matches!(PoolState::new(0), Err(ThreadPoolError::ZeroWorkers)));
}

#[test]
fn pool_keeps_its_worker_count() {
    for n in [1usize, 2, 4, 8] {
        let state = PoolState::new(n).unwrap();
        assert_eq!(state.worker_count(), n);
        assert!(state.is_open());
        assert_eq!(state.accept_job(), Ok(()));
    }
}

#[test]
fn submission_after_shutdown_fails() {
    let mut state = PoolState::new(3).unwrap();
    assert_eq!(state.close(), 3);
    assert!(!state.is_open());
    assert_eq!(state.accept_job(), Err(ThreadPoolError::SubmissionFailed));
}

#[test]
fn shutdown_terminates_each_worker_once() {
    let mut state = PoolState::new(4).unwrap();
    assert_eq!(state.close(), 4);
    assert_eq!(state.close(), 0);
    assert_eq!(state.worker_count(), 4);
}

#[test]
fn worker_runs_jobs_and_stops_on_terminate() {
    match next_action(Some(Message::NewJob(17u32))) {
        WorkerAction::Run(j) => assert_eq!(j, 17),
        WorkerAction::Exit => panic!("a job is run"),
    }
    assert!(matches!(next_action::<u32>(Some(Message::Terminate)), WorkerAction::Exit));
    assert!(matches!(next_action::<u32>(None), WorkerAction::Exit));
}
