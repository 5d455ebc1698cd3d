use dystellar_launcher::tasks::{
    HttpDownloadTask, PostScript, Semaphore, SharedTaskState, SubmitAction, TaskData, TaskManager,
    TaskState, TasksGroup, TickOutcome, WorkerStep,
};

#[test]
fn state_codes_roundtrip() {
    let all = [
        TaskState::Waiting,
        TaskState::InProgress,
        TaskState::Starting,
        TaskState::Unpacking,
        TaskState::Verifying,
        TaskState::Finished,
        TaskState::Failed,
    ];
    for (code, s) in all.iter().enumerate() {
        assert_eq!(s.to_u8() as usize, code);
        assert_eq!(TaskState::from_u8(s.to_u8()), *s);
    }
    assert_eq!(TaskState::from_u8(7), TaskState::Waiting);
    assert_eq!(TaskState::from_u8(255), TaskState::Waiting);
}

#[test]
fn semaphore_counts() {
    let mut s = Semaphore::new(0);
    assert!(!s.acquire());
    assert_eq!(s.count, 0);
    s.release();
    assert!(s.acquire());
    assert_eq!(s.count, 0);
    s.release_all();
    assert_eq!(s.count, i16::MAX);
    assert!(s.acquire());
    s.reset();
    assert_eq!(s.count, 0);
    let mut n = Semaphore::new(-1);
    assert!(n.acquire());
    assert_eq!(n.count, -2);
}

#[test]
fn shared_state_steps() {
    let mut s = SharedTaskState::new();
    assert_eq!((s.total, s.progress, s.state), (0, 0, TaskState::Waiting));
    s.claim();
    assert_eq!(s.state, TaskState::Starting);
    s.start_transfer(Some(100));
    assert_eq!((s.total, s.state), (100, TaskState::InProgress));
    s.add_progress(60);
    s.add_progress(40);
    assert_eq!(s.progress, 100);
    s.begin_verify(7);
    assert_eq!((s.total, s.progress, s.state), (7, 0, TaskState::Verifying));
    s.begin_unpack();
    assert_eq!(s.state, TaskState::Unpacking);
    s.finish();
    assert_eq!(s.state, TaskState::Finished);
    s.add_progress(usize::MAX);
    assert_eq!(s.progress, usize::MAX.wrapping_add(0));
}

#[test]
fn new_rows_and_groups() {
    let d = TaskData::new(3, "lib", "url");
    assert_eq!((d.id, d.name.as_str(), d.details.as_str(), d.progress, d.total, d.state), (3, "lib", "url", 0, 0, TaskState::Waiting));
    let g = TasksGroup::new("Downloads");
    assert_eq!(g.name, "Downloads");
    assert!(g.get_model().is_empty());
    let t = HttpDownloadTask::new("https://x", "/o".to_string(), vec![PostScript::VerifySha1 { path: "/o".into(), sha1: "s".into() }]).unwrap();
    assert_eq!(t.url, "https://x");
    assert_eq!(t.post_scripts.len(), 1);
    assert_eq!(t.shared_state, SharedTaskState::new());
}

#[test]
fn submit_claim_finish_tick() {
    let mut m = TaskManager::new(2);
    let (a, act) = m.submit_task("Downloads", "a", "da", SharedTaskState::new());
    assert_eq!((a, act), (0, SubmitAction::Start));
    assert!(m.running);
    let (b, act) = m.submit_task("Downloads", "b", "db", SharedTaskState::new());
    assert_eq!((b, act), (1, SubmitAction::Signal));
    let (c, _) = m.submit_task("JRE Download", "c", "dc", SharedTaskState::new());
    assert_eq!(c, 2);
    assert_eq!(m.groups.len(), 2);
    assert_eq!(m.groups[0].tasks.len(), 2);
    assert_eq!(m.groups[1].tasks.len(), 1);

    assert_eq!(m.claim_next(), WorkerStep::Run(a));
    assert_eq!(m.tasks[0].shared_state.state, TaskState::Starting);
    assert_eq!(m.claim_next(), WorkerStep::Run(b));
    assert_eq!(m.claim_next(), WorkerStep::Run(c));
    assert_eq!(m.claim_next(), WorkerStep::Wait);

    let mut st = m.tasks[1].shared_state;
    st.start_transfer(Some(10));
    st.add_progress(4);
    m.set_shared_state(b, st);

    m.finish_task(a);
    assert_eq!(m.tick(), TickOutcome::Refreshed);
    // Row `a` is gone, row `b` is up to date.
    assert_eq!(m.groups[0].tasks.len(), 1);
    assert_eq!(m.groups[0].tasks[0].id, b);
    assert_eq!((m.groups[0].tasks[0].progress, m.groups[0].tasks[0].total), (4, 10));
    assert_eq!(m.groups[0].tasks[0].state, TaskState::InProgress);

    m.finish_task(b);
    m.finish_task(c);
    assert_eq!(m.tick(), TickOutcome::Refreshed);
    assert!(m.groups.is_empty());
    assert_eq!(m.claim_next(), WorkerStep::Exit);

    assert!(!m.on_finish());
    assert_eq!(m.tick(), TickOutcome::Finished { run_callback: true });
    assert!(!m.running);
    assert_eq!(m.tick(), TickOutcome::Finished { run_callback: false });
}

#[test]
fn a_second_batch_runs_after_the_first() {
    let mut m = TaskManager::new(2);
    let (a, act) = m.submit_task("Downloads", "a", "", SharedTaskState::new());
    assert_eq!(act, SubmitAction::Start);
    assert_eq!(m.claim_next(), WorkerStep::Run(a));
    m.finish_task(a);
    assert_eq!(m.tick(), TickOutcome::Refreshed);
    assert_eq!(m.tick(), TickOutcome::Finished { run_callback: false });
    // Nothing pending: the callback runs at once.
    assert!(m.on_finish());
    let (b, act) = m.submit_task("Downloads", "b", "", SharedTaskState::new());
    assert_eq!(act, SubmitAction::Start);
    assert!(m.running);
    assert_eq!(m.claim_next(), WorkerStep::Run(b));
    assert!(!m.on_finish());
    m.finish_task(b);
    assert_eq!(m.tick(), TickOutcome::Refreshed);
    assert_eq!(m.tick(), TickOutcome::Finished { run_callback: true });
}

#[test]
fn a_failed_task_reports_failed() {
    let mut s = SharedTaskState::new();
    s.claim();
    s.start_transfer(Some(8));
    s.add_progress(3);
    s.fail();
    assert_eq!(s, SharedTaskState { total: 8, progress: 3, state: TaskState::Failed });
    assert_eq!(s.state.to_u8(), 6);
}

#[test]
fn on_finish_runs_at_once_when_idle() {
    let mut m = TaskManager::new(4);
    assert!(m.on_finish());
    assert!(!m.finish_callback);
}

#[test]
fn refresh_only_touches_the_first_threads_rows() {
    let mut m = TaskManager::new(1);
    let (a, _) = m.submit_task("G", "a", "", SharedTaskState::new());
    let (b, _) = m.submit_task("G", "b", "", SharedTaskState::new());
    let (_, _) = m.submit_task("H", "c", "", SharedTaskState::new());
    m.finish_task(a);
    m.finish_task(b);
    // Only group 0 is looked at, and only until one row is kept.
    assert_eq!(m.tick(), TickOutcome::Refreshed);
    assert!(m.groups.iter().all(|g| !g.tasks.is_empty()) || m.groups.len() == 1);
    assert_eq!(m.groups[0].name, "H");
}
