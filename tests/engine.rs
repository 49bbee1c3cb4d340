use transfer_core::engine::{
    ActiveTasks, Action, Phase, ProgressCounter, TaskRun, TransferEvent, CHECKPOINT_INTERVAL_MS,
};
use transfer_core::model::{ResumeRecord, TransferDirection, TransferStatus, TransferTask};

fn task(direction: &str, size: u64) -> TransferTask {
    TransferTask::new(1, "test.txt".into(), "/local/test.txt".into(), "/remote/test.txt".into(), direction.into(), size)
}

/// Runs a task up to its transfer call, with `found` as the checkpoint lookup.
fn run_to_transfer(t: TransferTask, found: Option<ResumeRecord>) -> (TaskRun, u64) {
    let (mut run, first) = TaskRun::start(t);
    assert!(matches!(first[0], Action::InsertHistory(_)));
    let a = run.history_inserted(Ok(7));
    assert!(matches!(a[1], Action::FindResume { .. }));
    let a = run.resume_found(found);
    assert!(matches!(a[0], Action::GetConnection { host_id: 1 }));
    let a = run.connection_ready(Ok(()));
    let offset = match &a[0] {
        Action::Transfer { offset, .. } => *offset,
        other => panic!("unexpected action {:?}", other),
    };
    (run, offset)
}

#[test]
fn upload_of_hundred_bytes_succeeds() {
    let mut active = ActiveTasks::new();
    let t = task("upload", 100);
    let id = t.id.clone();
    active.register(id.clone());
    assert_eq!(active.ids(), vec![id.clone()]);
    let (mut run, offset) = run_to_transfer(t, None);
    assert_eq!(offset, 0);
    let actions = run.transfer_done(Ok(100), active.is_cancelled(&id));
    match &actions[0] {
        Action::UpdateHistory { history_id, status, transferred, error, finished } => {
            assert_eq!(*history_id, 7);
            assert_eq!(*status, TransferStatus::Success);
            assert_eq!(*transferred, 100);
            assert!(error.is_none());
            assert!(*finished);
        }
        other => panic!("unexpected action {:?}", other),
    }
    assert!(matches!(&actions[1], Action::DeleteResume { transfer_id } if *transfer_id == id));
    assert!(matches!(&actions[2], Action::Emit(TransferEvent::Complete { .. })));
    assert!(matches!(&actions[3], Action::Deregister { transfer_id } if *transfer_id == id));
    active.finish(&id);
    assert!(active.ids().is_empty());
    assert_eq!(run.phase, Phase::Done);
}

#[test]
fn task_is_listed_until_it_finishes() {
    let mut active = ActiveTasks::new();
    active.register("a".into());
    active.register("b".into());
    assert!(active.cancel("a").is_ok());
    let mut ids = active.ids();
    ids.sort();
    assert_eq!(ids, vec!["a", "b"]);
    active.finish("b");
    assert_eq!(active.ids(), vec!["a"]);
    active.finish("a");
    assert!(active.ids().is_empty());
}

#[test]
fn cancel_after_finish_is_not_found() {
    let mut active = ActiveTasks::new();
    active.register("t-1".into());
    active.finish("t-1");
    assert_eq!(active.cancel("t-1").unwrap_err(), "Transfer t-1 not found");
    assert!(!active.is_cancelled("t-1"));
}

#[test]
fn cancellation_wins_over_the_result() {
    let mut active = ActiveTasks::new();
    let t = task("upload", 100);
    let id = t.id.clone();
    active.register(id.clone());
    let (mut run, _) = run_to_transfer(t, None);
    active.cancel(&id).unwrap();
    let actions = run.transfer_done(Ok(100), active.is_cancelled(&id));
    assert_eq!(actions.len(), 3);
    assert!(matches!(
        &actions[0],
        Action::UpdateHistory { status: TransferStatus::Cancelled, transferred: 0, .. }
    ));
    assert!(matches!(&actions[1], Action::Emit(TransferEvent::Cancelled { .. })));
    assert!(matches!(&actions[2], Action::Deregister { .. }));
    assert_eq!(run.status, TransferStatus::Cancelled);
}

#[test]
fn failed_transfer_resumes_from_its_checkpoint() {
    let t = task("download", 1000);
    let (mut run, _) = run_to_transfer(t.clone(), None);
    run.progress(400, 10);
    let actions = run.transfer_done(Err("connection reset".into()), false);
    let record = match &actions[1] {
        Action::SaveResume(r) => r.clone(),
        other => panic!("unexpected action {:?}", other),
    };
    assert_eq!(record.transferred_bytes, 400);
    assert_eq!(record.file_size, 1000);
    assert_eq!(record.direction, TransferDirection::Download);
    assert!(matches!(
        &actions[2],
        Action::Emit(TransferEvent::Failed { error, .. }) if error == "connection reset"
    ));
    let retry = TransferTask::new(1, t.filename.clone(), t.local_path.clone(), t.remote_path.clone(), "download".into(), 1000);
    let (_, offset) = run_to_transfer(retry, Some(record));
    assert_eq!(offset, 400);
}

#[test]
fn missing_connection_fails_with_empty_checkpoint() {
    let (mut run, _) = TaskRun::start(task("upload", 50));
    run.history_inserted(Ok(3));
    run.resume_found(None);
    let actions = run.connection_ready(Err("No active connection for host 1".into()));
    assert_eq!(actions.len(), 4);
    assert!(matches!(&actions[0], Action::UpdateHistory { status: TransferStatus::Failed, .. }));
    assert!(matches!(&actions[1], Action::SaveResume(r) if r.transferred_bytes == 0 && r.file_size == 50));
    assert_eq!(run.status, TransferStatus::Failed);
}

#[test]
fn history_failure_aborts_without_row() {
    let (mut run, _) = TaskRun::start(task("upload", 50));
    let actions = run.history_inserted(Err("disk full".into()));
    assert_eq!(actions.len(), 2);
    assert!(matches!(&actions[0], Action::Emit(TransferEvent::Failed { error, .. }) if error == "disk full"));
    assert!(matches!(&actions[1], Action::Deregister { .. }));
    assert!(run.transfer_done(Ok(1), false).is_empty());
}

#[test]
fn resumed_success_counts_the_offset() {
    let t = task("upload", 1000);
    let mut rec = ResumeRecord::new("old".into(), 1, t.remote_path.clone(), t.local_path.clone(), TransferDirection::Upload, 1000);
    rec.transferred_bytes = 600;
    let (mut run, offset) = run_to_transfer(t, Some(rec));
    assert_eq!(offset, 600);
    let actions = run.transfer_done(Ok(400), false);
    assert!(matches!(&actions[0], Action::UpdateHistory { transferred: 1000, .. }));
}

#[test]
fn checkpoints_come_every_three_seconds() {
    let (mut run, _) = run_to_transfer(task("upload", 1000), None);
    assert!(run.progress(100, 1000).checkpoint.is_none());
    let step = run.progress(200, CHECKPOINT_INTERVAL_MS);
    assert_eq!(step.checkpoint.unwrap().transferred_bytes, 200);
    assert!(run.progress(300, CHECKPOINT_INTERVAL_MS + 2999).checkpoint.is_none());
    assert!(run.progress(400, 2 * CHECKPOINT_INTERVAL_MS).checkpoint.is_some());
    assert_eq!(run.progress(500, 7000).transferred_bytes, 500);
}

#[test]
fn progress_counts_are_monotone() {
    let mut counter = ProgressCounter::new(0, 70000);
    let mut reports = Vec::new();
    for n in [32768u64, 32768, 4464] {
        reports.push(counter.advance(n));
    }
    assert_eq!(reports, vec![32768, 65536, 70000]);
    assert_eq!(*reports.last().unwrap(), counter.moved());
    let mut resumed = ProgressCounter::new(100, 114);
    assert_eq!(resumed.advance(14), 114);
    assert_eq!(resumed.moved(), 14);
}
