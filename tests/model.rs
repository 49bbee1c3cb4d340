use transfer_core::model::{
    DirectoryBookmark, Host, Protocol, ResumeRecord, TransferDirection, TransferHistory,
    TransferStatus, TransferTask,
};

#[test]
fn test_bookmark_new() {
    let bm = DirectoryBookmark::new(1, "my bookmark".into());
    assert_eq!(bm.id, None);
    assert_eq!(bm.host_id, 1);
    assert_eq!(bm.label, "my bookmark");
    assert!(bm.remote_dir.is_none());
    assert!(bm.local_dir.is_none());
}

#[test]
fn test_protocol_roundtrip() {
    assert_eq!(Protocol::from_str("ftp").unwrap(), Protocol::Ftp);
    assert_eq!(Protocol::from_str("sftp").unwrap(), Protocol::Sftp);
    assert!(Protocol::from_str("http").is_err());
    assert_eq!(Protocol::Ftp.as_str(), "ftp");
    assert_eq!(Protocol::Sftp.as_str(), "sftp");
}

#[test]
fn protocol_error_names_the_tag() {
    assert_eq!(Protocol::from_str("http").unwrap_err(), "Unknown protocol: http");
    assert_eq!(TransferDirection::from_str("sync").unwrap_err(), "Unknown direction: sync");
    assert_eq!(TransferStatus::from_str("").unwrap_err(), "Unknown status: ");
}

#[test]
fn test_host_new() {
    let host = Host::new(
        "test".into(),
        "example.com".into(),
        22,
        Protocol::Sftp,
        "admin".into(),
    );
    assert_eq!(host.id, None);
    assert_eq!(host.name, "test");
    assert_eq!(host.port, 22);
    assert_eq!(host.protocol, Protocol::Sftp);
    assert!(host.password.is_none());
    assert!(host.key_path.is_none());
}

#[test]
fn test_direction_roundtrip() {
    assert_eq!(
        TransferDirection::from_str("upload").unwrap(),
        TransferDirection::Upload
    );
    assert_eq!(
        TransferDirection::from_str("download").unwrap(),
        TransferDirection::Download
    );
    assert!(TransferDirection::from_str("sync").is_err());
    assert_eq!(TransferDirection::Upload.as_str(), "upload");
    assert_eq!(TransferDirection::Download.as_str(), "download");
}

#[test]
fn test_status_roundtrip() {
    let statuses = [
        ("pending", TransferStatus::Pending),
        ("transferring", TransferStatus::Transferring),
        ("success", TransferStatus::Success),
        ("failed", TransferStatus::Failed),
        ("cancelled", TransferStatus::Cancelled),
    ];
    for (s, expected) in &statuses {
        assert_eq!(TransferStatus::from_str(s).unwrap(), *expected);
        assert_eq!(expected.as_str(), *s);
    }
    assert!(TransferStatus::from_str("unknown").is_err());
}

#[test]
fn test_transfer_history_new() {
    let th = TransferHistory::new(
        1,
        "file.txt".into(),
        "/remote/file.txt".into(),
        "/local/file.txt".into(),
        TransferDirection::Upload,
        1024,
    );
    assert_eq!(th.id, None);
    assert_eq!(th.host_id, 1);
    assert_eq!(th.transferred_size, 0);
    assert_eq!(th.status, TransferStatus::Pending);
    assert!(th.error_message.is_none());
    assert!(th.started_at.is_some());
}

#[test]
fn history_start_time_is_formatted() {
    let th = TransferHistory::new(1, "a".into(), "/r".into(), "/l".into(), TransferDirection::Download, 0);
    let started = th.started_at.unwrap();
    assert_eq!(started.len(), 19);
    assert_eq!(&started[4..5], "-");
    assert_eq!(&started[10..11], " ");
}

#[test]
fn test_resume_record_new() {
    let rr = ResumeRecord::new(
        "uuid-123".into(),
        1,
        "/remote/big.zip".into(),
        "/local/big.zip".into(),
        TransferDirection::Download,
        1_000_000,
    );
    assert_eq!(rr.transfer_id, "uuid-123");
    assert_eq!(rr.transferred_bytes, 0);
    assert!(rr.checksum.is_none());
}

#[test]
fn test_transfer_task_creation() {
    let task = TransferTask::new(
        1,
        "test.txt".to_string(),
        "/local/test.txt".to_string(),
        "/remote/test.txt".to_string(),
        "upload".to_string(),
        1024,
    );
    assert!(!task.id.is_empty());
    assert_eq!(task.host_id, 1);
    assert_eq!(task.filename, "test.txt");
    assert_eq!(task.file_size, 1024);
}

#[test]
fn test_transfer_task_unique_ids() {
    let task1 =
        TransferTask::new(1, "a.txt".into(), "/a".into(), "/a".into(), "upload".into(), 0);
    let task2 =
        TransferTask::new(1, "b.txt".into(), "/b".into(), "/b".into(), "upload".into(), 0);
    assert_ne!(task1.id, task2.id);
}

#[test]
fn task_ids_are_hyphenated_uuids() {
    let task = TransferTask::new(1, "a".into(), "/a".into(), "/a".into(), "upload".into(), 0);
    assert_eq!(task.id.len(), 36);
    assert_eq!(task.id.matches('-').count(), 4);
}

#[test]
fn task_direction_defaults_to_download() {
    let up = TransferTask::new(1, "a".into(), "/a".into(), "/a".into(), "upload".into(), 0);
    let down = TransferTask::new(1, "a".into(), "/a".into(), "/a".into(), "download".into(), 0);
    let other = TransferTask::new(1, "a".into(), "/a".into(), "/a".into(), "sideways".into(), 0);
    assert_eq!(up.transfer_direction(), TransferDirection::Upload);
    assert_eq!(down.transfer_direction(), TransferDirection::Download);
    assert_eq!(other.transfer_direction(), TransferDirection::Download);
}

#[test]
fn retry_repeats_the_recorded_transfer() {
    let mut h = TransferHistory::new(4, "f.bin".into(), "/r/f.bin".into(), "/l/f.bin".into(), TransferDirection::Download, 900);
    h.status = TransferStatus::Failed;
    let t = TransferTask::retry_of(&h);
    assert_eq!(t.host_id, 4);
    assert_eq!(t.filename, "f.bin");
    assert_eq!(t.remote_path, "/r/f.bin");
    assert_eq!(t.local_path, "/l/f.bin");
    assert_eq!(t.direction, "download");
    assert_eq!(t.transfer_direction(), TransferDirection::Download);
    assert_eq!(t.file_size, 900);
    assert_eq!(t.id.len(), 36);
}
