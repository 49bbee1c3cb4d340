use std::path::PathBuf;
use transfer_core::model::{Host, Protocol};
use transfer_core::validation::{safe_join, sanitize_filename, validate_host, MAX_NAME_LEN};

fn valid_host() -> Host {
    Host {
        id: None,
        name: "test".into(),
        host: "192.168.1.1".into(),
        port: 22,
        protocol: Protocol::Sftp,
        username: "user".into(),
        password: Some("pass".into()),
        key_path: None,
        created_at: None,
        updated_at: None,
    }
}

#[test]
fn test_validate_host_ok() {
    assert!(validate_host(&valid_host()).is_ok());
}

#[test]
fn test_validate_name_empty() {
    let mut h = valid_host();
    h.name = "".into();
    assert!(validate_host(&h).is_err());
    h.name = "   ".into();
    assert!(validate_host(&h).is_err());
}

#[test]
fn test_validate_name_too_long() {
    let mut h = valid_host();
    h.name = "a".repeat(MAX_NAME_LEN + 1);
    assert!(validate_host(&h).is_err());
}

#[test]
fn name_limit_counts_bytes_after_trimming() {
    let mut h = valid_host();
    h.name = format!("  {}  ", "a".repeat(MAX_NAME_LEN));
    assert!(validate_host(&h).is_ok());
    h.name = "\u{e9}".repeat(65);
    assert_eq!(validate_host(&h).unwrap_err(), "Host name must not exceed 128 bytes");
}

#[test]
fn test_validate_host_empty() {
    let mut h = valid_host();
    h.host = "".into();
    assert!(validate_host(&h).is_err());
}

#[test]
fn test_validate_host_file_protocol() {
    let mut h = valid_host();
    h.host = "file:///etc/passwd".into();
    assert!(validate_host(&h).is_err());
}

#[test]
fn test_validate_port_zero() {
    let mut h = valid_host();
    h.port = 0;
    assert!(validate_host(&h).is_err());
}

#[test]
fn test_validate_username_empty() {
    let mut h = valid_host();
    h.username = "".into();
    assert!(validate_host(&h).is_err());
}

#[test]
fn test_validate_key_path_traversal() {
    let mut h = valid_host();
    h.key_path = Some("/home/user/.ssh/../../../etc/passwd".into());
    assert!(validate_host(&h).is_err());
}

#[test]
fn key_path_must_be_absolute() {
    let mut h = valid_host();
    h.key_path = Some("id_rsa".into());
    assert_eq!(validate_host(&h).unwrap_err(), "Key path must be absolute");
    h.key_path = Some(" /home/user/.ssh/id_rsa ".into());
    assert!(validate_host(&h).is_ok());
}

#[test]
fn first_problem_is_reported() {
    let mut h = valid_host();
    h.name = "".into();
    h.port = 0;
    assert_eq!(validate_host(&h).unwrap_err(), "Host name must not be empty");
    let mut h = valid_host();
    h.password = Some("p".repeat(513));
    assert_eq!(validate_host(&h).unwrap_err(), "Password must not exceed 512 bytes");
}

#[test]
fn test_sanitize_filename_ok() {
    assert_eq!(sanitize_filename("a.txt").unwrap(), "a.txt");
    assert_eq!(sanitize_filename("my file").unwrap(), "my file");
}

#[test]
fn test_sanitize_filename_rejects_traversal() {
    assert!(sanitize_filename("..").is_err());
    assert!(sanitize_filename("../etc").is_err());
    assert!(sanitize_filename("a/b").is_err());
    assert!(sanitize_filename("a\\b").is_err());
    assert!(sanitize_filename(".").is_err());
    assert!(sanitize_filename("").is_err());
}

#[test]
fn sanitize_messages() {
    assert_eq!(sanitize_filename("").unwrap_err(), "File name must not be empty");
    assert_eq!(sanitize_filename("a/b").unwrap_err(), "Invalid file name: a/b");
    assert!(sanitize_filename(".hidden").is_ok());
}

#[test]
fn test_safe_join() {
    let base = PathBuf::from("/tmp/ftp_test");
    let result = safe_join(&base, "file.txt").unwrap();
    assert_eq!(result, PathBuf::from("/tmp/ftp_test/file.txt"));

    assert!(safe_join(&base, "../etc").is_err());
    assert!(safe_join(&base, "..").is_err());
}
