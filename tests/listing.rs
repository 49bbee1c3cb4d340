use transfer_core::listing::{order_listing, parse_ftp_list_entry, parse_size, remote_child, split_words};
use transfer_core::model::FileEntry;

#[test]
fn test_parse_ftp_list_entry_file() {
    let line = "-rw-r--r--   1 user group   1024 Jan 01 12:00 test.txt";
    let entry = parse_ftp_list_entry(line, "/home").unwrap();
    assert_eq!(entry.name, "test.txt");
    assert_eq!(entry.path, "/home/test.txt");
    assert!(!entry.is_dir);
    assert_eq!(entry.size, 1024);
}

#[test]
fn test_parse_ftp_list_entry_dir() {
    let line = "drwxr-xr-x   2 user group   4096 Jan 01 12:00 subdir";
    let entry = parse_ftp_list_entry(line, "/home/").unwrap();
    assert_eq!(entry.name, "subdir");
    assert_eq!(entry.path, "/home/subdir");
    assert!(entry.is_dir);
}

#[test]
fn test_parse_ftp_list_entry_skips_dots() {
    let line = "drwxr-xr-x   2 user group   4096 Jan 01 12:00 .";
    assert!(parse_ftp_list_entry(line, "/").is_none());

    let line = "drwxr-xr-x   2 user group   4096 Jan 01 12:00 ..";
    assert!(parse_ftp_list_entry(line, "/").is_none());
}

#[test]
fn test_parse_ftp_list_entry_invalid() {
    let line = "short line";
    assert!(parse_ftp_list_entry(line, "/").is_none());
}

#[test]
fn test_parse_ftp_list_entry_filename_with_spaces() {
    let line = "-rw-r--r--   1 user group   2048 Feb 15 09:30 my file name.txt";
    let entry = parse_ftp_list_entry(line, "/data").unwrap();
    assert_eq!(entry.name, "my file name.txt");
    assert_eq!(entry.path, "/data/my file name.txt");
    assert_eq!(entry.size, 2048);
}

#[test]
fn listing_line_gives_date_field() {
    let line = "-rw-r--r--   1 user group   1024 Jan 01 12:00 test.txt";
    let entry = parse_ftp_list_entry(line, "/home").unwrap();
    assert_eq!(entry.modified.as_deref(), Some("Jan 01 12:00"));
}

#[test]
fn listing_line_of_eight_words_is_skipped() {
    assert!(parse_ftp_list_entry("-rw-r--r-- 1 user group 1024 Jan 01 12:00", "/").is_none());
}

#[test]
fn listing_name_runs_of_spaces_collapse() {
    let entry = parse_ftp_list_entry("-rw-r--r-- 1 u g 5 Jan 01 12:00 a    b\t", "/x").unwrap();
    assert_eq!(entry.name, "a b");
    assert_eq!(entry.path, "/x/a b");
}

#[test]
fn listing_bad_size_reads_as_zero() {
    let entry = parse_ftp_list_entry("-rw-r--r-- 1 u g big Jan 01 12:00 f", "/").unwrap();
    assert_eq!(entry.size, 0);
    assert_eq!(entry.path, "/f");
}

#[test]
fn listing_dot_file_is_kept() {
    let entry = parse_ftp_list_entry("-rw-r--r-- 1 u g 7 Jan 01 12:00 .profile", "/home").unwrap();
    assert_eq!(entry.name, ".profile");
}

#[test]
fn words_split_on_unicode_whitespace() {
    let v: Vec<char> = "a\u{3000}b  c\n".chars().collect();
    let words = split_words(&v);
    let words: Vec<String> = words.iter().map(|w| w.iter().collect()).collect();
    assert_eq!(words, vec!["a", "b", "c"]);
    assert!(split_words(&Vec::new()).is_empty());
}

#[test]
fn size_field_follows_integer_parsing() {
    let f = |s: &str| parse_size(&s.chars().collect());
    assert_eq!(f("0"), Some(0));
    assert_eq!(f("+12"), Some(12));
    assert_eq!(f("18446744073709551615"), Some(u64::MAX));
    assert_eq!(f("18446744073709551616"), None);
    assert_eq!(f(""), None);
    assert_eq!(f("+"), None);
    assert_eq!(f("-1"), None);
    assert_eq!(f("12a"), None);
}

#[test]
fn remote_child_trims_trailing_slashes() {
    assert_eq!(remote_child("/remote/dir/", "f.txt"), "/remote/dir/f.txt");
    assert_eq!(remote_child("/remote/dir", "f.txt"), "/remote/dir/f.txt");
    assert_eq!(remote_child("/", "f.txt"), "/f.txt");
    assert_eq!(remote_child("/a//", "b"), "/a/b");
}

fn entry(name: &str, is_dir: bool) -> FileEntry {
    FileEntry { name: name.into(), path: format!("/x/{}", name), is_dir, size: 0, modified: None }
}

#[test]
fn listing_orders_directories_first_then_names() {
    let ordered = order_listing(vec![
        entry("b", false),
        entry("z", true),
        entry("\u{e9}t\u{e9}", false),
        entry("a", false),
        entry("ab", false),
        entry("c", true),
        entry("Z", false),
    ]);
    let names: Vec<&str> = ordered.iter().map(|e| e.name.as_str()).collect();
    assert_eq!(names, vec!["c", "z", "Z", "a", "ab", "b", "\u{e9}t\u{e9}"]);
    assert!(order_listing(Vec::new()).is_empty());
}
