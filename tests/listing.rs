use dirlist::fs::{EntryKind, Error as FsError, RawEntry};
use dirlist::fs::list_files;
use dirlist::Error;

fn file(name: &str) -> RawEntry {
    RawEntry::Read { kind: EntryKind::RegularFile, name: Some(name.to_string()) }
}

fn dir(name: &str) -> RawEntry {
    RawEntry::Read { kind: EntryKind::NotRegularFile, name: Some(name.to_string()) }
}

fn sorted(mut v: Vec<String>) -> Vec<String> {
    v.sort();
    v
}

#[test]
fn two_files_and_a_subdirectory() {
    let r = list_files(Ok(vec![file("a.txt"), dir("sub"), file("b.txt")]));
    let names = r.unwrap();
    assert_eq!(sorted(names.clone()), vec!["a.txt".to_string(), "b.txt".to_string()]);
    assert!(!names.contains(&"sub".to_string()));
}

#[test]
fn enumeration_order_is_kept() {
    let r = list_files(Ok(vec![file("z"), file("m"), file("a")]));
    assert_eq!(r.unwrap(), vec!["z".to_string(), "m".to_string(), "a".to_string()]);
}

#[test]
fn empty_directory_has_no_files() {
    let r = list_files(Ok(vec![]));
    assert!(matches!(r, Err(Error::Fs(FsError::NoFilesFound))));
}

#[test]
fn only_a_subdirectory_has_no_files() {
    let r = list_files(Ok(vec![dir("sub")]));
    assert!(matches!(r, Err(Error::Fs(FsError::NoFilesFound))));
}

#[test]
fn only_skipped_entries_have_no_files() {
    let r = list_files(Ok(vec![
        RawEntry::Unreadable,
        RawEntry::Read { kind: EntryKind::Undetermined, name: Some("x".to_string()) },
        RawEntry::Read { kind: EntryKind::RegularFile, name: None },
        dir("d"),
    ]));
    assert!(matches!(r, Err(Error::Fs(FsError::NoFilesFound))));
}

#[test]
fn unreadable_untyped_and_non_text_entries_are_skipped() {
    let r = list_files(Ok(vec![
        RawEntry::Unreadable,
        file("keep.rs"),
        RawEntry::Read { kind: EntryKind::Undetermined, name: Some("odd".to_string()) },
        RawEntry::Read { kind: EntryKind::RegularFile, name: None },
        dir("link"),
    ]));
    assert_eq!(r.unwrap(), vec!["keep.rs".to_string()]);
}

#[test]
fn missing_directory_is_an_io_error() {
    let e = std::io::Error::new(std::io::ErrorKind::NotFound, "no such directory");
    let r = list_files(Err(e));
    match r {
        Err(Error::Io(e)) => assert_eq!(e.kind(), std::io::ErrorKind::NotFound),
        other => panic!("expected an I/O error, got {:?}", other),
    }
}

#[test]
fn path_to_a_file_is_an_io_error() {
    let e = std::io::Error::new(std::io::ErrorKind::Other, "not a directory");
    let r = list_files(Err(e));
    assert!(matches!(r, Err(Error::Io(_))));
}

#[test]
fn repeated_listing_has_the_same_names() {
    let first = list_files(Ok(vec![file("a"), dir("s"), file("b"), file("c")])).unwrap();
    let second = list_files(Ok(vec![file("c"), file("a"), dir("s"), file("b")])).unwrap();
    assert_eq!(sorted(first), sorted(second));
}

#[test]
fn duplicate_names_are_each_listed() {
    let r = list_files(Ok(vec![file("same"), file("same")]));
    assert_eq!(r.unwrap(), vec!["same".to_string(), "same".to_string()]);
}
