use record_linker::cli_helpers::dir_status;
use record_linker::cli_helpers::validate_dir;
use record_linker::cli_helpers::DirError;
use record_linker::file_iterator::classify_match;
use record_linker::file_iterator::FileIterator;
use record_linker::file_iterator::PathEntry;
use record_linker::token::random_string;

#[test]
fn dir_status_accepts_exactly_existing_directories() {
    assert_eq!(dir_status(true, true), Ok(()));
    assert_eq!(dir_status(true, false), Err(DirError::NotADirectory));
    assert_eq!(dir_status(false, false), Err(DirError::NotADirectory));
    assert_eq!(dir_status(false, true), Err(DirError::NotADirectory));
}

#[test]
fn validate_dir_accepts_the_current_directory() {
    assert_eq!(validate_dir("."), Ok(()));
}

#[test]
fn validate_dir_rejects_a_missing_path() {
    assert_eq!(
        validate_dir("./no_such_directory_here_at_all"),
        Err(DirError::NotADirectory)
    );
}

#[test]
fn malformed_pattern_fails_before_any_entry() {
    assert!(FileIterator::new("a[").is_err());
}

#[test]
fn only_regular_files_become_entries() {
    match classify_match(true, "/x/file.txt".to_string()) {
        PathEntry::File(p) => assert_eq!(p, "/x/file.txt"),
        _ => panic!("a regular file must be handed out"),
    }
    assert!(matches!(
        classify_match(false, "/x/dir".to_string()),
        PathEntry::Skipped
    ));
}

#[test]
fn pattern_matching_nothing_is_exhausted_at_once() {
    let mut it = FileIterator::new("./*.no_such_extension_anywhere").unwrap();
    assert!(matches!(it.next(), PathEntry::Exhausted));
}

#[test]
fn random_string_has_the_requested_length_and_alphabet() {
    let s = random_string(6);
    assert_eq!(s.chars().count(), 6);
    assert!(s
        .chars()
        .all(|c| (('0'..'9').contains(&c)) || (('a'..'z').contains(&c))));
    let other = random_string(0);
    assert_eq!(other, "");
}
