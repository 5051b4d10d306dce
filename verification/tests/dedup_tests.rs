use record_linker::dedup::dedup_lines;
use record_linker::dedup::DedupError;
use record_linker::records::format_record;
use record_linker::records::format_record_line;
use record_linker::records::parse_record_line;

fn lines(ls: &[&str]) -> Vec<String> {
    ls.iter().map(|s| s.to_string()).collect()
}

#[test]
fn first_seen_path_wins() {
    let input = lines(&["h1,pathA", "h1,pathB"]);
    let out = dedup_lines(&input).unwrap();
    assert_eq!(out.lines, vec!["h1,pathA".to_string()]);
    assert_eq!(out.unique_count, 1);
    assert_eq!(out.total_count, 2);
}

#[test]
fn two_input_files_collapse_to_first_paths() {
    // All lines of the first input file, then all lines of the second.
    let input = lines(&["d1,/x/1.txt", "d2,/x/2.txt", "d1,/x/3.txt", "d2,/x/4.txt"]);
    let out = dedup_lines(&input).unwrap();
    assert_eq!(out.unique_count, 2);
    assert_eq!(out.total_count, 4);
    assert_eq!(out.lines.len(), 2);
    assert!(out.lines.contains(&"d1,/x/1.txt".to_string()));
    assert!(out.lines.contains(&"d2,/x/2.txt".to_string()));
}

#[test]
fn dedup_is_idempotent_on_its_own_output() {
    let input = lines(&["d1,/x/1.txt", "d2,/x/2.txt", "d1,/x/3.txt", "d2,/x/4.txt"]);
    let once = dedup_lines(&input).unwrap();
    let twice = dedup_lines(&once.lines).unwrap();
    assert_eq!(once.lines, twice.lines);
    assert_eq!(twice.unique_count, twice.total_count);
}

#[test]
fn single_path_digest_degenerates_to_itself() {
    let input = lines(&["h9,/only/path"]);
    let out = dedup_lines(&input).unwrap();
    assert_eq!(out.lines, vec!["h9,/only/path".to_string()]);
    assert_eq!(out.unique_count, 1);
    assert_eq!(out.total_count, 1);
}

#[test]
fn empty_input_yields_empty_output_and_zero_counts() {
    let input: Vec<String> = Vec::new();
    let out = dedup_lines(&input).unwrap();
    assert!(out.lines.is_empty());
    assert_eq!(out.unique_count, 0);
    assert_eq!(out.total_count, 0);
}

#[test]
fn line_without_comma_is_fatal() {
    let input = lines(&["h1,ok", "nocomma"]);
    let err = dedup_lines(&input).unwrap_err();
    assert_eq!(err, DedupError::MalformedLine { line_index: 1 });
}

#[test]
fn line_with_two_commas_is_fatal() {
    let input = lines(&["a,b,c"]);
    let err = dedup_lines(&input).unwrap_err();
    assert_eq!(err, DedupError::MalformedLine { line_index: 0 });
}

#[test]
fn parse_record_line_splits_on_the_only_comma() {
    let parsed = parse_record_line("d1,/x/1.txt").unwrap();
    assert_eq!(parsed.0, "d1");
    assert_eq!(parsed.1, "/x/1.txt");
    assert!(parse_record_line("nocomma").is_none());
    assert!(parse_record_line("a,b,c").is_none());
    let empty_fields = parse_record_line(",").unwrap();
    assert_eq!(empty_fields.0, "");
    assert_eq!(empty_fields.1, "");
}

#[test]
fn format_record_writes_one_comma_separated_pair() {
    assert_eq!(format_record("d1", "/x/1.txt"), "d1,/x/1.txt");
    assert_eq!(format_record_line("d1", "/x/1.txt"), "d1,/x/1.txt\n");
}
