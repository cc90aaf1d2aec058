use jj_backend::errors::JJError;
use jj_backend::parse::parse_jj_log;
use jj_backend::record::JJChange;

#[test]
fn single_block_yields_one_record() {
    let input = "a1\nc1\nfix bug\nAlice\n2024-01-01\n---\n";
    let records = parse_jj_log(input).unwrap();
    assert_eq!(records.len(), 1);
    assert_eq!(records[0].change_id, "a1");
    assert_eq!(records[0].commit_id, "c1");
    assert_eq!(records[0].description, "fix bug");
    assert_eq!(records[0].author, "Alice");
    assert_eq!(records[0].timestamp, "2024-01-01");
}

#[test]
fn blank_description_and_author_get_placeholders() {
    let input = "a1\nc1\n\n\n2024-01-01\n---\n";
    let records = parse_jj_log(input).unwrap();
    assert_eq!(records.len(), 1);
    assert_eq!(records[0].change_id, "a1");
    assert_eq!(records[0].commit_id, "c1");
    assert_eq!(records[0].description, "(no description)");
    assert_eq!(records[0].author, "(unknown)");
    assert_eq!(records[0].timestamp, "2024-01-01");
}

#[test]
fn blocks_yield_records_in_input_order() {
    let input = "a1\nc1\nfirst\nAlice\n2024-01-01\n---\na2\nc2\nsecond\nBob\n2024-01-02\n---\n";
    let records = parse_jj_log(input).unwrap();
    assert_eq!(records.len(), 2);
    assert_eq!(records[0].change_id, "a1");
    assert_eq!(records[0].description, "first");
    assert_eq!(records[1].change_id, "a2");
    assert_eq!(records[1].description, "second");
    assert_eq!(records[1].author, "Bob");
}

#[test]
fn short_block_is_dropped_and_parsing_continues() {
    let input = "only\nthree\nlines\n---\na2\nc2\nkept\nBob\n2024-01-02\n---\n";
    let records = parse_jj_log(input).unwrap();
    assert_eq!(records.len(), 1);
    assert_eq!(records[0].change_id, "a2");
    assert_eq!(records[0].description, "kept");
}

#[test]
fn block_with_empty_change_id_is_dropped() {
    let input = "  \nc1\ndesc\nAlice\n2024-01-01\n---\na2\nc2\nkept\nBob\n2024-01-02\n---\n";
    let records = parse_jj_log(input).unwrap();
    assert_eq!(records.len(), 1);
    assert_eq!(records[0].change_id, "a2");
}

#[test]
fn block_with_empty_commit_id_is_dropped() {
    let input = "a1\n \ndesc\nAlice\n2024-01-01\n---\na2\nc2\nkept\nBob\n2024-01-02\n---\n";
    let records = parse_jj_log(input).unwrap();
    assert_eq!(records.len(), 1);
    assert_eq!(records[0].commit_id, "c2");
}

#[test]
fn empty_input_is_success_with_no_records() {
    let records = parse_jj_log("").unwrap();
    assert_eq!(records.len(), 0);
}

#[test]
fn whitespace_only_input_is_success_with_no_records() {
    let records = parse_jj_log("  \n\t \n  ").unwrap();
    assert_eq!(records.len(), 0);
}

#[test]
fn only_malformed_blocks_is_no_valid_changes() {
    let result = parse_jj_log("garbage\n---\nmore garbage\n---\n");
    assert_eq!(result.unwrap_err(), JJError::NoValidChanges);
}

#[test]
fn five_blank_fields_is_no_valid_changes() {
    let result = parse_jj_log(" \n \n \n \n \n---\n");
    assert_eq!(result.unwrap_err(), JJError::NoValidChanges);
}

#[test]
fn reparsing_the_same_text_yields_an_identical_sequence() {
    let input = "a1\nc1\nfix bug\nAlice\n2024-01-01\n---\nshort\n---\na2\nc2\n\n\nts\n---\n";
    let first: Vec<JJChange> = parse_jj_log(input).unwrap();
    let second: Vec<JJChange> = parse_jj_log(input).unwrap();
    assert_eq!(first, second);
}

#[test]
fn fields_are_individually_trimmed() {
    let input = "  a1 \n\tc1\t\n  spaced out  \n Alice \n 2024-01-01 \n---\n";
    let records = parse_jj_log(input).unwrap();
    assert_eq!(records[0].change_id, "a1");
    assert_eq!(records[0].commit_id, "c1");
    assert_eq!(records[0].description, "spaced out");
    assert_eq!(records[0].author, "Alice");
    assert_eq!(records[0].timestamp, "2024-01-01");
}

#[test]
fn lines_beyond_the_fifth_are_ignored() {
    let input = "a1\nc1\ndesc\nAlice\n2024-01-01\nextra line\nanother\n---\n";
    let records = parse_jj_log(input).unwrap();
    assert_eq!(records.len(), 1);
    assert_eq!(records[0].timestamp, "2024-01-01");
}

#[test]
fn final_block_without_separator_still_counts() {
    let input = "a1\nc1\ndesc\nAlice\n2024-01-01";
    let records = parse_jj_log(input).unwrap();
    assert_eq!(records.len(), 1);
    assert_eq!(records[0].change_id, "a1");
}

#[test]
fn carriage_returns_are_trimmed_from_fields() {
    let input = "a1\r\nc1\r\ndesc\r\nAlice\r\n2024-01-01\r\n---\n";
    let records = parse_jj_log(input).unwrap();
    assert_eq!(records.len(), 1);
    assert_eq!(records[0].change_id, "a1");
    assert_eq!(records[0].timestamp, "2024-01-01");
}
