use jj_shell::command::CommandResult;
use jj_shell::commits::{jj_get_log, parse_commits};
use jj_shell::oplog::jj_get_operation_log;
use jj_shell::oplog::parse_operations;
use jj_shell::remotes::parse_remote_urls;
use jj_shell::status::{get_jj_status, parse_status_files};

fn ok_result(stdout: &str) -> CommandResult {
    CommandResult { success: true, stdout: stdout.to_string(), stderr: String::new() }
}

fn failed_result(stderr: &str) -> CommandResult {
    CommandResult { success: false, stdout: String::new(), stderr: stderr.to_string() }
}

#[test]
fn status_line_in_changes_section_is_modified() {
    let files = parse_status_files("Working copy changes:\nM  src/foo.rs\n");
    assert_eq!(files.len(), 1);
    assert_eq!(files[0].path, "src/foo.rs");
    assert_eq!(files[0].status, "Modified");
}

#[test]
fn status_line_in_conflicts_section_is_conflicted() {
    let files = parse_status_files("Conflicted files:\nM  src/foo.rs\n");
    assert_eq!(files.len(), 1);
    assert_eq!(files[0].path, "M  src/foo.rs");
    assert_eq!(files[0].status, "Conflicted");
}

#[test]
fn status_first_tokens_select_status_words() {
    let out = "Working copy changes:\nA  new.rs\nM  mod.rs\nD  gone.rs\nR  odd.rs\n";
    let files = parse_status_files(out);
    let statuses: Vec<&str> = files.iter().map(|f| f.status.as_str()).collect();
    assert_eq!(statuses, vec!["Added", "Modified", "Removed", "Modified"]);
    assert_eq!(files[0].path, "new.rs");
}

#[test]
fn status_path_with_spaces_is_rejoined() {
    let files = parse_status_files("Working copy changes:\nM  a file.txt\n");
    assert_eq!(files.len(), 1);
    assert_eq!(files[0].path, "a file.txt");
}

#[test]
fn status_other_colon_line_ends_section() {
    let out = "Working copy changes:\nM  a.rs\nSomething else:\nM  b.rs\n";
    let files = parse_status_files(out);
    assert_eq!(files.len(), 1);
    assert_eq!(files[0].path, "a.rs");
}

#[test]
fn status_lines_outside_any_section_are_ignored() {
    let files = parse_status_files("M  a.rs\nThe working copy has no changes.\n");
    assert_eq!(files.len(), 0);
}

#[test]
fn status_empty_output_yields_no_files() {
    let files = parse_status_files("");
    assert_eq!(files.len(), 0);
}

#[test]
fn status_change_line_with_one_token_is_skipped() {
    let files = parse_status_files("Working copy changes:\nM\n");
    assert_eq!(files.len(), 0);
}

#[test]
fn get_jj_status_trims_change_id() {
    let id = ok_result("pqrs\n");
    let st = ok_result("Working copy changes:\nM  src/foo.rs\n");
    let cs = get_jj_status(&id, &st).unwrap();
    assert_eq!(cs.change_id, "pqrs");
    assert_eq!(cs.files.len(), 1);
    assert_eq!(cs.files[0].path, "src/foo.rs");
}

#[test]
fn get_jj_status_unknown_change_id_on_failed_id_command() {
    let id = failed_result("boom");
    let st = ok_result("");
    let cs = get_jj_status(&id, &st).unwrap();
    assert_eq!(cs.change_id, "unknown");
}

#[test]
fn get_jj_status_fails_with_status_stderr() {
    let id = ok_result("pqrs\n");
    let st = failed_result("not a repo");
    let err = get_jj_status(&id, &st).unwrap_err();
    assert_eq!(err, "not a repo");
}

#[test]
fn remote_urls_take_second_token() {
    let urls = parse_remote_urls("origin https://example.org/repo.git\nupstream git@example.org:r\n");
    assert_eq!(urls, vec!["https://example.org/repo.git", "git@example.org:r"]);
}

#[test]
fn remote_urls_skip_short_lines() {
    let urls = parse_remote_urls("origin\n\nmirror https://example.org/m.git extra\n");
    assert_eq!(urls, vec!["https://example.org/m.git"]);
}

#[test]
fn operations_split_on_separator() {
    let out = "op1\n2024-01-02 03:04:05\nalice\nfirst op\n@@@\nop2\n2024-01-02 03:04:06\nbob\nsecond op\n@@@\n";
    let ops = parse_operations(out);
    assert_eq!(ops.len(), 2);
    assert_eq!(ops[0].id, "op1");
    assert_eq!(ops[0].time, "2024-01-02 03:04:05");
    assert_eq!(ops[0].user, "alice");
    assert_eq!(ops[0].description, "first op");
    assert_eq!(ops[1].id, "op2");
    assert_eq!(ops[1].user, "bob");
}

#[test]
fn operation_description_keeps_extra_lines() {
    let out = "op1\ntime\nuser\nline one\nline two\n@@@";
    let ops = parse_operations(out);
    assert_eq!(ops.len(), 1);
    assert_eq!(ops[0].description, "line one\nline two");
}

#[test]
fn operation_record_with_too_few_lines_is_skipped() {
    let out = "op1\ntime\nuser\n@@@\nop2\ntime2\nuser2\ndesc2\n@@@";
    let ops = parse_operations(out);
    assert_eq!(ops.len(), 1);
    assert_eq!(ops[0].id, "op2");
}

#[test]
fn operations_empty_output_yields_none() {
    assert_eq!(parse_operations("").len(), 0);
    assert_eq!(parse_operations("   \n").len(), 0);
}

fn record(id: &str) -> String {
    format!(
        "{{ \"id\": \"{id}\", \"changeId\": \"c-{id}\", \"author\": \"Alice\", \"email\": \"a@example.org\", \"date\": \"2024-01-02 03:04:05\", \"description\": \"work on {id}\", \"isCurrent\": false, \"isImmutable\": true, \"isConflicted\": false, \"parentIds\": [\"p1\",\"p2\"], \"bookmarks\": [] }}"
    )
}

#[test]
fn commit_records_parse_in_order() {
    let out = format!("@  {}@@@\no  {}@@@\n~  {}@@@\n", record("r1"), record("r2"), record("r3"));
    let commits = parse_commits(&out);
    assert_eq!(commits.len(), 3);
    assert_eq!(commits[0].id, "r1");
    assert_eq!(commits[1].id, "r2");
    assert_eq!(commits[2].id, "r3");
    assert_eq!(commits[0].change_id, "c-r1");
    assert_eq!(commits[0].author, "Alice");
    assert_eq!(commits[0].email, "a@example.org");
    assert_eq!(commits[0].date, "2024-01-02 03:04:05");
    assert_eq!(commits[0].description, "work on r1");
    assert!(!commits[0].is_current);
    assert!(commits[0].is_immutable);
    assert!(!commits[0].is_conflicted);
    assert_eq!(commits[0].parent_ids, vec!["p1", "p2"]);
    assert!(commits[0].bookmarks.is_empty());
}

#[test]
fn one_malformed_commit_record_is_skipped() {
    let out = format!("{}@@@{}@@@{}@@@", record("r1"), "{ \"id\": \"broken\"", record("r3"));
    let commits = parse_commits(&out);
    assert_eq!(commits.len(), 2);
    assert_eq!(commits[0].id, "r1");
    assert_eq!(commits[1].id, "r3");
}

#[test]
fn commit_record_missing_member_is_skipped() {
    let nearly = "{ \"id\": \"x\", \"changeId\": \"c\", \"author\": \"A\", \"email\": \"e\", \"date\": \"d\", \"description\": \"s\", \"isCurrent\": true, \"isImmutable\": false, \"isConflicted\": false, \"parentIds\": [] }";
    let out = format!("{nearly}@@@");
    assert_eq!(parse_commits(&out).len(), 0);
}

#[test]
fn commit_record_with_escapes_decodes_them() {
    let out = "{ \"id\": \"a\\\"b\", \"changeId\": \"c\", \"author\": \"A\", \"email\": \"e\", \"date\": \"d\", \"description\": \"tab\\there\", \"isCurrent\": true, \"isImmutable\": false, \"isConflicted\": false, \"parentIds\": [], \"bookmarks\": [\"main\"] }@@@";
    let commits = parse_commits(out);
    assert_eq!(commits.len(), 1);
    assert_eq!(commits[0].id, "a\"b");
    assert_eq!(commits[0].description, "tab\there");
    assert_eq!(commits[0].bookmarks, vec!["main"]);
}

#[test]
fn operation_log_outcome_follows_success() {
    let ops = jj_get_operation_log(&ok_result("a\nb\nc\nd\n@@@")).unwrap();
    assert_eq!(ops.len(), 1);
    let err = jj_get_operation_log(&failed_result("no repo")).unwrap_err();
    assert_eq!(err, "no repo");
}

#[test]
fn commit_log_outcome_follows_success() {
    let commits = jj_get_log(&ok_result(&format!("{}@@@", record("r9")))).unwrap();
    assert_eq!(commits.len(), 1);
    assert_eq!(commits[0].id, "r9");
    let err = jj_get_log(&failed_result("bad revset")).unwrap_err();
    assert_eq!(err, "bad revset");
}

#[test]
fn commit_stream_without_records_is_empty() {
    assert_eq!(parse_commits("").len(), 0);
    assert_eq!(parse_commits("@@@").len(), 0);
    assert_eq!(parse_commits("no braces here@@@").len(), 0);
}
