use jj_shell::args::{
    change_id_args, clone_args, describe_args, diff_args, init_args, log_args, op_log_args,
    remote_list_args, restore_args, status_args,
};
use jj_shell::command::{
    command_outcome, find_deep_link, get_jj_diff, jj_git_clone, jj_init_repo,
    jj_restore_operation, CommandResult,
};
use jj_shell::remotes::get_repo_remote_urls;
use jj_shell::watcher::{
    accept_event, any_path_ignored, path_is_ignored, process_event, watch_repo, DebounceState,
    WatcherState,
};

fn ok_result(stdout: &str) -> CommandResult {
    CommandResult { success: true, stdout: stdout.to_string(), stderr: String::new() }
}

fn failed_result(stderr: &str) -> CommandResult {
    CommandResult { success: false, stdout: "ignored".to_string(), stderr: stderr.to_string() }
}

#[test]
fn outcome_success_carries_stdout_only() {
    let res = command_outcome(&ok_result("payload"));
    assert_eq!(res, Ok("payload".to_string()));
}

#[test]
fn outcome_failure_carries_stderr_only() {
    let res = command_outcome(&failed_result("bad"));
    assert_eq!(res, Err("bad".to_string()));
}

#[test]
fn clone_outcome_formats_message() {
    let url = "https://example.org/r.git".to_string();
    let path = "/tmp/r".to_string();
    let res = jj_git_clone(&url, &path, &ok_result(""));
    assert_eq!(
        res,
        Ok("Successfully cloned https://example.org/r.git to /tmp/r".to_string())
    );
    let res = jj_git_clone(&url, &path, &failed_result("no host"));
    assert_eq!(res, Err("no host".to_string()));
}

#[test]
fn init_outcome_formats_message() {
    let path = "/tmp/r".to_string();
    assert_eq!(
        jj_init_repo(&path, &ok_result("")),
        Ok("Successfully initialized jj repo at /tmp/r".to_string())
    );
    assert_eq!(jj_init_repo(&path, &failed_result("denied")), Err("denied".to_string()));
}

#[test]
fn restore_outcome_messages_and_fallback() {
    let id = "op77".to_string();
    assert_eq!(
        jj_restore_operation(&id, true, None),
        Ok("Successfully restored repository to operation op77".to_string())
    );
    assert_eq!(
        jj_restore_operation(&id, false, Some("gone".to_string())),
        Err("gone".to_string())
    );
    assert_eq!(
        jj_restore_operation(&id, false, None),
        Err("Failed to undo operation: Unknown error".to_string())
    );
}

#[test]
fn diff_outcome_and_fallback() {
    assert_eq!(
        get_jj_diff(true, "diff text".to_string(), None),
        Ok("diff text".to_string())
    );
    assert_eq!(
        get_jj_diff(false, String::new(), Some("oops".to_string())),
        Err("oops".to_string())
    );
    assert_eq!(
        get_jj_diff(false, String::new(), None),
        Err("Failed to get diff: Unknown error".to_string())
    );
}

#[test]
fn remote_urls_outcome_follows_success() {
    let ok = get_repo_remote_urls(&ok_result("origin https://example.org/a.git\n")).unwrap();
    assert_eq!(ok, vec!["https://example.org/a.git"]);
    let err = get_repo_remote_urls(&failed_result("no repo")).unwrap_err();
    assert_eq!(err, "no repo");
}

#[test]
fn watch_same_path_twice_is_a_noop() {
    let mut state = WatcherState { current_path: None, generation: 0 };
    let first = watch_repo(&mut state, "/repo/a".to_string());
    assert!(!first.teardown_old);
    assert!(first.setup_new);
    let second = watch_repo(&mut state, "/repo/a".to_string());
    assert!(!second.teardown_old);
    assert!(!second.setup_new);
    assert_eq!(state.current_path.as_deref(), Some("/repo/a"));
    assert_eq!(second.generation, first.generation);
}

#[test]
fn watch_replacement_tears_down_then_sets_up() {
    let mut state = WatcherState { current_path: None, generation: 0 };
    let first = watch_repo(&mut state, "/repo/a".to_string());
    let second = watch_repo(&mut state, "/repo/b".to_string());
    assert!(second.teardown_old);
    assert!(second.setup_new);
    assert_eq!(state.current_path.as_deref(), Some("/repo/b"));
    assert!(accept_event(&state, second.generation));
    assert!(!accept_event(&state, first.generation));
}

#[test]
fn debounce_emits_at_burst_start_and_after_window() {
    let mut deb = DebounceState { last_emit: None };
    let paths = vec!["/repo/a/file.rs".to_string()];
    let emitted: Vec<bool> = [0u64, 100, 200, 900]
        .iter()
        .map(|t| process_event(&mut deb, false, true, false, &paths, *t, 500))
        .collect();
    assert_eq!(emitted, vec![true, false, false, true]);
}

#[test]
fn debounce_window_is_strict() {
    let mut deb = DebounceState { last_emit: Some(0) };
    let paths = vec!["/repo/a/file.rs".to_string()];
    assert!(!process_event(&mut deb, true, false, false, &paths, 500, 500));
    assert!(process_event(&mut deb, true, false, false, &paths, 501, 500));
}

#[test]
fn irrelevant_kind_is_dropped() {
    let mut deb = DebounceState { last_emit: None };
    let paths = vec!["/repo/a/file.rs".to_string()];
    assert!(!process_event(&mut deb, false, false, false, &paths, 0, 500));
    assert_eq!(deb.last_emit, None);
}

#[test]
fn metadata_only_event_is_never_notified() {
    let mut deb = DebounceState { last_emit: None };
    let paths = vec!["/repo/a/.jj/op_store/x".to_string()];
    assert!(!process_event(&mut deb, true, true, true, &paths, 0, 500));
    assert_eq!(deb.last_emit, None);
}

#[test]
fn ignored_path_patterns() {
    assert!(path_is_ignored("/repo/.jj/store"));
    assert!(path_is_ignored("/repo/.git/HEAD"));
    assert!(path_is_ignored("/repo/node_modules/pkg/i.js"));
    assert!(path_is_ignored("/repo/.jj"));
    assert!(path_is_ignored("/repo/.git"));
    assert!(!path_is_ignored("/repo/src/main.rs"));
    assert!(!path_is_ignored("/repo/jj/notes.txt"));
}

#[test]
fn event_with_one_internal_path_is_ignored() {
    let paths = vec!["/repo/src/a.rs".to_string(), "/repo/.jj/x".to_string()];
    assert!(any_path_ignored(&paths));
    let clean = vec!["/repo/src/a.rs".to_string()];
    assert!(!any_path_ignored(&clean));
}

#[test]
fn deep_link_takes_first_scheme_argument() {
    let args = vec![
        "/usr/bin/shell".to_string(),
        "--flag".to_string(),
        "jujutsu://open/repo".to_string(),
        "jujutsu://second".to_string(),
    ];
    assert_eq!(find_deep_link(&args), Some("jujutsu://open/repo".to_string()));
    let none = vec!["/usr/bin/shell".to_string()];
    assert_eq!(find_deep_link(&none), None);
}

#[test]
fn builders_produce_documented_invocations() {
    let url = "u".to_string();
    let path = "p".to_string();
    assert_eq!(clone_args(&url, &path), vec!["git", "clone", "u", "p"]);
    assert_eq!(init_args(), vec!["git", "init", "--colocated"]);
    assert_eq!(remote_list_args(), vec!["git", "remote", "list"]);
    assert_eq!(status_args(), vec!["status"]);
    assert_eq!(change_id_args(), vec!["log", "-r", "@", "-T", "change_id"]);
    assert_eq!(restore_args(&"op1".to_string()), vec!["op", "restore", "op1"]);
    assert_eq!(diff_args(&"f.rs".to_string()), vec!["diff", "--git", "f.rs"]);
    let op = op_log_args();
    assert_eq!(op[0..4].to_vec(), vec!["op", "log", "--no-graph", "--template"]);
    assert!(op[4].contains("@@@"));
    let log = log_args(None);
    assert_eq!(log[2], "all()");
    assert_eq!(log[5], "--no-graph");
    let log = log_args(Some("@".to_string()));
    assert_eq!(log[2], "@");
    assert_eq!(describe_args(None), vec!["describe"]);
    assert_eq!(
        describe_args(Some("msg".to_string())),
        vec!["describe", "-m", "msg"]
    );
}
