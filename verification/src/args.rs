//! The argument lists the shell passes to the `jj` binary, one builder per
//! invocation. The shell spawns `jj` with exactly these arguments; the
//! templates drive the output formats that the parsing modules understand.

use vstd::prelude::*;

verus! {

/// The template of the operation-log invocation: id, start time, user and
/// description on lines of their own, then the record separator.
pub open spec fn op_log_template_spec() -> Seq<char> {
    "id ++ \"\\n\" ++ time.start().format(\"%Y-%m-%d %H:%M:%S\") ++ \"\\n\" ++ user ++ \"\\n\" ++ description ++ \"\\n@@@\""@
}

/// Runtime copy of [`op_log_template_spec`].
pub fn op_log_template() -> (t: &'static str)
    ensures
        t@ == op_log_template_spec(),
{
    "id ++ \"\\n\" ++ time.start().format(\"%Y-%m-%d %H:%M:%S\") ++ \"\\n\" ++ user ++ \"\\n\" ++ description ++ \"\\n@@@\""
}

/// The template of the commit-log invocation: one JSON object per revision
/// with the expected members, then the record separator.
pub open spec fn log_template_spec() -> Seq<char> {
    r#""{ \"id\": \"" ++ commit_id ++ "\", \"changeId\": \"" ++ change_id ++ "\", \"author\": \"" ++ author.name() ++ "\", \"email\": \"" ++ author.email() ++ "\", \"date\": \"" ++ committer.timestamp().format("%Y-%m-%d %H:%M:%S") ++ "\", \"description\": \"" ++ description.first_line() ++ "\", \"isCurrent\": " ++ if(current_working_copy, "true", "false") ++ ", \"isImmutable\": " ++ if(immutable, "true", "false") ++ ", \"isConflicted\": " ++ if(conflict, "true", "false") ++ ", \"parentIds\": [" ++ parents.map(|p| "\"" ++ p.commit_id() ++ "\"").join(",") ++ "], \"bookmarks\": [" ++ bookmarks.map(|b| "\"" ++ b.name() ++ "\"").join(",") ++ "] }@@@""#@
}

/// Runtime copy of [`log_template_spec`].
pub fn log_template() -> (t: &'static str)
    ensures
        t@ == log_template_spec(),
{
    r#""{ \"id\": \"" ++ commit_id ++ "\", \"changeId\": \"" ++ change_id ++ "\", \"author\": \"" ++ author.name() ++ "\", \"email\": \"" ++ author.email() ++ "\", \"date\": \"" ++ committer.timestamp().format("%Y-%m-%d %H:%M:%S") ++ "\", \"description\": \"" ++ description.first_line() ++ "\", \"isCurrent\": " ++ if(current_working_copy, "true", "false") ++ ", \"isImmutable\": " ++ if(immutable, "true", "false") ++ ", \"isConflicted\": " ++ if(conflict, "true", "false") ++ ", \"parentIds\": [" ++ parents.map(|p| "\"" ++ p.commit_id() ++ "\"").join(",") ++ "], \"bookmarks\": [" ++ bookmarks.map(|b| "\"" ++ b.name() ++ "\"").join(",") ++ "] }@@@""#
}

/// Arguments of `jj git clone <url> <path>`.
pub fn clone_args(url: &String, path: &String) -> (args: Vec<String>)
    ensures
        args.deep_view() == seq!["git"@, "clone"@, url@, path@],
{
    let mut args: Vec<String> = Vec::new();
    args.push(String::from_str("git"));
    args.push(String::from_str("clone"));
    args.push(url.clone());
    args.push(path.clone());
    proof {
        assert(args.deep_view() =~= seq!["git"@, "clone"@, url@, path@]);
    }
    args
}

/// Arguments of `jj git init --colocated`.
pub fn init_args() -> (args: Vec<String>)
    ensures
        args.deep_view() == seq!["git"@, "init"@, "--colocated"@],
{
    let mut args: Vec<String> = Vec::new();
    args.push(String::from_str("git"));
    args.push(String::from_str("init"));
    args.push(String::from_str("--colocated"));
    proof {
        assert(args.deep_view() =~= seq!["git"@, "init"@, "--colocated"@]);
    }
    args
}

/// Arguments of `jj git remote list`.
pub fn remote_list_args() -> (args: Vec<String>)
    ensures
        args.deep_view() == seq!["git"@, "remote"@, "list"@],
{
    let mut args: Vec<String> = Vec::new();
    args.push(String::from_str("git"));
    args.push(String::from_str("remote"));
    args.push(String::from_str("list"));
    proof {
        assert(args.deep_view() =~= seq!["git"@, "remote"@, "list"@]);
    }
    args
}

/// Arguments of the operation-log invocation.
pub fn op_log_args() -> (args: Vec<String>)
    ensures
        args.deep_view() == seq![
            "op"@,
            "log"@,
            "--no-graph"@,
            "--template"@,
            op_log_template_spec(),
        ],
{
    let mut args: Vec<String> = Vec::new();
    args.push(String::from_str("op"));
    args.push(String::from_str("log"));
    args.push(String::from_str("--no-graph"));
    args.push(String::from_str("--template"));
    args.push(String::from_str(op_log_template()));
    proof {
        assert(args.deep_view() =~= seq![
            "op"@,
            "log"@,
            "--no-graph"@,
            "--template"@,
            op_log_template_spec(),
        ]);
    }
    args
}

/// Arguments of `jj op restore <id>`.
pub fn restore_args(id: &String) -> (args: Vec<String>)
    ensures
        args.deep_view() == seq!["op"@, "restore"@, id@],
{
    let mut args: Vec<String> = Vec::new();
    args.push(String::from_str("op"));
    args.push(String::from_str("restore"));
    args.push(id.clone());
    proof {
        assert(args.deep_view() =~= seq!["op"@, "restore"@, id@]);
    }
    args
}

/// Arguments of the change-id invocation `jj log -r @ -T change_id`.
pub fn change_id_args() -> (args: Vec<String>)
    ensures
        args.deep_view() == seq!["log"@, "-r"@, "@"@, "-T"@, "change_id"@],
{
    let mut args: Vec<String> = Vec::new();
    args.push(String::from_str("log"));
    args.push(String::from_str("-r"));
    args.push(String::from_str("@"));
    args.push(String::from_str("-T"));
    args.push(String::from_str("change_id"));
    proof {
        assert(args.deep_view() =~= seq!["log"@, "-r"@, "@"@, "-T"@, "change_id"@]);
    }
    args
}

/// Arguments of `jj status`.
pub fn status_args() -> (args: Vec<String>)
    ensures
        args.deep_view() == seq!["status"@],
{
    let mut args: Vec<String> = Vec::new();
    args.push(String::from_str("status"));
    proof {
        assert(args.deep_view() =~= seq!["status"@]);
    }
    args
}

/// Arguments of `jj diff --git <file>`.
pub fn diff_args(file_path: &String) -> (args: Vec<String>)
    ensures
        args.deep_view() == seq!["diff"@, "--git"@, file_path@],
{
    let mut args: Vec<String> = Vec::new();
    args.push(String::from_str("diff"));
    args.push(String::from_str("--git"));
    args.push(file_path.clone());
    proof {
        assert(args.deep_view() =~= seq!["diff"@, "--git"@, file_path@]);
    }
    args
}

/// The revset the commit-log invocation queries: the requested one, or
/// everything when none was requested.
pub open spec fn log_revset_spec(revset: Option<Seq<char>>) -> Seq<char> {
    match revset {
        Some(r) => r,
        None => "all()"@,
    }
}

/// Arguments of the commit-log invocation over an optional revset.
pub fn log_args(revset: Option<String>) -> (args: Vec<String>)
    ensures
        args.deep_view() == seq![
            "log"@,
            "-r"@,
            log_revset_spec(match revset {
                Some(r) => Some(r@),
                None => None,
            }),
            "-T"@,
            log_template_spec(),
            "--no-graph"@,
        ],
{
    let rev = match revset {
        Some(r) => r,
        None => String::from_str("all()"),
    };
    let ghost grev = rev@;
    let mut args: Vec<String> = Vec::new();
    args.push(String::from_str("log"));
    args.push(String::from_str("-r"));
    args.push(rev);
    args.push(String::from_str("-T"));
    args.push(String::from_str(log_template()));
    args.push(String::from_str("--no-graph"));
    proof {
        assert(args.deep_view() =~= seq![
            "log"@,
            "-r"@,
            grev,
            "-T"@,
            log_template_spec(),
            "--no-graph"@,
        ]);
    }
    args
}

/// Arguments of `jj describe`, with `-m <message>` when a message is given.
pub fn describe_args(message: Option<String>) -> (args: Vec<String>)
    ensures
        message is None ==> args.deep_view() == seq!["describe"@],
        message matches Some(m) ==> args.deep_view() == seq!["describe"@, "-m"@, m@],
{
    let mut args: Vec<String> = Vec::new();
    args.push(String::from_str("describe"));
    match message {
        Some(m) => {
            args.push(String::from_str("-m"));
            args.push(m);
            proof {
                assert(args.deep_view() =~= seq!["describe"@, "-m"@, args@[2]@]);
            }
        },
        None => {
            proof {
                assert(args.deep_view() =~= seq!["describe"@]);
            }
        },
    }
    args
}

} // verus!
