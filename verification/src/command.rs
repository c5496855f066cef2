//! Outcomes of external `jj` invocations. The shell spawns the binary and
//! captures exit status and output streams; the functions here map one
//! finished invocation to the caller-facing success/failure result.

use vstd::prelude::*;
use crate::text::starts_with;
use crate::text::str_starts_with;

verus! {

/// The first launch argument carrying the custom URL scheme, from position
/// `i` on.
pub open spec fn deep_link_from(args: Seq<Seq<char>>, i: int) -> Option<Seq<char>>
    decreases args.len() - i,
        when 0 <= i <= args.len()
{
    if i >= args.len() {
        None::<Seq<char>>
    } else if starts_with(args[i], "jujutsu://"@) {
        Some(args[i])
    } else {
        deep_link_from(args, i + 1)
    }
}

/// Finds the first launch argument that starts with the custom URL scheme,
/// matching [`deep_link_from`]: the deep link the shell was invoked with.
pub fn find_deep_link(args: &Vec<String>) -> (r: Option<String>)
    ensures
        r is Some <==> deep_link_from(args.deep_view(), 0) is Some,
        r matches Some(u) ==> u@ == deep_link_from(args.deep_view(), 0)->Some_0,
{
    let mut i: usize = 0;
    while i < args.len()
        invariant
            i <= args.len(),
            deep_link_from(args.deep_view(), 0) == deep_link_from(args.deep_view(), i as int),
        decreases args.len() - i,
    {
        if str_starts_with(args[i].as_str(), "jujutsu://") {
            return Some(args[i].clone());
        }
        i += 1;
    }
    None
}

/// Outcome of one finished external invocation: exit status plus the two
/// captured output streams, already decoded to text.
#[derive(Debug)]
pub struct CommandResult {
    pub success: bool,
    pub stdout: String,
    pub stderr: String,
}

/// Maps a finished invocation to the caller-facing result: raw stdout on
/// success, raw stderr on failure. Success and failure are mutually
/// exclusive, and exactly one payload or error string is produced.
pub fn command_outcome(r: &CommandResult) -> (res: Result<String, String>)
    ensures
        res is Ok <==> r.success,
        r.success ==> res->Ok_0@ == r.stdout@,
        !r.success ==> res->Err_0@ == r.stderr@,
{
    if r.success {
        Ok(r.stdout.clone())
    } else {
        Err(r.stderr.clone())
    }
}

/// Outcome of `jj git clone <url> <path>`: a fixed success message naming
/// the source and destination, or the raw error text.
pub fn jj_git_clone(url: &String, path: &String, r: &CommandResult) -> (res: Result<
    String,
    String,
>)
    ensures
        res is Ok <==> r.success,
        r.success ==> res->Ok_0@ == "Successfully cloned "@ + url@ + " to "@ + path@,
        !r.success ==> res->Err_0@ == r.stderr@,
{
    if r.success {
        let m = String::from_str("Successfully cloned ").concat(url.as_str()).concat(
            " to ",
        ).concat(path.as_str());
        proof {
            assert(m@ =~= "Successfully cloned "@ + url@ + " to "@ + path@);
        }
        Ok(m)
    } else {
        Err(r.stderr.clone())
    }
}

/// Outcome of `jj git init --colocated` run inside `path`: a fixed success
/// message naming the directory, or the raw error text.
pub fn jj_init_repo(path: &String, r: &CommandResult) -> (res: Result<String, String>)
    ensures
        res is Ok <==> r.success,
        r.success ==> res->Ok_0@ == "Successfully initialized jj repo at "@ + path@,
        !r.success ==> res->Err_0@ == r.stderr@,
{
    if r.success {
        let m = String::from_str("Successfully initialized jj repo at ").concat(path.as_str());
        Ok(m)
    } else {
        Err(r.stderr.clone())
    }
}

/// Outcome of `jj op restore <id>`: a fixed success message naming the
/// operation. On failure the error text is the stderr stream if it could be
/// decoded, and a fixed fallback message otherwise.
pub fn jj_restore_operation(id: &String, success: bool, stderr: Option<String>) -> (res: Result<
    String,
    String,
>)
    ensures
        res is Ok <==> success,
        success ==> res->Ok_0@ == "Successfully restored repository to operation "@ + id@,
        !success ==> (match stderr {
            Some(e) => res->Err_0@ == e@,
            None => res->Err_0@ == "Failed to undo operation: Unknown error"@,
        }),
{
    if success {
        let m = String::from_str("Successfully restored repository to operation ").concat(
            id.as_str(),
        );
        Ok(m)
    } else {
        match stderr {
            Some(e) => Err(e),
            None => Err(String::from_str("Failed to undo operation: Unknown error")),
        }
    }
}

/// Outcome of `jj diff --git <file>`: the raw diff text on success. On
/// failure the error text is the stderr stream if it could be decoded, and a
/// fixed fallback message otherwise.
pub fn get_jj_diff(success: bool, stdout: String, stderr: Option<String>) -> (res: Result<
    String,
    String,
>)
    ensures
        res is Ok <==> success,
        success ==> res->Ok_0@ == stdout@,
        !success ==> (match stderr {
            Some(e) => res->Err_0@ == e@,
            None => res->Err_0@ == "Failed to get diff: Unknown error"@,
        }),
{
    if success {
        Ok(stdout)
    } else {
        match stderr {
            Some(e) => Err(e),
            None => Err(String::from_str("Failed to get diff: Unknown error")),
        }
    }
}

} // verus!
