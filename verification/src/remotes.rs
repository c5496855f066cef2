//! Parsing of `jj git remote list` output: one remote per line, the URL as
//! the second whitespace-separated token; lines with fewer than two tokens
//! contribute nothing.

use vstd::prelude::*;
use crate::command::CommandResult;
use crate::text::{lines_of, tokens_of};
use crate::text::{str_lines, split_whitespace_str};

verus! {

/// The URLs found on the given lines from position `i` on: the second token
/// of every line that has at least two.
pub open spec fn remote_urls_from(lines: Seq<Seq<char>>, i: int) -> Seq<Seq<char>>
    decreases lines.len() - i,
        when 0 <= i <= lines.len()
{
    if i >= lines.len() {
        Seq::empty()
    } else {
        let toks = tokens_of(lines[i]);
        if toks.len() >= 2 {
            seq![toks[1]] + remote_urls_from(lines, i + 1)
        } else {
            remote_urls_from(lines, i + 1)
        }
    }
}

/// The remote URLs listed in the raw output `s`.
pub open spec fn remote_urls_of(s: Seq<char>) -> Seq<Seq<char>> {
    remote_urls_from(lines_of(s), 0)
}

/// Extracts the remote URLs from the raw output, matching [`remote_urls_of`].
pub fn parse_remote_urls(stdout: &str) -> (urls: Vec<String>)
    ensures
        urls.deep_view() == remote_urls_of(stdout@),
{
    let lines = str_lines(stdout);
    let ghost glines = lines_of(stdout@);
    let mut urls: Vec<String> = Vec::new();
    let mut i: usize = 0;
    while i < lines.len()
        invariant
            i <= lines.len(),
            lines.deep_view() == glines,
            remote_urls_from(glines, 0) =~= urls.deep_view() + remote_urls_from(glines, i as int),
        decreases lines.len() - i,
    {
        let toks = split_whitespace_str(lines[i].as_str());
        if toks.len() >= 2 {
            let ghost prev = urls.deep_view();
            urls.push(toks[1].clone());
            proof {
                assert(urls.deep_view() =~= prev.push(tokens_of(glines[i as int])[1]));
                assert(remote_urls_from(glines, 0) =~= urls.deep_view() + remote_urls_from(
                    glines,
                    i as int + 1,
                ));
            }
        }
        i += 1;
    }
    urls
}

/// Outcome of `jj git remote list`: the parsed URL list on success, the raw
/// error text on failure.
pub fn get_repo_remote_urls(r: &CommandResult) -> (res: Result<Vec<String>, String>)
    ensures
        res is Ok <==> r.success,
        r.success ==> res->Ok_0.deep_view() == remote_urls_of(r.stdout@),
        !r.success ==> res->Err_0@ == r.stderr@,
{
    if r.success {
        Ok(parse_remote_urls(r.stdout.as_str()))
    } else {
        Err(r.stderr.clone())
    }
}

} // verus!
