//! Parsing of `jj status` output into a structured working-copy change set.
//!
//! The output is line oriented. The headers `Working copy changes:` and
//! `Conflicted files:` switch the current section; any other line ending in
//! a colon ends it. Inside the changes section a line's first token selects
//! the status (`A` added, `D` removed, anything else modified) and the
//! remaining tokens, joined by single spaces, are the path. Inside the
//! conflicts section every line is a conflicted path.

use vstd::prelude::*;
use crate::command::CommandResult;
use crate::text::{
    lines_of,
    tokens_of,
    join_from,
    trim_spec,
    starts_with,
    ends_with,
};
use crate::text::{str_lines, split_whitespace_str, join_strings_from, trim, str_starts_with, str_ends_with};

verus! {

/// One changed file of the working copy: its path and its status word
/// (`Added`, `Modified`, `Removed` or `Conflicted`).
#[derive(Debug)]
pub struct ChangedFile {
    pub path: String,
    pub status: String,
}

/// Mathematical image of a [`ChangedFile`].
pub ghost struct ChangedFileView {
    pub path: Seq<char>,
    pub status: Seq<char>,
}

impl View for ChangedFile {
    type V = ChangedFileView;

    open spec fn view(&self) -> ChangedFileView {
        ChangedFileView { path: self.path@, status: self.status@ }
    }
}

impl DeepView for ChangedFile {
    type V = ChangedFileView;

    open spec fn deep_view(&self) -> ChangedFileView {
        self@
    }
}

/// The working-copy status: the current change identifier and the ordered
/// list of changed files.
#[derive(Debug)]
pub struct ChangeSet {
    pub change_id: String,
    pub files: Vec<ChangedFile>,
}

/// The parsing section a status line belongs to.
pub enum Section {
    Outside,
    Changes,
    Conflicts,
}

/// The status word selected by a line's first token.
pub open spec fn status_word(tok: Seq<char>) -> Seq<char> {
    if tok == "A"@ {
        "Added"@
    } else if tok == "D"@ {
        "Removed"@
    } else {
        "Modified"@
    }
}

/// Runtime mapping of a first token to its status word.
pub fn status_token_word(tok: &String) -> (r: String)
    ensures
        r@ == status_word(tok@),
{
    proof {
        reveal_strlit("A");
        reveal_strlit("D");
    }
    let n = tok.as_str().unicode_len();
    if n == 1 {
        let c = tok.as_str().get_char(0);
        if c == 'A' {
            proof {
                assert(tok@ =~= "A"@);
            }
            return String::from_str("Added");
        }
        if c == 'D' {
            proof {
                assert(tok@ =~= "D"@);
            }
            return String::from_str("Removed");
        }
    }
    proof {
        assert(tok@ != "A"@ && tok@ != "D"@);
    }
    String::from_str("Modified")
}

/// What one raw status line does: the section in force afterwards, and the
/// changed file it contributes, if any.
pub open spec fn status_step(sec: Section, raw: Seq<char>) -> (Section, Option<ChangedFileView>) {
    let l = trim_spec(raw);
    if l.len() == 0 {
        (sec, None::<ChangedFileView>)
    } else if starts_with(l, "Working copy changes:"@) {
        (Section::Changes, None::<ChangedFileView>)
    } else if starts_with(l, "Conflicted files:"@) {
        (Section::Conflicts, None::<ChangedFileView>)
    } else if ends_with(l, ":"@) {
        (Section::Outside, None::<ChangedFileView>)
    } else {
        match sec {
            Section::Changes => {
                let toks = tokens_of(l);
                if toks.len() >= 2 {
                    (
                        Section::Changes,
                        Some(
                            ChangedFileView {
                                path: join_from(toks, " "@, 1),
                                status: status_word(toks[0]),
                            },
                        ),
                    )
                } else {
                    (Section::Changes, None::<ChangedFileView>)
                }
            },
            Section::Conflicts => {
                (
                    Section::Conflicts,
                    Some(ChangedFileView { path: l, status: "Conflicted"@ }),
                )
            },
            Section::Outside => (Section::Outside, None::<ChangedFileView>),
        }
    }
}

/// The changed files contributed by the given lines from position `i` on,
/// starting in section `sec`.
pub open spec fn status_files_from(lines: Seq<Seq<char>>, sec: Section, i: int) -> Seq<
    ChangedFileView,
>
    decreases lines.len() - i,
        when 0 <= i <= lines.len()
{
    if i >= lines.len() {
        Seq::empty()
    } else {
        let step = status_step(sec, lines[i]);
        match step.1 {
            Some(f) => seq![f] + status_files_from(lines, step.0, i + 1),
            None => status_files_from(lines, step.0, i + 1),
        }
    }
}

/// The changed files listed in the raw status output `s`.
pub open spec fn status_files_of(s: Seq<char>) -> Seq<ChangedFileView> {
    status_files_from(lines_of(s), Section::Outside, 0)
}

/// Extracts the changed files from the raw status output, matching
/// [`status_files_of`].
pub fn parse_status_files(stdout: &str) -> (files: Vec<ChangedFile>)
    ensures
        files.deep_view() == status_files_of(stdout@),
{
    let lines = str_lines(stdout);
    let ghost glines = lines_of(stdout@);
    let mut files: Vec<ChangedFile> = Vec::new();
    let mut sec = Section::Outside;
    let mut i: usize = 0;
    while i < lines.len()
        invariant
            i <= lines.len(),
            lines.deep_view() == glines,
            status_files_from(glines, Section::Outside, 0) =~= files.deep_view()
                + status_files_from(glines, sec, i as int),
        decreases lines.len() - i,
    {
        let ghost prev = files.deep_view();
        let ghost gsec = sec;
        let l = trim(lines[i].as_str());
        if l.as_str().unicode_len() == 0 {
        } else if str_starts_with(l.as_str(), "Working copy changes:") {
            sec = Section::Changes;
        } else if str_starts_with(l.as_str(), "Conflicted files:") {
            sec = Section::Conflicts;
        } else if str_ends_with(l.as_str(), ":") {
            sec = Section::Outside;
        } else {
            match sec {
                Section::Changes => {
                    let toks = split_whitespace_str(l.as_str());
                    if toks.len() >= 2 {
                        let status = status_token_word(&toks[0]);
                        let path = join_strings_from(&toks, " ", 1);
                        files.push(ChangedFile { path, status });
                        proof {
                            assert(files.deep_view() =~= prev.push(
                                status_step(gsec, glines[i as int]).1->Some_0,
                            ));
                        }
                    }
                },
                Section::Conflicts => {
                    files.push(ChangedFile { path: l, status: String::from_str("Conflicted") });
                    proof {
                        assert(files.deep_view() =~= prev.push(
                            status_step(gsec, glines[i as int]).1->Some_0,
                        ));
                    }
                },
                Section::Outside => {},
            }
        }
        proof {
            assert(status_files_from(glines, gsec, i as int) =~= match status_step(
                gsec,
                glines[i as int],
            ).1 {
                Some(f) => seq![f] + status_files_from(glines, sec, i as int + 1),
                None => status_files_from(glines, sec, i as int + 1),
            });
            assert(status_files_from(glines, Section::Outside, 0) =~= files.deep_view()
                + status_files_from(glines, sec, i as int + 1));
        }
        i += 1;
    }
    files
}

/// The change identifier reported for the working copy: the trimmed output
/// of `jj log -r @ -T change_id`, or `unknown` when that invocation failed.
pub open spec fn change_id_of(id_success: bool, id_stdout: Seq<char>) -> Seq<char> {
    if id_success {
        trim_spec(id_stdout)
    } else {
        "unknown"@
    }
}

/// Outcome of the status request, combining the change-id invocation and
/// the status invocation: on success, the current change identifier and the
/// parsed file list; on failure, the raw error text of the status
/// invocation.
pub fn get_jj_status(id_result: &CommandResult, status_result: &CommandResult) -> (res: Result<
    ChangeSet,
    String,
>)
    ensures
        res is Ok <==> status_result.success,
        status_result.success ==> res->Ok_0.change_id@ == change_id_of(
            id_result.success,
            id_result.stdout@,
        ),
        status_result.success ==> res->Ok_0.files.deep_view() == status_files_of(
            status_result.stdout@,
        ),
        !status_result.success ==> res->Err_0@ == status_result.stderr@,
{
    if !status_result.success {
        return Err(status_result.stderr.clone());
    }
    let change_id = if id_result.success {
        trim(id_result.stdout.as_str())
    } else {
        String::from_str("unknown")
    };
    let files = parse_status_files(status_result.stdout.as_str());
    Ok(ChangeSet { change_id, files })
}

} // verus!
