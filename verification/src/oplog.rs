//! Parsing of `jj op log` output into operation records. The invocation
//! uses a template that prints, for each operation, its id, start time and
//! user on one line each, then the description, then the record separator
//! `@@@`. A record whose trimmed text has fewer than four lines is skipped.

use vstd::prelude::*;
use crate::command::CommandResult;
use crate::text::{lines_of, join_from, trim_spec, split_on};
use crate::text::{str_lines, join_strings_from, trim, split_str};

verus! {

/// One entry of the operation log.
#[derive(Debug)]
pub struct Operation {
    pub id: String,
    pub time: String,
    pub user: String,
    pub description: String,
}

/// Mathematical image of an [`Operation`].
pub ghost struct OperationView {
    pub id: Seq<char>,
    pub time: Seq<char>,
    pub user: Seq<char>,
    pub description: Seq<char>,
}

impl View for Operation {
    type V = OperationView;

    open spec fn view(&self) -> OperationView {
        OperationView {
            id: self.id@,
            time: self.time@,
            user: self.user@,
            description: self.description@,
        }
    }
}

impl DeepView for Operation {
    type V = OperationView;

    open spec fn deep_view(&self) -> OperationView {
        self@
    }
}

/// The record separator between operations.
pub open spec fn record_sep() -> Seq<char> {
    seq!['@', '@', '@']
}

/// The operation encoded by one separated part of the output, if it is
/// well-formed: after trimming, the first line (itself trimmed) is the id,
/// the second the time, the third the user, and the remaining lines joined
/// by newlines are the description. A part with fewer than four lines, or
/// only whitespace, encodes nothing.
pub open spec fn operation_of_part(part: Seq<char>) -> Option<OperationView> {
    let t = trim_spec(part);
    if t.len() == 0 {
        None::<OperationView>
    } else {
        let ls = lines_of(t);
        if ls.len() >= 4 {
            Some(
                OperationView {
                    id: trim_spec(ls[0]),
                    time: ls[1],
                    user: ls[2],
                    description: join_from(ls, seq!['\n'], 3),
                },
            )
        } else {
            None::<OperationView>
        }
    }
}

/// The operations encoded by the given parts from position `i` on, in
/// order, skipping ill-formed parts.
pub open spec fn operations_from(parts: Seq<Seq<char>>, i: int) -> Seq<OperationView>
    decreases parts.len() - i,
        when 0 <= i <= parts.len()
{
    if i >= parts.len() {
        Seq::empty()
    } else {
        match operation_of_part(parts[i]) {
            Some(o) => seq![o] + operations_from(parts, i + 1),
            None => operations_from(parts, i + 1),
        }
    }
}

/// The operations listed in the raw output `s`.
pub open spec fn operations_of(s: Seq<char>) -> Seq<OperationView> {
    operations_from(split_on(s, record_sep()), 0)
}

/// Extracts the operations from the raw output, matching [`operations_of`].
pub fn parse_operations(stdout: &str) -> (ops: Vec<Operation>)
    ensures
        ops.deep_view() == operations_of(stdout@),
{
    proof {
        reveal_strlit("@@@");
        assert("@@@"@ =~= record_sep());
    }
    let parts = split_str(stdout, "@@@");
    let ghost gparts = split_on(stdout@, record_sep());
    let mut ops: Vec<Operation> = Vec::new();
    let mut i: usize = 0;
    while i < parts.len()
        invariant
            i <= parts.len(),
            parts.deep_view() == gparts,
            operations_from(gparts, 0) =~= ops.deep_view() + operations_from(gparts, i as int),
        decreases parts.len() - i,
    {
        let ghost prev = ops.deep_view();
        let t = trim(parts[i].as_str());
        if t.as_str().unicode_len() > 0 {
            let lines = str_lines(t.as_str());
            if lines.len() >= 4 {
                let id = trim(lines[0].as_str());
                let time = lines[1].clone();
                let user = lines[2].clone();
                let description = join_strings_from(&lines, "\n", 3);
                proof {
                    reveal_strlit("\n");
                    assert("\n"@ =~= seq!['\n']);
                }
                ops.push(Operation { id, time, user, description });
                proof {
                    assert(ops.deep_view() =~= prev.push(
                        operation_of_part(gparts[i as int])->Some_0,
                    ));
                }
            }
        }
        proof {
            assert(operations_from(gparts, 0) =~= ops.deep_view() + operations_from(
                gparts,
                i as int + 1,
            ));
        }
        i += 1;
    }
    ops
}

/// Outcome of the operation-log invocation: the parsed operation list on
/// success, the raw error text on failure.
pub fn jj_get_operation_log(r: &CommandResult) -> (res: Result<Vec<Operation>, String>)
    ensures
        res is Ok <==> r.success,
        r.success ==> res->Ok_0.deep_view() == operations_of(r.stdout@),
        !r.success ==> res->Err_0@ == r.stderr@,
{
    if r.success {
        Ok(parse_operations(r.stdout.as_str()))
    } else {
        Err(r.stderr.clone())
    }
}

} // verus!
