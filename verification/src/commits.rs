//! Parsing of `jj log` output into commit records. The invocation uses a
//! template that prints one JSON object per revision followed by the record
//! separator `@@@`. Graph-drawing characters may precede the object, so a
//! record's payload starts at its first opening brace. A record that is not
//! a well-formed object carrying all the expected members is skipped, never
//! fatal.

use vstd::prelude::*;
use crate::command::CommandResult;
use crate::json::{
    JsonPairView,
    JsonValue,
    JsonPair,
    JsonVal,
    parse_object,
    skip_ws,
    lemma_parse_object_bounds,
    json_object,
    skip_ws_at,
};
use crate::oplog::record_sep;
use crate::text::{trim_spec, first_match_from, split_on, lemma_first_match_bounds};
use crate::text::{trim, find_from, split_str, str_eq};

verus! {

/// One revision of the commit log.
#[derive(Debug)]
pub struct Commit {
    pub id: String,
    pub change_id: String,
    pub author: String,
    pub email: String,
    pub date: String,
    pub description: String,
    pub is_current: bool,
    pub is_immutable: bool,
    pub is_conflicted: bool,
    pub parent_ids: Vec<String>,
    pub bookmarks: Vec<String>,
}

/// Mathematical image of a [`Commit`].
pub ghost struct CommitView {
    pub id: Seq<char>,
    pub change_id: Seq<char>,
    pub author: Seq<char>,
    pub email: Seq<char>,
    pub date: Seq<char>,
    pub description: Seq<char>,
    pub is_current: bool,
    pub is_immutable: bool,
    pub is_conflicted: bool,
    pub parent_ids: Seq<Seq<char>>,
    pub bookmarks: Seq<Seq<char>>,
}

impl View for Commit {
    type V = CommitView;

    open spec fn view(&self) -> CommitView {
        CommitView {
            id: self.id@,
            change_id: self.change_id@,
            author: self.author@,
            email: self.email@,
            date: self.date@,
            description: self.description@,
            is_current: self.is_current,
            is_immutable: self.is_immutable,
            is_conflicted: self.is_conflicted,
            parent_ids: self.parent_ids.deep_view(),
            bookmarks: self.bookmarks.deep_view(),
        }
    }
}

impl DeepView for Commit {
    type V = CommitView;

    open spec fn deep_view(&self) -> CommitView {
        self@
    }
}

/// How often `key` occurs among the members from position `i` on.
pub open spec fn key_count_from(pairs: Seq<JsonPairView>, key: Seq<char>, i: int) -> int
    decreases pairs.len() - i,
        when 0 <= i <= pairs.len()
{
    if i >= pairs.len() {
        0
    } else {
        (if pairs[i].key == key {
            1int
        } else {
            0int
        }) + key_count_from(pairs, key, i + 1)
    }
}

/// A key's occurrence count lies between zero and the number of members left.
pub proof fn lemma_key_count_bounds(pairs: Seq<JsonPairView>, key: Seq<char>, i: int)
    requires
        0 <= i <= pairs.len(),
    ensures
        0 <= key_count_from(pairs, key, i) <= pairs.len() - i,
    decreases pairs.len() - i,
{
    if i < pairs.len() {
        lemma_key_count_bounds(pairs, key, i + 1);
    }
}

/// The value of the first member named `key` from position `i` on.
pub open spec fn key_value_from(pairs: Seq<JsonPairView>, key: Seq<char>, i: int) -> Option<
    JsonValue,
>
    decreases pairs.len() - i,
        when 0 <= i <= pairs.len()
{
    if i >= pairs.len() {
        None::<JsonValue>
    } else if pairs[i].key == key {
        Some(pairs[i].value)
    } else {
        key_value_from(pairs, key, i + 1)
    }
}

/// The text of the member named `key`, present exactly once and a string.
pub open spec fn str_field(pairs: Seq<JsonPairView>, key: Seq<char>) -> Option<Seq<char>> {
    if key_count_from(pairs, key, 0) == 1 {
        match key_value_from(pairs, key, 0) {
            Some(JsonValue::Str(v)) => Some(v),
            _ => None::<Seq<char>>,
        }
    } else {
        None::<Seq<char>>
    }
}

/// The truth value of the member named `key`, present exactly once and a
/// boolean.
pub open spec fn bool_field(pairs: Seq<JsonPairView>, key: Seq<char>) -> Option<bool> {
    if key_count_from(pairs, key, 0) == 1 {
        match key_value_from(pairs, key, 0) {
            Some(JsonValue::Bool(v)) => Some(v),
            _ => None::<bool>,
        }
    } else {
        None::<bool>
    }
}

/// The items of the member named `key`, present exactly once and an array
/// of strings.
pub open spec fn arr_field(pairs: Seq<JsonPairView>, key: Seq<char>) -> Option<Seq<Seq<char>>> {
    if key_count_from(pairs, key, 0) == 1 {
        match key_value_from(pairs, key, 0) {
            Some(JsonValue::Arr(v)) => Some(v),
            _ => None::<Seq<Seq<char>>>,
        }
    } else {
        None::<Seq<Seq<char>>>
    }
}

/// Runtime occurrence count matching [`key_count_from`].
fn count_key(pairs: &Vec<JsonPair>, key: &str, i: usize) -> (c: usize)
    requires
        i <= pairs.len(),
    ensures
        c as int == key_count_from(pairs.deep_view(), key@, i as int),
    decreases pairs.len() - i,
{
    if i >= pairs.len() {
        0
    } else {
        let rest = count_key(pairs, key, i + 1);
        proof {
            lemma_key_count_bounds(pairs.deep_view(), key@, i as int + 1);
        }
        if str_eq(pairs[i].key.as_str(), key) {
            rest + 1
        } else {
            rest
        }
    }
}

/// Runtime clone of a string vector, keeping its contents.
fn clone_string_vec(v: &Vec<String>) -> (r: Vec<String>)
    ensures
        r.deep_view() == v.deep_view(),
{
    let mut r: Vec<String> = Vec::new();
    let mut i: usize = 0;
    while i < v.len()
        invariant
            i <= v.len(),
            r.deep_view() =~= v.deep_view().take(i as int),
        decreases v.len() - i,
    {
        let ghost prev = r.deep_view();
        let s = v[i].clone();
        proof {
            assert(s@ == v@[i as int]@);
        }
        r.push(s);
        proof {
            assert(r.deep_view() =~= prev.push(v.deep_view()[i as int]));
            assert(r.deep_view() =~= v.deep_view().take(i as int + 1));
        }
        i += 1;
    }
    proof {
        assert(v.deep_view().take(v.len() as int) =~= v.deep_view());
    }
    r
}

/// Runtime clone of a parsed value, keeping its contents.
fn clone_json_val(v: &JsonVal) -> (r: JsonVal)
    ensures
        r.deep_view() == v.deep_view(),
{
    match v {
        JsonVal::Str(s) => JsonVal::Str(s.clone()),
        JsonVal::Bool(b) => JsonVal::Bool(*b),
        JsonVal::Arr(a) => JsonVal::Arr(clone_string_vec(a)),
    }
}

/// Runtime first-occurrence lookup matching [`key_value_from`].
fn value_of_key(pairs: &Vec<JsonPair>, key: &str, i: usize) -> (r: Option<JsonVal>)
    requires
        i <= pairs.len(),
    ensures
        r is Some <==> key_value_from(pairs.deep_view(), key@, i as int) is Some,
        r matches Some(v) ==> v.deep_view() == key_value_from(
            pairs.deep_view(),
            key@,
            i as int,
        )->Some_0,
    decreases pairs.len() - i,
{
    if i >= pairs.len() {
        None
    } else if str_eq(pairs[i].key.as_str(), key) {
        Some(clone_json_val(&pairs[i].value))
    } else {
        value_of_key(pairs, key, i + 1)
    }
}

/// Runtime string-member lookup matching [`str_field`].
fn get_str_field(pairs: &Vec<JsonPair>, key: &str) -> (r: Option<String>)
    ensures
        r is Some <==> str_field(pairs.deep_view(), key@) is Some,
        r matches Some(v) ==> v@ == str_field(pairs.deep_view(), key@)->Some_0,
{
    let c = count_key(pairs, key, 0);
    if c != 1 {
        return None;
    }
    match value_of_key(pairs, key, 0) {
        Some(JsonVal::Str(v)) => Some(v),
        _ => None,
    }
}

/// Runtime boolean-member lookup matching [`bool_field`].
fn get_bool_field(pairs: &Vec<JsonPair>, key: &str) -> (r: Option<bool>)
    ensures
        r is Some <==> bool_field(pairs.deep_view(), key@) is Some,
        r matches Some(v) ==> v == bool_field(pairs.deep_view(), key@)->Some_0,
{
    let c = count_key(pairs, key, 0);
    if c != 1 {
        return None;
    }
    match value_of_key(pairs, key, 0) {
        Some(JsonVal::Bool(v)) => Some(v),
        _ => None,
    }
}

/// Runtime array-member lookup matching [`arr_field`].
fn get_arr_field(pairs: &Vec<JsonPair>, key: &str) -> (r: Option<Vec<String>>)
    ensures
        r is Some <==> arr_field(pairs.deep_view(), key@) is Some,
        r matches Some(v) ==> v.deep_view() == arr_field(pairs.deep_view(), key@)->Some_0,
{
    let c = count_key(pairs, key, 0);
    if c != 1 {
        return None;
    }
    match value_of_key(pairs, key, 0) {
        Some(JsonVal::Arr(v)) => Some(v),
        _ => None,
    }
}

/// The commit encoded by an object's members, if every expected member is
/// present exactly once with its expected type; extra members are ignored.
pub open spec fn commit_of_pairs(pairs: Seq<JsonPairView>) -> Option<CommitView> {
    if str_field(pairs, "id"@) is Some && str_field(pairs, "changeId"@) is Some && str_field(
        pairs,
        "author"@,
    ) is Some && str_field(pairs, "email"@) is Some && str_field(pairs, "date"@) is Some
        && str_field(pairs, "description"@) is Some && bool_field(pairs, "isCurrent"@) is Some
        && bool_field(pairs, "isImmutable"@) is Some && bool_field(pairs, "isConflicted"@) is Some
        && arr_field(pairs, "parentIds"@) is Some && arr_field(pairs, "bookmarks"@) is Some {
        Some(
            CommitView {
                id: str_field(pairs, "id"@)->Some_0,
                change_id: str_field(pairs, "changeId"@)->Some_0,
                author: str_field(pairs, "author"@)->Some_0,
                email: str_field(pairs, "email"@)->Some_0,
                date: str_field(pairs, "date"@)->Some_0,
                description: str_field(pairs, "description"@)->Some_0,
                is_current: bool_field(pairs, "isCurrent"@)->Some_0,
                is_immutable: bool_field(pairs, "isImmutable"@)->Some_0,
                is_conflicted: bool_field(pairs, "isConflicted"@)->Some_0,
                parent_ids: arr_field(pairs, "parentIds"@)->Some_0,
                bookmarks: arr_field(pairs, "bookmarks"@)->Some_0,
            },
        )
    } else {
        None::<CommitView>
    }
}

/// Runtime commit extraction matching [`commit_of_pairs`].
pub fn commit_from_pairs(pairs: &Vec<JsonPair>) -> (r: Option<Commit>)
    ensures
        r is Some <==> commit_of_pairs(pairs.deep_view()) is Some,
        r matches Some(c) ==> c@ == commit_of_pairs(pairs.deep_view())->Some_0,
{
    let id = get_str_field(pairs, "id");
    let change_id = get_str_field(pairs, "changeId");
    let author = get_str_field(pairs, "author");
    let email = get_str_field(pairs, "email");
    let date = get_str_field(pairs, "date");
    let description = get_str_field(pairs, "description");
    let is_current = get_bool_field(pairs, "isCurrent");
    let is_immutable = get_bool_field(pairs, "isImmutable");
    let is_conflicted = get_bool_field(pairs, "isConflicted");
    let parent_ids = get_arr_field(pairs, "parentIds");
    let bookmarks = get_arr_field(pairs, "bookmarks");
    if id.is_none() || change_id.is_none() || author.is_none() || email.is_none() || date.is_none()
        || description.is_none() || is_current.is_none() || is_immutable.is_none()
        || is_conflicted.is_none() || parent_ids.is_none() || bookmarks.is_none() {
        return None;
    }
    Some(
        Commit {
            id: id.unwrap(),
            change_id: change_id.unwrap(),
            author: author.unwrap(),
            email: email.unwrap(),
            date: date.unwrap(),
            description: description.unwrap(),
            is_current: is_current.unwrap(),
            is_immutable: is_immutable.unwrap(),
            is_conflicted: is_conflicted.unwrap(),
            parent_ids: parent_ids.unwrap(),
            bookmarks: bookmarks.unwrap(),
        },
    )
}

/// The commit encoded by one separated part of the output, if it is
/// well-formed: the part is trimmed, its payload starts at the first
/// opening brace, must parse as an object of the subset reaching the end of
/// the part, and must carry all the expected members.
pub open spec fn commit_of_part(part: Seq<char>) -> Option<CommitView> {
    let t = trim_spec(part);
    if t.len() == 0 {
        None::<CommitView>
    } else {
        match first_match_from(t, seq!['{'], 0) {
            None => None::<CommitView>,
            Some(b) => match parse_object(t, b) {
                None => None::<CommitView>,
                Some(r) => if skip_ws(t, r.1) == t.len() {
                    commit_of_pairs(r.0)
                } else {
                    None::<CommitView>
                },
            },
        }
    }
}

/// Runtime parsing of one separated part, matching [`commit_of_part`].
pub fn parse_commit_part(part: &str) -> (r: Option<Commit>)
    ensures
        r is Some <==> commit_of_part(part@) is Some,
        r matches Some(c) ==> c@ == commit_of_part(part@)->Some_0,
{
    let t = trim(part);
    let tn = t.as_str().unicode_len();
    if tn == 0 {
        return None;
    }
    proof {
        reveal_strlit("{");
        assert("{"@ =~= seq!['{']);
    }
    match find_from(t.as_str(), "{", 0) {
        None => None,
        Some(b) => {
            proof {
                lemma_first_match_bounds(t@, "{"@, 0);
            }
            match json_object(t.as_str(), b) {
                None => None,
                Some(obj) => {
                    proof {
                        lemma_parse_object_bounds(t@, b as int);
                    }
                    let end = skip_ws_at(t.as_str(), obj.1);
                    if end != tn {
                        return None;
                    }
                    commit_from_pairs(&obj.0)
                },
            }
        },
    }
}

/// The commits encoded by the given parts from position `i` on, in order,
/// skipping ill-formed parts.
pub open spec fn commits_from(parts: Seq<Seq<char>>, i: int) -> Seq<CommitView>
    decreases parts.len() - i,
        when 0 <= i <= parts.len()
{
    if i >= parts.len() {
        Seq::empty()
    } else {
        match commit_of_part(parts[i]) {
            Some(c) => seq![c] + commits_from(parts, i + 1),
            None => commits_from(parts, i + 1),
        }
    }
}

/// The commits listed in the raw output `s`.
pub open spec fn commits_of(s: Seq<char>) -> Seq<CommitView> {
    commits_from(split_on(s, record_sep()), 0)
}

/// Extracts the commits from the raw output, matching [`commits_of`].
pub fn parse_commits(stdout: &str) -> (commits: Vec<Commit>)
    ensures
        commits.deep_view() == commits_of(stdout@),
{
    proof {
        reveal_strlit("@@@");
        assert("@@@"@ =~= record_sep());
    }
    let parts = split_str(stdout, "@@@");
    let ghost gparts = split_on(stdout@, record_sep());
    let mut commits: Vec<Commit> = Vec::new();
    let mut i: usize = 0;
    while i < parts.len()
        invariant
            i <= parts.len(),
            parts.deep_view() == gparts,
            commits_from(gparts, 0) =~= commits.deep_view() + commits_from(gparts, i as int),
        decreases parts.len() - i,
    {
        let ghost prev = commits.deep_view();
        match parse_commit_part(parts[i].as_str()) {
            Some(c) => {
                commits.push(c);
                proof {
                    assert(commits.deep_view() =~= prev.push(
                        commit_of_part(gparts[i as int])->Some_0,
                    ));
                }
            },
            None => {},
        }
        proof {
            assert(commits_from(gparts, 0) =~= commits.deep_view() + commits_from(
                gparts,
                i as int + 1,
            ));
        }
        i += 1;
    }
    commits
}

/// Outcome of the commit-log invocation: the parsed commit list on success,
/// the raw error text on failure.
pub fn jj_get_log(r: &CommandResult) -> (res: Result<Vec<Commit>, String>)
    ensures
        res is Ok <==> r.success,
        r.success ==> res->Ok_0.deep_view() == commits_of(r.stdout@),
        !r.success ==> res->Err_0@ == r.stderr@,
{
    if r.success {
        Ok(parse_commits(r.stdout.as_str()))
    } else {
        Err(r.stderr.clone())
    }
}

/// How many of the given parts from position `i` on are well-formed records.
pub open spec fn well_formed_count(parts: Seq<Seq<char>>, i: int) -> int
    decreases parts.len() - i,
        when 0 <= i <= parts.len()
{
    if i >= parts.len() {
        0
    } else {
        (if commit_of_part(parts[i]) is Some {
            1int
        } else {
            0int
        }) + well_formed_count(parts, i + 1)
    }
}

/// Parsing a stream's separated parts yields exactly one commit per
/// well-formed part: ill-formed parts are skipped, never fatal.
pub proof fn lemma_commit_records_counted(parts: Seq<Seq<char>>, i: int)
    requires
        0 <= i <= parts.len(),
    ensures
        commits_from(parts, i).len() == well_formed_count(parts, i),
    decreases parts.len() - i,
{
    if i < parts.len() {
        lemma_commit_records_counted(parts, i + 1);
    }
}

/// When every separated part of a stream is a well-formed record, parsing
/// yields exactly one commit per part, in the stream's order.
pub proof fn lemma_commit_records_in_order(parts: Seq<Seq<char>>, i: int)
    requires
        0 <= i <= parts.len(),
        forall|k: int| i <= k < parts.len() ==> commit_of_part(#[trigger] parts[k]) is Some,
    ensures
        commits_from(parts, i).len() == parts.len() - i,
        forall|k: int|
            i <= k < parts.len() ==> commits_from(parts, i)[k - i] == commit_of_part(
                #[trigger] parts[k],
            )->Some_0,
    decreases parts.len() - i,
{
    if i < parts.len() {
        lemma_commit_records_in_order(parts, i + 1);
    }
}

/// A single ill-formed record among well-formed ones costs exactly that one
/// record: the stream of `N` parts yields `N - 1` commits.
pub proof fn lemma_malformed_record_skipped(parts: Seq<Seq<char>>, m: int)
    requires
        0 <= m < parts.len(),
        commit_of_part(parts[m]) is None,
        forall|k: int|
            0 <= k < parts.len() && k != m ==> commit_of_part(#[trigger] parts[k]) is Some,
    ensures
        commits_from(parts, 0).len() == parts.len() - 1,
{
    lemma_commit_records_counted(parts, 0);
    lemma_wf_count_one_bad(parts, m, 0);
}

proof fn lemma_wf_count_all(parts: Seq<Seq<char>>, i: int)
    requires
        0 <= i <= parts.len(),
        forall|k: int| i <= k < parts.len() ==> commit_of_part(#[trigger] parts[k]) is Some,
    ensures
        well_formed_count(parts, i) == parts.len() - i,
    decreases parts.len() - i,
{
    if i < parts.len() {
        lemma_wf_count_all(parts, i + 1);
    }
}

proof fn lemma_wf_count_one_bad(parts: Seq<Seq<char>>, m: int, i: int)
    requires
        0 <= i <= parts.len(),
        i <= m < parts.len(),
        commit_of_part(parts[m]) is None,
        forall|k: int|
            i <= k < parts.len() && k != m ==> commit_of_part(#[trigger] parts[k]) is Some,
    ensures
        well_formed_count(parts, i) == parts.len() - i - 1,
    decreases parts.len() - i,
{
    if i == m {
        lemma_wf_count_all(parts, i + 1);
    } else {
        lemma_wf_count_one_bad(parts, m, i + 1);
    }
}

} // verus!
