//! Small verified text toolkit: substring matching, searching, splitting,
//! trimming, line and token decomposition, joining. The parsers of the
//! crate are specified and proved in terms of these spec functions.

use vstd::prelude::*;

verus! {

/// The whitespace characters this crate trims and splits on.
pub open spec fn is_space(c: char) -> bool {
    c == ' ' || c == '\t' || c == '\r' || c == '\n'
}

/// Runtime test for [`is_space`].
pub fn is_space_char(c: char) -> (b: bool)
    ensures
        b == is_space(c),
{
    c == ' ' || c == '\t' || c == '\r' || c == '\n'
}

/// Runtime text equality: `a` and `b` hold the same characters.
pub fn str_eq(a: &str, b: &str) -> (r: bool)
    ensures
        r == (a@ == b@),
{
    let n = a.unicode_len();
    let m = b.unicode_len();
    if n != m {
        return false;
    }
    let mut i: usize = 0;
    while i < n
        invariant
            i <= n,
            n == a@.len(),
            n == b@.len(),
            forall|j: int| 0 <= j < i ==> a@[j] == b@[j],
        decreases n - i,
    {
        if a.get_char(i) != b.get_char(i) {
            return false;
        }
        i += 1;
    }
    proof {
        assert(a@ =~= b@);
    }
    true
}

/// `pat` occurs in `s` at position `i`.
pub open spec fn match_at(s: Seq<char>, pat: Seq<char>, i: int) -> bool {
    &&& 0 <= i
    &&& i + pat.len() <= s.len()
    &&& forall|k: int| 0 <= k < pat.len() ==> s[i + k] == pat[k]
}

/// Runtime test for [`match_at`].
pub fn matches_at(s: &str, pat: &str, i: usize) -> (b: bool)
    ensures
        b == match_at(s@, pat@, i as int),
{
    let n = s.unicode_len();
    let m = pat.unicode_len();
    if i > n || m > n - i {
        return false;
    }
    let mut k: usize = 0;
    while k < m
        invariant
            i + m <= n,
            n == s@.len(),
            m == pat@.len(),
            k <= m,
            forall|t: int| 0 <= t < k ==> s@[i + t] == pat@[t],
        decreases m - k,
    {
        if s.get_char(i + k) != pat.get_char(k) {
            return false;
        }
        k += 1;
    }
    true
}

/// Position of the first occurrence of `pat` in `s` at or after `i`,
/// if there is one.
pub open spec fn first_match_from(s: Seq<char>, pat: Seq<char>, i: int) -> Option<int>
    decreases s.len() - i,
        when 0 <= i <= s.len()
{
    if i + pat.len() > s.len() {
        None
    } else if match_at(s, pat, i) {
        Some(i)
    } else {
        first_match_from(s, pat, i + 1)
    }
}

/// A found first match lies in bounds, matches, and nothing before it matches.
pub proof fn lemma_first_match_bounds(s: Seq<char>, pat: Seq<char>, i: int)
    requires
        0 <= i <= s.len(),
        first_match_from(s, pat, i) is Some,
    ensures
        i <= first_match_from(s, pat, i)->Some_0,
        match_at(s, pat, first_match_from(s, pat, i)->Some_0),
        forall|j: int| i <= j < first_match_from(s, pat, i)->Some_0 ==> !match_at(s, pat, j),
    decreases s.len() - i,
{
    if i + pat.len() > s.len() {
    } else if match_at(s, pat, i) {
    } else {
        lemma_first_match_bounds(s, pat, i + 1);
    }
}

/// When no first match exists, no position at or after `i` matches.
pub proof fn lemma_first_match_none(s: Seq<char>, pat: Seq<char>, i: int)
    requires
        0 <= i <= s.len(),
        first_match_from(s, pat, i) is None,
    ensures
        forall|j: int| i <= j ==> !match_at(s, pat, j),
    decreases s.len() - i,
{
    if i + pat.len() > s.len() {
    } else if match_at(s, pat, i) {
    } else {
        lemma_first_match_none(s, pat, i + 1);
    }
}

/// Runtime search for the first occurrence of `pat` at or after `from`.
pub fn find_from(s: &str, pat: &str, from: usize) -> (r: Option<usize>)
    requires
        from <= s@.len(),
    ensures
        r matches Some(i) ==> first_match_from(s@, pat@, from as int) == Some(i as int),
        r is None ==> first_match_from(s@, pat@, from as int) is None,
{
    let n = s.unicode_len();
    let m = pat.unicode_len();
    if m > n || from > n - m {
        proof {
            assert(from + pat@.len() > s@.len());
            assert(first_match_from(s@, pat@, from as int) is None);
        }
        return None;
    }
    if m == 0 {
        proof {
            assert(match_at(s@, pat@, from as int));
        }
        return Some(from);
    }
    let mut cur: usize = from;
    while cur <= n - m
        invariant
            1 <= m <= n,
            n == s@.len(),
            m == pat@.len(),
            from <= cur <= n - m + 1,
            first_match_from(s@, pat@, from as int) == first_match_from(s@, pat@, cur as int),
        decreases n - cur,
    {
        if matches_at(s, pat, cur) {
            return Some(cur);
        }
        cur += 1;
    }
    proof {
        assert(cur + pat@.len() > s@.len());
        assert(first_match_from(s@, pat@, cur as int) is None);
    }
    None
}

/// `s` contains an occurrence of `pat`.
pub open spec fn has_sub(s: Seq<char>, pat: Seq<char>) -> bool {
    exists|i: int| match_at(s, pat, i)
}

/// Runtime test for [`has_sub`].
pub fn contains_sub(s: &str, pat: &str) -> (b: bool)
    ensures
        b == has_sub(s@, pat@),
{
    let r = find_from(s, pat, 0);
    proof {
        if r is None {
            lemma_first_match_none(s@, pat@, 0);
        } else {
            lemma_first_match_bounds(s@, pat@, 0);
        }
    }
    r.is_some()
}

/// `s` starts with `pat`.
pub open spec fn starts_with(s: Seq<char>, pat: Seq<char>) -> bool {
    match_at(s, pat, 0)
}

/// Runtime test for [`starts_with`].
pub fn str_starts_with(s: &str, pat: &str) -> (b: bool)
    ensures
        b == starts_with(s@, pat@),
{
    matches_at(s, pat, 0)
}

/// `s` ends with `pat`.
pub open spec fn ends_with(s: Seq<char>, pat: Seq<char>) -> bool {
    pat.len() <= s.len() && match_at(s, pat, s.len() - pat.len())
}

/// Runtime test for [`ends_with`].
pub fn str_ends_with(s: &str, pat: &str) -> (b: bool)
    ensures
        b == ends_with(s@, pat@),
{
    let n = s.unicode_len();
    let m = pat.unicode_len();
    if m > n {
        return false;
    }
    matches_at(s, pat, n - m)
}

/// The pieces of `s` between occurrences of the separator `pat`, scanning
/// left to right from `start`. A separator at the very end yields a final
/// empty piece, and a separator-free string is a single piece.
pub open spec fn split_from(s: Seq<char>, pat: Seq<char>, start: int) -> Seq<Seq<char>>
    decreases s.len() - start,
        when 0 <= start <= s.len() && pat.len() >= 1
        via split_from_decreases
{
    match first_match_from(s, pat, start) {
        None => seq![s.subrange(start, s.len() as int)],
        Some(i) => seq![s.subrange(start, i)] + split_from(s, pat, i + pat.len()),
    }
}

#[via_fn]
proof fn split_from_decreases(s: Seq<char>, pat: Seq<char>, start: int) {
    if 0 <= start <= s.len() && pat.len() >= 1 {
        if first_match_from(s, pat, start) is Some {
            lemma_first_match_bounds(s, pat, start);
        }
    }
}

/// The pieces of `s` between occurrences of the separator `pat`.
pub open spec fn split_on(s: Seq<char>, pat: Seq<char>) -> Seq<Seq<char>> {
    split_from(s, pat, 0)
}

/// Runtime splitting on a non-empty separator.
pub fn split_str(s: &str, pat: &str) -> (parts: Vec<String>)
    requires
        pat@.len() >= 1,
    ensures
        parts.deep_view() == split_on(s@, pat@),
{
    let n = s.unicode_len();
    let m = pat.unicode_len();
    let mut parts: Vec<String> = Vec::new();
    let mut start: usize = 0;
    loop
        invariant
            start <= n,
            n == s@.len(),
            m == pat@.len(),
            m >= 1,
            split_from(s@, pat@, 0) =~= parts.deep_view() + split_from(s@, pat@, start as int),
        decreases n - start,
    {
        let found = find_from(s, pat, start);
        match found {
            None => {
                let ghost prev = parts.deep_view();
                let piece = s.substring_char(start, n).to_owned();
                parts.push(piece);
                proof {
                    assert(parts.deep_view() =~= prev.push(s@.subrange(start as int, n as int)));
                    assert(parts.deep_view() =~= split_from(s@, pat@, 0));
                }
                return parts;
            },
            Some(i) => {
                proof {
                    lemma_first_match_bounds(s@, pat@, start as int);
                }
                let ghost prev = parts.deep_view();
                let ghost old_start = start as int;
                let piece = s.substring_char(start, i).to_owned();
                parts.push(piece);
                start = i + m;
                proof {
                    assert(parts.deep_view() =~= prev.push(s@.subrange(old_start, i as int)));
                    assert(split_from(s@, pat@, old_start) =~= seq![s@.subrange(old_start, i as int)]
                        + split_from(s@, pat@, start as int));
                    assert(split_from(s@, pat@, 0) =~= parts.deep_view() + split_from(
                        s@,
                        pat@,
                        start as int,
                    ));
                }
            },
        }
    }
}

/// `s` without its leading whitespace.
pub open spec fn trim_front(s: Seq<char>) -> Seq<char>
    decreases s.len(),
{
    if s.len() > 0 && is_space(s[0]) {
        trim_front(s.skip(1))
    } else {
        s
    }
}

/// `s` without its trailing whitespace.
pub open spec fn trim_back(s: Seq<char>) -> Seq<char>
    decreases s.len(),
{
    if s.len() > 0 && is_space(s.last()) {
        trim_back(s.drop_last())
    } else {
        s
    }
}

/// `s` without leading and trailing whitespace.
pub open spec fn trim_spec(s: Seq<char>) -> Seq<char> {
    trim_back(trim_front(s))
}

/// Runtime trimming of both ends.
pub fn trim(s: &str) -> (r: String)
    ensures
        r@ == trim_spec(s@),
{
    let n = s.unicode_len();
    proof {
        assert(s@.skip(0) =~= s@);
    }
    let mut i: usize = 0;
    while i < n && is_space_char(s.get_char(i))
        invariant
            i <= n,
            n == s@.len(),
            trim_front(s@) == trim_front(s@.skip(i as int)),
        decreases n - i,
    {
        proof {
            assert(s@.skip(i as int).skip(1) =~= s@.skip(i as int + 1));
        }
        i += 1;
    }
    proof {
        assert(trim_front(s@) == s@.skip(i as int));
    }
    let mut j: usize = n;
    while j > i && is_space_char(s.get_char(j - 1))
        invariant
            i <= j <= n,
            n == s@.len(),
            trim_back(s@.skip(i as int)) == trim_back(s@.subrange(i as int, j as int)),
        decreases j,
    {
        proof {
            assert(s@.subrange(i as int, j as int).drop_last() =~= s@.subrange(
                i as int,
                j as int - 1,
            ));
        }
        j -= 1;
    }
    proof {
        assert(s@.skip(i as int) =~= s@.subrange(i as int, n as int));
        assert(trim_back(s@.subrange(i as int, j as int)) == s@.subrange(i as int, j as int));
    }
    s.substring_char(i, j).to_owned()
}

/// A line with a trailing carriage return has it removed.
pub open spec fn strip_cr(l: Seq<char>) -> Seq<char> {
    if l.len() > 0 && l.last() == '\r' {
        l.drop_last()
    } else {
        l
    }
}

/// The lines of `s`: pieces between newlines, with no final empty line for a
/// trailing newline, and with a trailing carriage return removed from each.
pub open spec fn lines_of(s: Seq<char>) -> Seq<Seq<char>> {
    if s.len() == 0 {
        Seq::empty()
    } else {
        let body = if s.last() == '\n' {
            s.drop_last()
        } else {
            s
        };
        split_on(body, seq!['\n']).map_values(|l: Seq<char>| strip_cr(l))
    }
}

/// Runtime line decomposition matching [`lines_of`].
pub fn str_lines(s: &str) -> (ls: Vec<String>)
    ensures
        ls.deep_view() == lines_of(s@),
{
    let n = s.unicode_len();
    if n == 0 {
        let ls: Vec<String> = Vec::new();
        proof {
            assert(ls.deep_view() =~= lines_of(s@));
        }
        return ls;
    }
    let body: &str = if s.get_char(n - 1) == '\n' {
        s.substring_char(0, n - 1)
    } else {
        s
    };
    proof {
        reveal_strlit("\n");
        assert("\n"@ =~= seq!['\n']);
        assert(s@.drop_last() =~= s@.subrange(0, n as int - 1));
    }
    let parts = split_str(body, "\n");
    let ghost gparts = split_on(body@, seq!['\n']);
    let mut ls: Vec<String> = Vec::new();
    let mut idx: usize = 0;
    while idx < parts.len()
        invariant
            idx <= parts.len(),
            parts.deep_view() == gparts,
            ls.deep_view() =~= gparts.map_values(|l: Seq<char>| strip_cr(l)).take(idx as int),
        decreases parts.len() - idx,
    {
        let ghost prev = ls.deep_view();
        let p: &String = &parts[idx];
        let pn = p.as_str().unicode_len();
        if pn > 0 && p.as_str().get_char(pn - 1) == '\r' {
            ls.push(p.as_str().substring_char(0, pn - 1).to_owned());
            proof {
                assert(p@.subrange(0, pn as int - 1) =~= strip_cr(gparts[idx as int]));
            }
        } else {
            ls.push(p.clone());
        }
        proof {
            assert(ls.deep_view() =~= prev.push(strip_cr(gparts[idx as int])));
            assert(ls.deep_view() =~= gparts.map_values(|l: Seq<char>| strip_cr(l)).take(
                idx as int + 1,
            ));
        }
        idx += 1;
    }
    proof {
        assert(gparts.map_values(|l: Seq<char>| strip_cr(l)).take(parts.deep_view().len() as int)
            =~= lines_of(s@));
    }
    ls
}

/// The position where the whitespace-free token starting at `i` ends.
pub open spec fn token_end(s: Seq<char>, i: int) -> int
    decreases s.len() - i,
        when 0 <= i <= s.len()
{
    if i < s.len() && !is_space(s[i]) {
        token_end(s, i + 1)
    } else {
        i
    }
}

/// The end of a token lies between its start and the end of the text.
pub proof fn lemma_token_end_bounds(s: Seq<char>, i: int)
    requires
        0 <= i <= s.len(),
    ensures
        i <= token_end(s, i) <= s.len(),
    decreases s.len() - i,
{
    if i < s.len() && !is_space(s[i]) {
        lemma_token_end_bounds(s, i + 1);
    }
}

/// The maximal whitespace-free tokens of `s` from position `i` on.
pub open spec fn tokens_from(s: Seq<char>, i: int) -> Seq<Seq<char>>
    decreases s.len() - i,
        when 0 <= i <= s.len()
        via tokens_from_decreases
{
    if i >= s.len() {
        Seq::empty()
    } else if is_space(s[i]) {
        tokens_from(s, i + 1)
    } else {
        seq![s.subrange(i, token_end(s, i))] + tokens_from(s, token_end(s, i))
    }
}

#[via_fn]
proof fn tokens_from_decreases(s: Seq<char>, i: int) {
    if 0 <= i < s.len() && !is_space(s[i]) {
        lemma_token_end_bounds(s, i + 1);
    }
}

/// The maximal whitespace-free tokens of `s`, in order.
pub open spec fn tokens_of(s: Seq<char>) -> Seq<Seq<char>> {
    tokens_from(s, 0)
}

/// Runtime whitespace tokenisation matching [`tokens_of`].
pub fn split_whitespace_str(s: &str) -> (toks: Vec<String>)
    ensures
        toks.deep_view() == tokens_of(s@),
{
    let n = s.unicode_len();
    let mut toks: Vec<String> = Vec::new();
    let mut i: usize = 0;
    while i < n
        invariant
            i <= n,
            n == s@.len(),
            tokens_from(s@, 0) =~= toks.deep_view() + tokens_from(s@, i as int),
        decreases n - i,
    {
        if is_space_char(s.get_char(i)) {
            i += 1;
        } else {
            let mut j: usize = i;
            while j < n && !is_space_char(s.get_char(j))
                invariant
                    i <= j <= n,
                    n == s@.len(),
                    token_end(s@, i as int) == token_end(s@, j as int),
                decreases n - j,
            {
                j += 1;
            }
            proof {
                assert(token_end(s@, i as int) == j as int);
            }
            let ghost prev = toks.deep_view();
            toks.push(s.substring_char(i, j).to_owned());
            proof {
                assert(toks.deep_view() =~= prev.push(s@.subrange(i as int, j as int)));
                assert(tokens_from(s@, i as int) =~= seq![s@.subrange(i as int, j as int)]
                    + tokens_from(s@, j as int));
                assert(tokens_from(s@, 0) =~= toks.deep_view() + tokens_from(s@, j as int));
            }
            i = j;
        }
    }
    toks
}

/// The elements of `parts` from position `i` on, joined by `sep`.
pub open spec fn join_from(parts: Seq<Seq<char>>, sep: Seq<char>, i: int) -> Seq<char>
    decreases parts.len() - i,
        when 0 <= i <= parts.len()
{
    if i >= parts.len() {
        Seq::empty()
    } else if i == parts.len() - 1 {
        parts[i]
    } else {
        parts[i] + sep + join_from(parts, sep, i + 1)
    }
}

/// The elements of `parts` joined by `sep`.
pub open spec fn join_with(parts: Seq<Seq<char>>, sep: Seq<char>) -> Seq<char> {
    join_from(parts, sep, 0)
}

/// Runtime joining of `parts` from `from` on, matching [`join_from`].
pub fn join_strings_from(parts: &Vec<String>, sep: &str, from: usize) -> (r: String)
    requires
        from <= parts.len(),
    ensures
        r@ == join_from(parts.deep_view(), sep@, from as int),
    decreases parts.len() - from,
{
    if from >= parts.len() {
        String::new()
    } else if from == parts.len() - 1 {
        parts[from].clone()
    } else {
        let rest = join_strings_from(parts, sep, from + 1);
        let r = parts[from].clone().concat(sep).concat(rest.as_str());
        proof {
            assert(r@ =~= join_from(parts.deep_view(), sep@, from as int));
        }
        r
    }
}

/// Runtime joining of all of `parts`, matching [`join_with`].
pub fn join_strings(parts: &Vec<String>, sep: &str) -> (r: String)
    ensures
        r@ == join_with(parts.deep_view(), sep@),
{
    join_strings_from(parts, sep, 0)
}

} // verus!
