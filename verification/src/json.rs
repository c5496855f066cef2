//! A verified parser for the JSON subset that the commit-log template
//! emits: an object whose members are strings, booleans, or arrays of
//! strings. Strings know the standard single-character escapes; anything
//! outside the subset makes the record ill-formed, and the caller skips it.

use vstd::prelude::*;
use crate::text::{is_space, match_at};
use crate::text::{is_space_char, matches_at};

verus! {

/// A parsed JSON value of the subset.
pub enum JsonVal {
    Str(String),
    Bool(bool),
    Arr(Vec<String>),
}

/// Mathematical image of a [`JsonVal`].
pub ghost enum JsonValue {
    Str(Seq<char>),
    Bool(bool),
    Arr(Seq<Seq<char>>),
}

impl DeepView for JsonVal {
    type V = JsonValue;

    open spec fn deep_view(&self) -> JsonValue {
        match self {
            JsonVal::Str(s) => JsonValue::Str(s@),
            JsonVal::Bool(b) => JsonValue::Bool(*b),
            JsonVal::Arr(v) => JsonValue::Arr(v.deep_view()),
        }
    }
}

/// One member of a JSON object.
pub struct JsonPair {
    pub key: String,
    pub value: JsonVal,
}

/// Mathematical image of a [`JsonPair`].
pub ghost struct JsonPairView {
    pub key: Seq<char>,
    pub value: JsonValue,
}

impl DeepView for JsonPair {
    type V = JsonPairView;

    open spec fn deep_view(&self) -> JsonPairView {
        JsonPairView { key: self.key@, value: self.value.deep_view() }
    }
}

/// The first position at or after `i` whose character is not whitespace.
pub open spec fn skip_ws(s: Seq<char>, i: int) -> int
    decreases s.len() - i,
        when 0 <= i <= s.len()
{
    if i < s.len() && is_space(s[i]) {
        skip_ws(s, i + 1)
    } else {
        i
    }
}

/// Skipping whitespace stays between the start and the end of the text.
pub proof fn lemma_skip_ws_bounds(s: Seq<char>, i: int)
    requires
        0 <= i <= s.len(),
    ensures
        i <= skip_ws(s, i) <= s.len(),
    decreases s.len() - i,
{
    if i < s.len() && is_space(s[i]) {
        lemma_skip_ws_bounds(s, i + 1);
    }
}

/// What a backslash escape stands for, if it is one of the subset.
pub open spec fn unescape_char(c: char) -> Option<char> {
    if c == '"' {
        Some('"')
    } else if c == '\\' {
        Some('\\')
    } else if c == '/' {
        Some('/')
    } else if c == 'n' {
        Some('\n')
    } else if c == 't' {
        Some('\t')
    } else if c == 'r' {
        Some('\r')
    } else if c == 'b' {
        Some('\u{0008}')
    } else if c == 'f' {
        Some('\u{000C}')
    } else {
        None::<char>
    }
}

/// The decoded text of a string literal's body starting at `i` (just after
/// the opening quote), and the position after its closing quote.
pub open spec fn parse_string_body(s: Seq<char>, i: int) -> Option<(Seq<char>, int)>
    decreases s.len() - i,
        when 0 <= i <= s.len()
{
    if i >= s.len() {
        None::<(Seq<char>, int)>
    } else if s[i] == '"' {
        Some((Seq::<char>::empty(), i + 1))
    } else if s[i] == '\\' {
        if i + 1 >= s.len() {
            None::<(Seq<char>, int)>
        } else {
            match unescape_char(s[i + 1]) {
                None => None::<(Seq<char>, int)>,
                Some(c) => match parse_string_body(s, i + 2) {
                    None => None::<(Seq<char>, int)>,
                    Some(r) => Some((seq![c] + r.0, r.1)),
                },
            }
        }
    } else {
        match parse_string_body(s, i + 1) {
            None => None::<(Seq<char>, int)>,
            Some(r) => Some((seq![s[i]] + r.0, r.1)),
        }
    }
}

/// A parsed string body ends after its start and within the text.
pub proof fn lemma_parse_string_body_bounds(s: Seq<char>, i: int)
    requires
        0 <= i <= s.len(),
        parse_string_body(s, i) is Some,
    ensures
        i < parse_string_body(s, i)->Some_0.1 <= s.len(),
    decreases s.len() - i,
{
    if i >= s.len() {
    } else if s[i] == '"' {
    } else if s[i] == '\\' {
        if i + 1 < s.len() && unescape_char(s[i + 1]) is Some && parse_string_body(s, i + 2)
            is Some {
            lemma_parse_string_body_bounds(s, i + 2);
        }
    } else {
        if parse_string_body(s, i + 1) is Some {
            lemma_parse_string_body_bounds(s, i + 1);
        }
    }
}

/// The decoded text of a string literal starting at `i` (at its opening
/// quote), and the position after its closing quote.
pub open spec fn parse_string(s: Seq<char>, i: int) -> Option<(Seq<char>, int)> {
    if 0 <= i < s.len() && s[i] == '"' {
        parse_string_body(s, i + 1)
    } else {
        None::<(Seq<char>, int)>
    }
}

/// A parsed string ends after its start and within the text.
pub proof fn lemma_parse_string_bounds(s: Seq<char>, i: int)
    requires
        parse_string(s, i) is Some,
    ensures
        i < parse_string(s, i)->Some_0.1 <= s.len(),
{
    lemma_parse_string_body_bounds(s, i + 1);
}

/// A boolean literal starting at `i`, and the position after it.
pub open spec fn parse_bool(s: Seq<char>, i: int) -> Option<(bool, int)> {
    if match_at(s, "true"@, i) {
        Some((true, i + "true"@.len() as int))
    } else if match_at(s, "false"@, i) {
        Some((false, i + "false"@.len() as int))
    } else {
        None::<(bool, int)>
    }
}

/// A parsed boolean ends after its start and within the text.
pub proof fn lemma_parse_bool_bounds(s: Seq<char>, i: int)
    requires
        parse_bool(s, i) is Some,
    ensures
        i < parse_bool(s, i)->Some_0.1 <= s.len(),
{
    reveal_strlit("true");
    reveal_strlit("false");
}

/// The items of a string array after its first item: from `i`, whitespace
/// then either the closing bracket, or a comma, whitespace and a further
/// string literal, and so on. Returns the remaining items and the position
/// after the closing bracket.
pub open spec fn parse_array_tail(s: Seq<char>, i: int) -> Option<(Seq<Seq<char>>, int)>
    decreases s.len() - i,
        when 0 <= i <= s.len()
        via parse_array_tail_decreases
{
    let j = skip_ws(s, i);
    if j < s.len() && s[j] == ']' {
        Some((Seq::<Seq<char>>::empty(), j + 1))
    } else if j < s.len() && s[j] == ',' {
        let k = skip_ws(s, j + 1);
        match parse_string(s, k) {
            None => None::<(Seq<Seq<char>>, int)>,
            Some(r) => match parse_array_tail(s, r.1) {
                None => None::<(Seq<Seq<char>>, int)>,
                Some(t) => Some((seq![r.0] + t.0, t.1)),
            },
        }
    } else {
        None::<(Seq<Seq<char>>, int)>
    }
}

#[via_fn]
proof fn parse_array_tail_decreases(s: Seq<char>, i: int) {
    if 0 <= i <= s.len() {
        lemma_skip_ws_bounds(s, i);
        let j = skip_ws(s, i);
        if j < s.len() && s[j] != ']' && s[j] == ',' {
            lemma_skip_ws_bounds(s, j + 1);
            let k = skip_ws(s, j + 1);
            if parse_string(s, k) is Some {
                lemma_parse_string_bounds(s, k);
            }
        }
    }
}

/// A parsed array tail ends within the text, after its start.
pub proof fn lemma_parse_array_tail_bounds(s: Seq<char>, i: int)
    requires
        0 <= i <= s.len(),
        parse_array_tail(s, i) is Some,
    ensures
        i < parse_array_tail(s, i)->Some_0.1 <= s.len(),
    decreases s.len() - i,
{
    lemma_skip_ws_bounds(s, i);
    let j = skip_ws(s, i);
    if j < s.len() && s[j] == ']' {
    } else if j < s.len() && s[j] == ',' {
        lemma_skip_ws_bounds(s, j + 1);
        let k = skip_ws(s, j + 1);
        if parse_string(s, k) is Some {
            lemma_parse_string_bounds(s, k);
            let r = parse_string(s, k)->Some_0;
            if parse_array_tail(s, r.1) is Some {
                lemma_parse_array_tail_bounds(s, r.1);
            }
        }
    }
}

/// An array of string literals starting at `i` (at its opening bracket),
/// and the position after its closing bracket.
pub open spec fn parse_array(s: Seq<char>, i: int) -> Option<(Seq<Seq<char>>, int)> {
    if 0 <= i < s.len() && s[i] == '[' {
        let j = skip_ws(s, i + 1);
        if j < s.len() && s[j] == ']' {
            Some((Seq::<Seq<char>>::empty(), j + 1))
        } else {
            match parse_string(s, j) {
                None => None::<(Seq<Seq<char>>, int)>,
                Some(r) => match parse_array_tail(s, r.1) {
                    None => None::<(Seq<Seq<char>>, int)>,
                    Some(t) => Some((seq![r.0] + t.0, t.1)),
                },
            }
        }
    } else {
        None::<(Seq<Seq<char>>, int)>
    }
}

/// A parsed array ends within the text, after its start.
pub proof fn lemma_parse_array_bounds(s: Seq<char>, i: int)
    requires
        parse_array(s, i) is Some,
    ensures
        i < parse_array(s, i)->Some_0.1 <= s.len(),
{
    lemma_skip_ws_bounds(s, i + 1);
    let j = skip_ws(s, i + 1);
    if j < s.len() && s[j] == ']' {
    } else {
        lemma_parse_string_bounds(s, j);
        let r = parse_string(s, j)->Some_0;
        lemma_parse_array_tail_bounds(s, r.1);
    }
}

/// A value of the subset starting at `i`: a string, an array of strings, or
/// a boolean.
pub open spec fn parse_value(s: Seq<char>, i: int) -> Option<(JsonValue, int)> {
    if 0 <= i < s.len() && s[i] == '"' {
        match parse_string(s, i) {
            None => None::<(JsonValue, int)>,
            Some(r) => Some((JsonValue::Str(r.0), r.1)),
        }
    } else if 0 <= i < s.len() && s[i] == '[' {
        match parse_array(s, i) {
            None => None::<(JsonValue, int)>,
            Some(r) => Some((JsonValue::Arr(r.0), r.1)),
        }
    } else {
        match parse_bool(s, i) {
            None => None::<(JsonValue, int)>,
            Some(r) => Some((JsonValue::Bool(r.0), r.1)),
        }
    }
}

/// A parsed value ends within the text, after its start.
pub proof fn lemma_parse_value_bounds(s: Seq<char>, i: int)
    requires
        parse_value(s, i) is Some,
    ensures
        i < parse_value(s, i)->Some_0.1 <= s.len(),
{
    if 0 <= i < s.len() && s[i] == '"' {
        lemma_parse_string_bounds(s, i);
    } else if 0 <= i < s.len() && s[i] == '[' {
        lemma_parse_array_bounds(s, i);
    } else {
        lemma_parse_bool_bounds(s, i);
    }
}

/// One `key: value` member starting at `i` (at the key's opening quote),
/// and the position after the value.
pub open spec fn parse_pair(s: Seq<char>, i: int) -> Option<(JsonPairView, int)> {
    match parse_string(s, i) {
        None => None::<(JsonPairView, int)>,
        Some(k) => {
            let j = skip_ws(s, k.1);
            if j < s.len() && s[j] == ':' {
                let v = skip_ws(s, j + 1);
                match parse_value(s, v) {
                    None => None::<(JsonPairView, int)>,
                    Some(r) => Some((JsonPairView { key: k.0, value: r.0 }, r.1)),
                }
            } else {
                None::<(JsonPairView, int)>
            }
        },
    }
}

/// A parsed member ends within the text, after its start.
pub proof fn lemma_parse_pair_bounds(s: Seq<char>, i: int)
    requires
        parse_pair(s, i) is Some,
    ensures
        i < parse_pair(s, i)->Some_0.1 <= s.len(),
{
    lemma_parse_string_bounds(s, i);
    let k = parse_string(s, i)->Some_0;
    lemma_skip_ws_bounds(s, k.1);
    let j = skip_ws(s, k.1);
    if j < s.len() && s[j] == ':' {
        lemma_skip_ws_bounds(s, j + 1);
        let v = skip_ws(s, j + 1);
        if parse_value(s, v) is Some {
            lemma_parse_value_bounds(s, v);
        }
    }
}

/// The members of an object after its first member: from `i`, whitespace
/// then either the closing brace, or a comma, whitespace and a further
/// member, and so on. Returns the remaining members and the position after
/// the closing brace.
pub open spec fn parse_object_tail(s: Seq<char>, i: int) -> Option<(Seq<JsonPairView>, int)>
    decreases s.len() - i,
        when 0 <= i <= s.len()
        via parse_object_tail_decreases
{
    let j = skip_ws(s, i);
    if j < s.len() && s[j] == '}' {
        Some((Seq::<JsonPairView>::empty(), j + 1))
    } else if j < s.len() && s[j] == ',' {
        let k = skip_ws(s, j + 1);
        match parse_pair(s, k) {
            None => None::<(Seq<JsonPairView>, int)>,
            Some(p) => match parse_object_tail(s, p.1) {
                None => None::<(Seq<JsonPairView>, int)>,
                Some(t) => Some((seq![p.0] + t.0, t.1)),
            },
        }
    } else {
        None::<(Seq<JsonPairView>, int)>
    }
}

#[via_fn]
proof fn parse_object_tail_decreases(s: Seq<char>, i: int) {
    if 0 <= i <= s.len() {
        lemma_skip_ws_bounds(s, i);
        let j = skip_ws(s, i);
        if j < s.len() && s[j] != '}' && s[j] == ',' {
            lemma_skip_ws_bounds(s, j + 1);
            let k = skip_ws(s, j + 1);
            if parse_pair(s, k) is Some {
                lemma_parse_pair_bounds(s, k);
            }
        }
    }
}

/// A parsed object tail ends within the text, after its start.
pub proof fn lemma_parse_object_tail_bounds(s: Seq<char>, i: int)
    requires
        0 <= i <= s.len(),
        parse_object_tail(s, i) is Some,
    ensures
        i < parse_object_tail(s, i)->Some_0.1 <= s.len(),
    decreases s.len() - i,
{
    lemma_skip_ws_bounds(s, i);
    let j = skip_ws(s, i);
    if j < s.len() && s[j] == '}' {
    } else if j < s.len() && s[j] == ',' {
        lemma_skip_ws_bounds(s, j + 1);
        let k = skip_ws(s, j + 1);
        if parse_pair(s, k) is Some {
            lemma_parse_pair_bounds(s, k);
            let p = parse_pair(s, k)->Some_0;
            if parse_object_tail(s, p.1) is Some {
                lemma_parse_object_tail_bounds(s, p.1);
            }
        }
    }
}

/// An object of the subset starting at `i` (at its opening brace): its
/// members in order, and the position after its closing brace.
pub open spec fn parse_object(s: Seq<char>, i: int) -> Option<(Seq<JsonPairView>, int)> {
    if 0 <= i < s.len() && s[i] == '{' {
        let j = skip_ws(s, i + 1);
        if j < s.len() && s[j] == '}' {
            Some((Seq::<JsonPairView>::empty(), j + 1))
        } else {
            match parse_pair(s, j) {
                None => None::<(Seq<JsonPairView>, int)>,
                Some(p) => match parse_object_tail(s, p.1) {
                    None => None::<(Seq<JsonPairView>, int)>,
                    Some(t) => Some((seq![p.0] + t.0, t.1)),
                },
            }
        }
    } else {
        None::<(Seq<JsonPairView>, int)>
    }
}

/// A parsed object ends within the text, after its start.
pub proof fn lemma_parse_object_bounds(s: Seq<char>, i: int)
    requires
        parse_object(s, i) is Some,
    ensures
        i < parse_object(s, i)->Some_0.1 <= s.len(),
{
    lemma_skip_ws_bounds(s, i + 1);
    let j = skip_ws(s, i + 1);
    if j < s.len() && s[j] == '}' {
    } else {
        lemma_parse_pair_bounds(s, j);
        let p = parse_pair(s, j)->Some_0;
        lemma_parse_object_tail_bounds(s, p.1);
    }
}

/// Runtime whitespace skipping matching [`skip_ws`].
pub fn skip_ws_at(s: &str, i: usize) -> (j: usize)
    requires
        i <= s@.len(),
    ensures
        j as int == skip_ws(s@, i as int),
        i <= j <= s@.len(),
{
    let n = s.unicode_len();
    let mut j: usize = i;
    while j < n && is_space_char(s.get_char(j))
        invariant
            i <= j <= n,
            n == s@.len(),
            skip_ws(s@, i as int) == skip_ws(s@, j as int),
        decreases n - j,
    {
        j += 1;
    }
    j
}

/// Runtime escape decoding: the decoded character as a one-character text,
/// matching [`unescape_char`].
pub fn unescape_str(e: char) -> (r: Option<&'static str>)
    ensures
        r is Some <==> unescape_char(e) is Some,
        r matches Some(t) ==> t@ == seq![unescape_char(e)->Some_0],
{
    proof {
        reveal_strlit("\"");
        reveal_strlit("\\");
        reveal_strlit("/");
        reveal_strlit("\n");
        reveal_strlit("\t");
        reveal_strlit("\r");
        reveal_strlit("\u{0008}");
        reveal_strlit("\u{000C}");
    }
    match e {
        '"' => Some("\""),
        '\\' => Some("\\"),
        '/' => Some("/"),
        'n' => Some("\n"),
        't' => Some("\t"),
        'r' => Some("\r"),
        'b' => Some("\u{0008}"),
        'f' => Some("\u{000C}"),
        _ => None,
    }
}

/// Runtime string-body parsing matching [`parse_string_body`].
pub fn json_string_body(s: &str, i: usize) -> (r: Option<(String, usize)>)
    requires
        i <= s@.len(),
    ensures
        r is Some <==> parse_string_body(s@, i as int) is Some,
        r matches Some(p) ==> p.0@ == parse_string_body(s@, i as int)->Some_0.0 && p.1 as int
            == parse_string_body(s@, i as int)->Some_0.1,
    decreases s@.len() - i,
{
    let n = s.unicode_len();
    if i >= n {
        return None;
    }
    let c = s.get_char(i);
    if c == '"' {
        return Some((String::new(), i + 1));
    }
    if c == '\\' {
        if i + 1 >= n {
            return None;
        }
        let e = s.get_char(i + 1);
        match unescape_str(e) {
            None => None,
            Some(t) => match json_string_body(s, i + 2) {
                None => None,
                Some(rest) => {
                    let body = t.to_owned().concat(rest.0.as_str());
                    proof {
                        assert(body@ =~= seq![unescape_char(e)->Some_0] + rest.0@);
                    }
                    Some((body, rest.1))
                },
            },
        }
    } else {
        match json_string_body(s, i + 1) {
            None => None,
            Some(rest) => {
                let head = s.substring_char(i, i + 1).to_owned();
                let body = head.concat(rest.0.as_str());
                proof {
                    assert(head@ =~= seq![s@[i as int]]);
                    assert(body@ =~= seq![s@[i as int]] + rest.0@);
                }
                Some((body, rest.1))
            },
        }
    }
}

/// Runtime string parsing matching [`parse_string`].
pub fn json_string(s: &str, i: usize) -> (r: Option<(String, usize)>)
    requires
        i <= s@.len(),
    ensures
        r is Some <==> parse_string(s@, i as int) is Some,
        r matches Some(p) ==> p.0@ == parse_string(s@, i as int)->Some_0.0 && p.1 as int
            == parse_string(s@, i as int)->Some_0.1,
{
    let n = s.unicode_len();
    if i < n && s.get_char(i) == '"' {
        json_string_body(s, i + 1)
    } else {
        None
    }
}

/// Runtime boolean parsing matching [`parse_bool`].
pub fn json_bool(s: &str, i: usize) -> (r: Option<(bool, usize)>)
    requires
        i <= s@.len(),
    ensures
        r is Some <==> parse_bool(s@, i as int) is Some,
        r matches Some(p) ==> p.0 == parse_bool(s@, i as int)->Some_0.0 && p.1 as int == parse_bool(
            s@,
            i as int,
        )->Some_0.1,
{
    proof {
        reveal_strlit("true");
        reveal_strlit("false");
    }
    let n = s.unicode_len();
    if matches_at(s, "true", i) {
        proof {
            assert(i + 4 <= n);
        }
        Some((true, i + 4))
    } else if matches_at(s, "false", i) {
        proof {
            assert(i + 5 <= n);
        }
        Some((false, i + 5))
    } else {
        None
    }
}

/// Runtime array-tail parsing matching [`parse_array_tail`].
pub fn json_array_tail(s: &str, i: usize) -> (r: Option<(Vec<String>, usize)>)
    requires
        i <= s@.len(),
    ensures
        r is Some <==> parse_array_tail(s@, i as int) is Some,
        r matches Some(p) ==> p.0.deep_view() == parse_array_tail(s@, i as int)->Some_0.0 && p.1
            as int == parse_array_tail(s@, i as int)->Some_0.1,
    decreases s@.len() - i,
{
    let n = s.unicode_len();
    let j = skip_ws_at(s, i);
    if j < n && s.get_char(j) == ']' {
        let items: Vec<String> = Vec::new();
        proof {
            assert(items.deep_view() =~= Seq::<Seq<char>>::empty());
        }
        return Some((items, j + 1));
    }
    if j < n && s.get_char(j) == ',' {
        let k = skip_ws_at(s, j + 1);
        match json_string(s, k) {
            None => None,
            Some(item) => {
                proof {
                    lemma_parse_string_bounds(s@, k as int);
                }
                match json_array_tail(s, item.1) {
                    None => None,
                    Some(tail) => {
                        let ghost grest = tail.0.deep_view();
                        let mut items = tail.0;
                        items.insert(0, item.0);
                        proof {
                            assert(items.deep_view() =~= seq![item.0@] + grest);
                        }
                        Some((items, tail.1))
                    },
                }
            },
        }
    } else {
        None
    }
}

/// Runtime array parsing matching [`parse_array`].
pub fn json_array(s: &str, i: usize) -> (r: Option<(Vec<String>, usize)>)
    requires
        i <= s@.len(),
    ensures
        r is Some <==> parse_array(s@, i as int) is Some,
        r matches Some(p) ==> p.0.deep_view() == parse_array(s@, i as int)->Some_0.0 && p.1 as int
            == parse_array(s@, i as int)->Some_0.1,
{
    let n = s.unicode_len();
    if !(i < n && s.get_char(i) == '[') {
        return None;
    }
    let j = skip_ws_at(s, i + 1);
    if j < n && s.get_char(j) == ']' {
        let items: Vec<String> = Vec::new();
        proof {
            assert(items.deep_view() =~= Seq::<Seq<char>>::empty());
        }
        return Some((items, j + 1));
    }
    match json_string(s, j) {
        None => None,
        Some(first) => {
            proof {
                lemma_parse_string_bounds(s@, j as int);
            }
            match json_array_tail(s, first.1) {
                None => None,
                Some(tail) => {
                    let ghost grest = tail.0.deep_view();
                    let mut items = tail.0;
                    items.insert(0, first.0);
                    proof {
                        assert(items.deep_view() =~= seq![first.0@] + grest);
                    }
                    Some((items, tail.1))
                },
            }
        },
    }
}

/// Runtime value parsing matching [`parse_value`].
pub fn json_value(s: &str, i: usize) -> (r: Option<(JsonVal, usize)>)
    requires
        i <= s@.len(),
    ensures
        r is Some <==> parse_value(s@, i as int) is Some,
        r matches Some(p) ==> p.0.deep_view() == parse_value(s@, i as int)->Some_0.0 && p.1 as int
            == parse_value(s@, i as int)->Some_0.1,
{
    let n = s.unicode_len();
    if i < n && s.get_char(i) == '"' {
        match json_string(s, i) {
            None => None,
            Some(p) => Some((JsonVal::Str(p.0), p.1)),
        }
    } else if i < n && s.get_char(i) == '[' {
        match json_array(s, i) {
            None => None,
            Some(p) => Some((JsonVal::Arr(p.0), p.1)),
        }
    } else {
        match json_bool(s, i) {
            None => None,
            Some(p) => Some((JsonVal::Bool(p.0), p.1)),
        }
    }
}

/// Runtime member parsing matching [`parse_pair`].
pub fn json_pair(s: &str, i: usize) -> (r: Option<(JsonPair, usize)>)
    requires
        i <= s@.len(),
    ensures
        r is Some <==> parse_pair(s@, i as int) is Some,
        r matches Some(p) ==> p.0.deep_view() == parse_pair(s@, i as int)->Some_0.0 && p.1 as int
            == parse_pair(s@, i as int)->Some_0.1,
{
    let n = s.unicode_len();
    match json_string(s, i) {
        None => None,
        Some(k) => {
            proof {
                lemma_parse_string_bounds(s@, i as int);
            }
            let j = skip_ws_at(s, k.1);
            if j < n && s.get_char(j) == ':' {
                let v = skip_ws_at(s, j + 1);
                match json_value(s, v) {
                    None => None,
                    Some(r) => Some((JsonPair { key: k.0, value: r.0 }, r.1)),
                }
            } else {
                None
            }
        },
    }
}

/// Runtime object-tail parsing matching [`parse_object_tail`].
pub fn json_object_tail(s: &str, i: usize) -> (r: Option<(Vec<JsonPair>, usize)>)
    requires
        i <= s@.len(),
    ensures
        r is Some <==> parse_object_tail(s@, i as int) is Some,
        r matches Some(p) ==> p.0.deep_view() == parse_object_tail(s@, i as int)->Some_0.0 && p.1
            as int == parse_object_tail(s@, i as int)->Some_0.1,
    decreases s@.len() - i,
{
    let n = s.unicode_len();
    let j = skip_ws_at(s, i);
    if j < n && s.get_char(j) == '}' {
        let members: Vec<JsonPair> = Vec::new();
        proof {
            assert(members.deep_view() =~= Seq::<JsonPairView>::empty());
        }
        return Some((members, j + 1));
    }
    if j < n && s.get_char(j) == ',' {
        let k = skip_ws_at(s, j + 1);
        match json_pair(s, k) {
            None => None,
            Some(p) => {
                proof {
                    lemma_parse_pair_bounds(s@, k as int);
                }
                match json_object_tail(s, p.1) {
                    None => None,
                    Some(tail) => {
                        let ghost grest = tail.0.deep_view();
                        let mut members = tail.0;
                        members.insert(0, p.0);
                        proof {
                            assert(members.deep_view() =~= seq![p.0.deep_view()] + grest);
                        }
                        Some((members, tail.1))
                    },
                }
            },
        }
    } else {
        None
    }
}

/// Runtime object parsing matching [`parse_object`].
pub fn json_object(s: &str, i: usize) -> (r: Option<(Vec<JsonPair>, usize)>)
    requires
        i <= s@.len(),
    ensures
        r is Some <==> parse_object(s@, i as int) is Some,
        r matches Some(p) ==> p.0.deep_view() == parse_object(s@, i as int)->Some_0.0 && p.1 as int
            == parse_object(s@, i as int)->Some_0.1,
{
    let n = s.unicode_len();
    if !(i < n && s.get_char(i) == '{') {
        return None;
    }
    let j = skip_ws_at(s, i + 1);
    if j < n && s.get_char(j) == '}' {
        let members: Vec<JsonPair> = Vec::new();
        proof {
            assert(members.deep_view() =~= Seq::<JsonPairView>::empty());
        }
        return Some((members, j + 1));
    }
    match json_pair(s, j) {
        None => None,
        Some(p) => {
            proof {
                lemma_parse_pair_bounds(s@, j as int);
            }
            match json_object_tail(s, p.1) {
                None => None,
                Some(tail) => {
                    let ghost grest = tail.0.deep_view();
                    let mut members = tail.0;
                    members.insert(0, p.0);
                    proof {
                        assert(members.deep_view() =~= seq![p.0.deep_view()] + grest);
                    }
                    Some((members, tail.1))
                },
            }
        },
    }
}

} // verus!
