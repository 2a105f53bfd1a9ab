//! The text encoding of the protocol: a JSON value tree, a spec-level
//! grammar over character sequences, and an executable parser proved to
//! return exactly what the grammar says.
//!
//! The grammar covers objects, arrays, strings with the single-character
//! escapes, integers in the `i64` range, the three literal words, and
//! whitespace. Texts outside it (floats, `\u` escapes) are rejected; at the
//! protocol layer every rejection becomes an error reply.

use vstd::prelude::*;

verus! {

use vstd::string::StrSliceExecFns;

/// An executable JSON value.
#[derive(Debug)]
pub enum Json {
    Null,
    Bool(bool),
    Int(i64),
    Text(String),
    Arr(Vec<Json>),
    Obj(Vec<(String, Json)>),
}

/// Spec-level model of a JSON value.
#[verifier::ext_equal]
pub enum JsonModel {
    Null,
    Bool(bool),
    Int(int),
    Text(Seq<char>),
    Arr(Seq<JsonModel>),
    Obj(Seq<(Seq<char>, JsonModel)>),
}

/// The model of an executable JSON tree.
pub open spec fn jview(j: Json) -> JsonModel
    decreases j, 0int,
{
    match j {
        Json::Null => JsonModel::Null,
        Json::Bool(b) => JsonModel::Bool(b),
        Json::Int(n) => JsonModel::Int(n as int),
        Json::Text(t) => JsonModel::Text(t@),
        Json::Arr(items) => JsonModel::Arr(jview_seq(items@)),
        Json::Obj(members) => JsonModel::Obj(jview_pairs(members@)),
    }
}

/// The model of a sequence of JSON trees, element by element.
pub open spec fn jview_seq(items: Seq<Json>) -> Seq<JsonModel>
    decreases items, 1int,
{
    if items.len() == 0 {
        Seq::empty()
    } else {
        seq![jview(items[0])] + jview_seq(items.subrange(1, items.len() as int))
    }
}

/// The model of a sequence of object members, member by member.
pub open spec fn jview_pairs(members: Seq<(String, Json)>) -> Seq<(Seq<char>, JsonModel)>
    decreases members, 1int,
{
    if members.len() == 0 {
        Seq::empty()
    } else {
        seq![(members[0].0@, jview(members[0].1))]
            + jview_pairs(members.subrange(1, members.len() as int))
    }
}

/// JSON insignificant whitespace.
pub open spec fn is_ws(c: char) -> bool {
    c == ' ' || c == '\t' || c == '\n' || c == '\r'
}

/// A decimal digit.
pub open spec fn is_digit(c: char) -> bool {
    48 <= c as u32 <= 57
}

/// How many whitespace characters stand at `i`.
pub open spec fn ws_count(s: Seq<char>, i: int) -> nat
    decreases s.len() - i,
{
    if 0 <= i < s.len() && is_ws(s[i]) {
        1 + ws_count(s, i + 1)
    } else {
        0
    }
}

/// The first position at or after `i` that holds no whitespace.
pub open spec fn spec_skip_ws(s: Seq<char>, i: int) -> int {
    i + ws_count(s, i) as int
}

/// How many decimal digits stand at `i`.
pub open spec fn digit_count(s: Seq<char>, i: int) -> nat
    decreases s.len() - i,
{
    if 0 <= i < s.len() && is_digit(s[i]) {
        1 + digit_count(s, i + 1)
    } else {
        0
    }
}

/// The value of the decimal digit run `s[i..j)`.
pub open spec fn digits_val(s: Seq<char>, i: int, j: int) -> int
    decreases j - i,
{
    if j <= i {
        0
    } else {
        digits_val(s, i, j - 1) * 10 + (s[j - 1] as u32 - 48)
    }
}

/// What a backslash escape stands for; `None` for an unsupported escape.
pub open spec fn spec_unescape(c: char) -> Option<char> {
    if c == '"' {
        Some('"')
    } else if c == '\\' {
        Some('\\')
    } else if c == '/' {
        Some('/')
    } else if c == 'n' {
        Some('\n')
    } else if c == 't' {
        Some('\t')
    } else if c == 'r' {
        Some('\r')
    } else if c == 'b' {
        Some('\u{8}')
    } else if c == 'f' {
        Some('\u{c}')
    } else {
        None
    }
}

/// Parses the body of a string literal starting right after the opening
/// quote; yields the decoded characters and the position after the closing
/// quote.
pub open spec fn spec_str_body(s: Seq<char>, i: int) -> Option<(Seq<char>, int)>
    decreases s.len() - i,
{
    if !(0 <= i < s.len()) {
        None
    } else if s[i] == '"' {
        Some((Seq::empty(), i + 1))
    } else if s[i] == '\\' {
        if i + 1 < s.len() {
            match spec_unescape(s[i + 1]) {
                Some(c) => match spec_str_body(s, i + 2) {
                    Some((t, j)) => Some((seq![c] + t, j)),
                    None => None,
                },
                None => None,
            }
        } else {
            None
        }
    } else if (s[i] as u32) < 32 {
        None
    } else {
        match spec_str_body(s, i + 1) {
            Some((t, j)) => Some((seq![s[i]] + t, j)),
            None => None,
        }
    }
}

/// Parses an integer starting at `i`: an optional minus sign and a digit
/// run whose value fits in `i64`.
pub open spec fn spec_int_at(s: Seq<char>, i: int) -> Option<(JsonModel, int)> {
    if !(0 <= i < s.len()) {
        None
    } else {
        let neg: bool = s[i] == '-';
        let k: int = if neg { i + 1 } else { i };
        if !(k < s.len() && is_digit(s[k])) {
            None
        } else {
            let e: int = k + digit_count(s, k) as int;
            if s[k] as u32 == 48 && e - k > 1 {
                // a leading zero starts no longer digit run
                None
            } else {
                let v: int = digits_val(s, k, e);
                let m: int = if neg { -v } else { v };
                if i64::MIN <= m <= i64::MAX {
                    Some((JsonModel::Int(m), e))
                } else {
                    None
                }
            }
        }
    }
}

/// Parses one JSON value starting exactly at `i` (no leading whitespace).
pub open spec fn spec_value(s: Seq<char>, i: int) -> Option<(JsonModel, int)>
    decreases s.len() - i, 0int,
{
    if !(0 <= i < s.len()) {
        None
    } else if s[i] == '"' {
        match spec_str_body(s, i + 1) {
            Some((t, j)) => Some((JsonModel::Text(t), j)),
            None => None,
        }
    } else if s[i] == '-' || is_digit(s[i]) {
        spec_int_at(s, i)
    } else if s[i] == 't' {
        if i + 4 <= s.len() && s[i + 1] == 'r' && s[i + 2] == 'u' && s[i + 3] == 'e' {
            Some((JsonModel::Bool(true), i + 4))
        } else {
            None
        }
    } else if s[i] == 'f' {
        if i + 5 <= s.len() && s[i + 1] == 'a' && s[i + 2] == 'l' && s[i + 3] == 's' && s[i + 4]
            == 'e' {
            Some((JsonModel::Bool(false), i + 5))
        } else {
            None
        }
    } else if s[i] == 'n' {
        if i + 4 <= s.len() && s[i + 1] == 'u' && s[i + 2] == 'l' && s[i + 3] == 'l' {
            Some((JsonModel::Null, i + 4))
        } else {
            None
        }
    } else if s[i] == '[' {
        let j: int = spec_skip_ws(s, i + 1);
        if j < s.len() && s[j] == ']' {
            Some((JsonModel::Arr(Seq::empty()), j + 1))
        } else {
            match spec_elements(s, i + 1) {
                Some((items, j2)) => Some((JsonModel::Arr(items), j2)),
                None => None,
            }
        }
    } else if s[i] == '{' {
        let j: int = spec_skip_ws(s, i + 1);
        if j < s.len() && s[j] == '}' {
            Some((JsonModel::Obj(Seq::empty()), j + 1))
        } else {
            match spec_members(s, i + 1) {
                Some((members, j2)) => Some((JsonModel::Obj(members), j2)),
                None => None,
            }
        }
    } else {
        None
    }
}

/// Parses a non-empty, comma-separated run of array elements starting at
/// `i` (whitespace allowed), up to and including the closing bracket.
pub open spec fn spec_elements(s: Seq<char>, i: int) -> Option<(Seq<JsonModel>, int)>
    decreases s.len() - i, 1int,
{
    let j: int = spec_skip_ws(s, i);
    if !(j <= s.len()) {
        None
    } else {
        match spec_value(s, j) {
            None => None,
            Some((v, k)) => if !(j < k <= s.len()) {
                // a parsed value always ends past where it starts
                None
            } else {
                let m: int = spec_skip_ws(s, k);
                if m < s.len() && s[m] == ',' {
                    match spec_elements(s, m + 1) {
                        Some((rest, e)) => Some((seq![v] + rest, e)),
                        None => None,
                    }
                } else if m < s.len() && s[m] == ']' {
                    Some((seq![v], m + 1))
                } else {
                    None
                }
            },
        }
    }
}

/// Parses a non-empty, comma-separated run of object members starting at
/// `i` (whitespace allowed), up to and including the closing brace.
pub open spec fn spec_members(s: Seq<char>, i: int) -> Option<(Seq<(Seq<char>, JsonModel)>, int)>
    decreases s.len() - i, 1int,
{
    let j: int = spec_skip_ws(s, i);
    if !(j < s.len() && s[j] == '"') {
        None
    } else {
        match spec_str_body(s, j + 1) {
            None => None,
            Some((key, k)) => if !(j < k <= s.len()) {
                // a parsed string always ends past its opening quote
                None
            } else {
                let c: int = spec_skip_ws(s, k);
                if !(c < s.len() && s[c] == ':') {
                    None
                } else {
                    let v0: int = spec_skip_ws(s, c + 1);
                    if !(v0 <= s.len()) {
                        None
                    } else {
                        match spec_value(s, v0) {
                            None => None,
                            Some((v, k2)) => if !(v0 < k2 <= s.len()) {
                                None
                            } else {
                                let m: int = spec_skip_ws(s, k2);
                                if m < s.len() && s[m] == ',' {
                                    match spec_members(s, m + 1) {
                                        Some((rest, e)) => Some((seq![(key, v)] + rest, e)),
                                        None => None,
                                    }
                                } else if m < s.len() && s[m] == '}' {
                                    Some((seq![(key, v)], m + 1))
                                } else {
                                    None
                                }
                            },
                        }
                    }
                }
            },
        }
    }
}

/// Parses a whole text: one JSON value, possibly surrounded by whitespace,
/// reaching exactly to the end.
pub open spec fn spec_parse_text(s: Seq<char>) -> Option<JsonModel> {
    match spec_value(s, spec_skip_ws(s, 0)) {
        None => None,
        Some((v, k)) => if spec_skip_ws(s, k) == s.len() {
            Some(v)
        } else {
            None
        },
    }
}

/// The model of a sequence of trees is the sequence of their models.
pub proof fn lemma_jview_seq_index(items: Seq<Json>)
    ensures
        jview_seq(items).len() == items.len(),
        forall|i: int| 0 <= i < items.len() ==> jview_seq(items)[i] == jview(items[i]),
    decreases items.len(),
{
    if items.len() > 0 {
        lemma_jview_seq_index(items.subrange(1, items.len() as int));
    }
}

/// The model of a member sequence is the sequence of member models.
pub proof fn lemma_jview_pairs_index(members: Seq<(String, Json)>)
    ensures
        jview_pairs(members).len() == members.len(),
        forall|i: int|
            0 <= i < members.len() ==> jview_pairs(members)[i] == (
                members[i].0@,
                jview(members[i].1),
            ),
    decreases members.len(),
{
    if members.len() > 0 {
        lemma_jview_pairs_index(members.subrange(1, members.len() as int));
    }
}

/// The characters of a text, in order.
pub fn str_chars(s: &str) -> (v: Vec<char>)
    ensures
        v@ == s@,
{
    let n: usize = s.unicode_len();
    let mut v: Vec<char> = Vec::new();
    let mut i: usize = 0;
    while i < n
        invariant
            i <= n,
            n == s@.len(),
            v@ =~= s@.subrange(0, i as int),
        decreases n - i,
    {
        v.push(s.get_char(i));
        i = i + 1;
    }
    proof {
        assert(v@ =~= s@);
    }
    v
}

/// Relies on `String`'s `FromIterator` implementation: collecting
/// characters yields the string of exactly those characters, in order.
#[verifier::external_body]
pub(crate) fn chars_to_string(v: &Vec<char>) -> (r: String)
    ensures
        r@ == v@,
{
    v.iter().collect()
}

/// Skips whitespace, returning the first position at or after `i` that
/// holds none.
fn skip_ws(s: &Vec<char>, i: usize) -> (r: usize)
    requires
        i <= s@.len(),
    ensures
        r as int == spec_skip_ws(s@, i as int),
        i <= r <= s@.len(),
{
    let n: usize = s.len();
    let mut j: usize = i;
    while j < n && (s[j] == ' ' || s[j] == '\t' || s[j] == '\n' || s[j] == '\r')
        invariant
            i <= j <= s@.len(),
            n == s@.len(),
            spec_skip_ws(s@, i as int) == spec_skip_ws(s@, j as int),
        decreases s@.len() - j,
    {
        j = j + 1;
    }
    j
}

/// What a backslash escape stands for.
fn unescape(c: char) -> (r: Option<char>)
    ensures
        r == spec_unescape(c),
{
    if c == '"' {
        Some('"')
    } else if c == '\\' {
        Some('\\')
    } else if c == '/' {
        Some('/')
    } else if c == 'n' {
        Some('\n')
    } else if c == 't' {
        Some('\t')
    } else if c == 'r' {
        Some('\r')
    } else if c == 'b' {
        Some('\u{8}')
    } else if c == 'f' {
        Some('\u{c}')
    } else {
        None
    }
}

/// Parses a string literal body starting right after the opening quote.
fn p_str_body(s: &Vec<char>, i: usize) -> (r: Option<(Vec<char>, usize)>)
    requires
        i <= s@.len(),
    ensures
        match r {
            Some((t, k)) => i < k <= s@.len() && spec_str_body(s@, i as int) == Some(
                (t@, k as int),
            ),
            None => spec_str_body(s@, i as int) is None,
        },
    decreases s@.len() - i,
{
    if i >= s.len() {
        return None;
    }
    let c: char = s[i];
    if c == '"' {
        let t: Vec<char> = Vec::new();
        assert(t@ =~= Seq::<char>::empty());
        Some((t, i + 1))
    } else if c == '\\' {
        if s.len() - i >= 2 {
            match unescape(s[i + 1]) {
                Some(e) => {
                    match p_str_body(s, i + 2) {
                        Some((rest, k)) => {
                            let mut t: Vec<char> = Vec::new();
                            t.push(e);
                            let mut rest: Vec<char> = rest;
                            t.append(&mut rest);
                            Some((t, k))
                        },
                        None => None,
                    }
                },
                None => None,
            }
        } else {
            None
        }
    } else if (c as u32) < 32 {
        None
    } else {
        match p_str_body(s, i + 1) {
            Some((rest, k)) => {
                let mut t: Vec<char> = Vec::new();
                t.push(c);
                let mut rest: Vec<char> = rest;
                t.append(&mut rest);
                Some((t, k))
            },
            None => None,
        }
    }
}

/// Parses an integer: an optional minus sign and a digit run whose value
/// fits in `i64`.
fn p_int(s: &Vec<char>, i: usize) -> (r: Option<(Json, usize)>)
    requires
        i < s@.len(),
    ensures
        match r {
            Some((v, k)) => i < k <= s@.len() && spec_int_at(s@, i as int) == Some(
                (jview(v), k as int),
            ),
            None => spec_int_at(s@, i as int) is None,
        },
{
    let n: usize = s.len();
    let neg: bool = s[i] == '-';
    let k0: usize = if neg {
        i + 1
    } else {
        i
    };
    if k0 >= n {
        return None;
    }
    let c0: u32 = s[k0] as u32;
    if !(48 <= c0 && c0 <= 57) {
        return None;
    }
    let mut j: usize = k0;
    let mut macc: Option<u64> = Some(0);
    while j < n && 48 <= s[j] as u32 && s[j] as u32 <= 57
        invariant
            k0 <= j <= s@.len(),
            n == s@.len(),
            k0 < s@.len() && is_digit(s@[k0 as int]),
            k0 as int + digit_count(s@, k0 as int) as int == j as int + digit_count(
                s@,
                j as int,
            ) as int,
            match macc {
                Some(a) => a as int == digits_val(s@, k0 as int, j as int),
                None => digits_val(s@, k0 as int, j as int) > u64::MAX,
            },
        decreases s@.len() - j,
    {
        let c: u32 = s[j] as u32;
        let d: u64 = (c - 48) as u64;
        macc = match macc {
            Some(a) => match a.checked_mul(10) {
                Some(x) => x.checked_add(d),
                None => {
                    proof {
                        assert(digits_val(s@, k0 as int, j as int + 1) == a as int * 10 + (
                        s@[j as int] as u32 - 48));
                    }
                    None
                },
            },
            None => {
                proof {
                    let ghost prev = digits_val(s@, k0 as int, j as int);
                    assert(digits_val(s@, k0 as int, j as int + 1) == prev * 10 + (
                    s@[j as int] as u32 - 48));
                    assert(prev * 10 == prev + 9 * prev);
                }
                None
            },
        };
        j = j + 1;
    }
    proof {
        assert(digit_count(s@, j as int) == 0);
        assert(digit_count(s@, k0 as int) >= 1);
    }
    let e: usize = j;
    if c0 == 48 && e > k0 + 1 {
        return None;
    }
    match macc {
        None => {
            proof {
                assert(digits_val(s@, k0 as int, e as int) > i64::MAX);
            }
            None
        },
        Some(a) => {
            if !neg {
                if a <= 9223372036854775807u64 {
                    Some((Json::Int(a as i64), e))
                } else {
                    None
                }
            } else {
                if a <= 9223372036854775807u64 {
                    Some((Json::Int(-(a as i64)), e))
                } else if a == 9223372036854775808u64 {
                    Some((Json::Int(i64::MIN), e))
                } else {
                    None
                }
            }
        },
    }
}

/// Parses one JSON value starting exactly at `i`.
fn p_value(s: &Vec<char>, i: usize) -> (r: Option<(Json, usize)>)
    requires
        i <= s@.len(),
    ensures
        match r {
            Some((v, k)) => i < k <= s@.len() && spec_value(s@, i as int) == Some(
                (jview(v), k as int),
            ),
            None => spec_value(s@, i as int) is None,
        },
    decreases s@.len() - i, 0int,
{
    if i >= s.len() {
        return None;
    }
    let c: char = s[i];
    if c == '"' {
        match p_str_body(s, i + 1) {
            Some((t, k)) => Some((Json::Text(chars_to_string(&t)), k)),
            None => None,
        }
    } else if c == '-' || (48 <= c as u32 && c as u32 <= 57) {
        p_int(s, i)
    } else if c == 't' {
        if s.len() - i >= 4 && s[i + 1] == 'r' && s[i + 2] == 'u' && s[i + 3] == 'e' {
            Some((Json::Bool(true), i + 4))
        } else {
            None
        }
    } else if c == 'f' {
        if s.len() - i >= 5 && s[i + 1] == 'a' && s[i + 2] == 'l' && s[i + 3] == 's' && s[i + 4]
            == 'e' {
            Some((Json::Bool(false), i + 5))
        } else {
            None
        }
    } else if c == 'n' {
        if s.len() - i >= 4 && s[i + 1] == 'u' && s[i + 2] == 'l' && s[i + 3] == 'l' {
            Some((Json::Null, i + 4))
        } else {
            None
        }
    } else if c == '[' {
        let j: usize = skip_ws(s, i + 1);
        if j < s.len() && s[j] == ']' {
            let items: Vec<Json> = Vec::new();
            proof {
                assert(items@ =~= Seq::<Json>::empty());
                assert(jview_seq(items@) =~= Seq::<JsonModel>::empty());
            }
            Some((Json::Arr(items), j + 1))
        } else {
            match p_elements(s, i + 1) {
                Some((items, k)) => Some((Json::Arr(items), k)),
                None => None,
            }
        }
    } else if c == '{' {
        let j: usize = skip_ws(s, i + 1);
        if j < s.len() && s[j] == '}' {
            let members: Vec<(String, Json)> = Vec::new();
            proof {
                assert(members@ =~= Seq::<(String, Json)>::empty());
                assert(jview_pairs(members@) =~= Seq::<(Seq<char>, JsonModel)>::empty());
            }
            Some((Json::Obj(members), j + 1))
        } else {
            match p_members(s, i + 1) {
                Some((members, k)) => Some((Json::Obj(members), k)),
                None => None,
            }
        }
    } else {
        None
    }
}

/// Parses a non-empty run of array elements up to the closing bracket.
fn p_elements(s: &Vec<char>, i: usize) -> (r: Option<(Vec<Json>, usize)>)
    requires
        i <= s@.len(),
    ensures
        match r {
            Some((items, k)) => i < k <= s@.len() && spec_elements(s@, i as int) == Some(
                (jview_seq(items@), k as int),
            ),
            None => spec_elements(s@, i as int) is None,
        },
    decreases s@.len() - i, 1int,
{
    let j: usize = skip_ws(s, i);
    match p_value(s, j) {
        None => None,
        Some((v, k)) => {
            let m: usize = skip_ws(s, k);
            if m < s.len() && s[m] == ',' {
                match p_elements(s, m + 1) {
                    Some((rest, e)) => {
                        let mut items: Vec<Json> = Vec::new();
                        items.push(v);
                        let mut rest: Vec<Json> = rest;
                        let ghost rest0 = rest@;
                        items.append(&mut rest);
                        proof {
                            let ghost iv = items@;
                            assert(iv.subrange(1, iv.len() as int) =~= rest0);
                            assert(jview_seq(iv) == seq![jview(iv[0])] + jview_seq(
                                iv.subrange(1, iv.len() as int),
                            ));
                        }
                        Some((items, e))
                    },
                    None => None,
                }
            } else if m < s.len() && s[m] == ']' {
                let mut items: Vec<Json> = Vec::new();
                items.push(v);
                proof {
                    let ghost iv = items@;
                    assert(iv.subrange(1, iv.len() as int) =~= Seq::<Json>::empty());
                    assert(jview_seq(iv.subrange(1, iv.len() as int)) =~= Seq::<
                        JsonModel,
                    >::empty());
                    assert(jview_seq(iv) =~= seq![jview(v)]);
                }
                Some((items, m + 1))
            } else {
                None
            }
        },
    }
}

/// Parses a non-empty run of object members up to the closing brace.
fn p_members(s: &Vec<char>, i: usize) -> (r: Option<(Vec<(String, Json)>, usize)>)
    requires
        i <= s@.len(),
    ensures
        match r {
            Some((members, k)) => i < k <= s@.len() && spec_members(s@, i as int) == Some(
                (jview_pairs(members@), k as int),
            ),
            None => spec_members(s@, i as int) is None,
        },
    decreases s@.len() - i, 1int,
{
    let j: usize = skip_ws(s, i);
    if !(j < s.len() && s[j] == '"') {
        return None;
    }
    match p_str_body(s, j + 1) {
        None => None,
        Some((key, k)) => {
            let c: usize = skip_ws(s, k);
            if !(c < s.len() && s[c] == ':') {
                return None;
            }
            let v0: usize = skip_ws(s, c + 1);
            match p_value(s, v0) {
                None => None,
                Some((v, k2)) => {
                    let key_s: String = chars_to_string(&key);
                    let m: usize = skip_ws(s, k2);
                    if m < s.len() && s[m] == ',' {
                        match p_members(s, m + 1) {
                            Some((rest, e)) => {
                                let mut members: Vec<(String, Json)> = Vec::new();
                                members.push((key_s, v));
                                let mut rest: Vec<(String, Json)> = rest;
                                let ghost rest0 = rest@;
                                members.append(&mut rest);
                                proof {
                                    let ghost mv = members@;
                                    assert(mv.subrange(1, mv.len() as int) =~= rest0);
                                    assert(jview_pairs(mv) == seq![(mv[0].0@, jview(mv[0].1))]
                                        + jview_pairs(mv.subrange(1, mv.len() as int)));
                                }
                                Some((members, e))
                            },
                            None => None,
                        }
                    } else if m < s.len() && s[m] == '}' {
                        let mut members: Vec<(String, Json)> = Vec::new();
                        members.push((key_s, v));
                        proof {
                            let ghost mv = members@;
                            assert(mv.subrange(1, mv.len() as int) =~= Seq::<(String, Json)>::empty());
                            assert(jview_pairs(mv.subrange(1, mv.len() as int)) =~= Seq::<
                                (Seq<char>, JsonModel),
                            >::empty());
                            assert(jview_pairs(mv) =~= seq![(key@, jview(v))]);
                        }
                        Some((members, m + 1))
                    } else {
                        None
                    }
                },
            }
        },
    }
}

/// Parses a whole text into a JSON value, or reports that the text lies
/// outside the grammar.
pub fn parse_text(s: &Vec<char>) -> (r: Option<Json>)
    ensures
        match r {
            Some(v) => spec_parse_text(s@) == Some(jview(v)),
            None => spec_parse_text(s@) is None,
        },
{
    let j: usize = skip_ws(s, 0);
    match p_value(s, j) {
        None => None,
        Some((v, k)) => {
            let e: usize = skip_ws(s, k);
            if e == s.len() {
                Some(v)
            } else {
                None
            }
        },
    }
}

} // verus!
