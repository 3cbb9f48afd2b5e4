use vstd::prelude::*;

use crate::text::{hex_digit, hex_digit_exec, str_to_chars};

verus! {

broadcast use
    vstd::seq::axiom_seq_index_decreases,
    vstd::seq::axiom_seq_subrange_decreases,
    vstd::std_specs::vec::axiom_vec_index_decreases,
    vstd::std_specs::vec::axiom_vec_decreases_to_view,
;

// ------------------------------------------------------------------
// The value model
// ------------------------------------------------------------------

/// The mathematical model of a JSON document.  Numbers keep their raw
/// lexeme: the protocol never reads a numeric value out of a response.
pub enum JsonV {
    Null,
    Bool(bool),
    Num(Seq<char>),
    Str(Seq<char>),
    Arr(Seq<JsonV>),
    Obj(Seq<(Seq<char>, JsonV)>),
}

/// One `key: value` member of a parsed JSON object.
pub struct Member {
    pub key: Vec<char>,
    pub val: Json,
}

/// A parsed JSON document.  Object members keep the response order.
pub enum Json {
    Null,
    Bool(bool),
    Num(Vec<char>),
    Str(Vec<char>),
    Arr(Vec<Json>),
    Obj(Vec<Member>),
}

/// The model a parsed document denotes.
pub open spec fn jv(j: Json) -> JsonV
    decreases j, 1int,
{
    match j {
        Json::Null => JsonV::Null,
        Json::Bool(b) => JsonV::Bool(b),
        Json::Num(cs) => JsonV::Num(cs@),
        Json::Str(cs) => JsonV::Str(cs@),
        Json::Arr(items) => JsonV::Arr(jvs(items@)),
        Json::Obj(members) => JsonV::Obj(jvm(members@)),
    }
}

/// The models of a sequence of parsed documents.
pub open spec fn jvs(items: Seq<Json>) -> Seq<JsonV>
    decreases items, 0int,
{
    if items.len() == 0 {
        Seq::empty()
    } else {
        seq![jv(items[0])] + jvs(items.subrange(1, items.len() as int))
    }
}

/// The models of a sequence of parsed object members.
pub open spec fn jvm(members: Seq<Member>) -> Seq<(Seq<char>, JsonV)>
    decreases members, 0int,
{
    if members.len() == 0 {
        Seq::empty()
    } else {
        seq![(members[0].key@, jv(members[0].val))] + jvm(
            members.subrange(1, members.len() as int),
        )
    }
}

/// A document sequence's models are the models of its documents, in order.
pub proof fn lemma_jvs_index(items: Seq<Json>)
    ensures
        jvs(items).len() == items.len(),
        forall|k: int| 0 <= k < items.len() ==> jvs(items)[k] == jv(items[k]),
    decreases items.len(),
{
    if items.len() > 0 {
        lemma_jvs_index(items.subrange(1, items.len() as int));
    }
}

/// A member sequence's models are the models of its members, in order.
pub proof fn lemma_jvm_index(members: Seq<Member>)
    ensures
        jvm(members).len() == members.len(),
        forall|k: int|
            0 <= k < members.len() ==> jvm(members)[k] == (members[k].key@, jv(members[k].val)),
    decreases members.len(),
{
    if members.len() > 0 {
        lemma_jvm_index(members.subrange(1, members.len() as int));
    }
}

/// The value of the first member carrying the given key, if any.
pub open spec fn sp_obj_lookup(ms: Seq<(Seq<char>, JsonV)>, key: Seq<char>) -> Option<JsonV>
    decreases ms.len(),
{
    if ms.len() == 0 {
        None
    } else if ms[0].0 == key {
        Some(ms[0].1)
    } else {
        sp_obj_lookup(ms.drop_first(), key)
    }
}

// ------------------------------------------------------------------
// Lexical pieces
// ------------------------------------------------------------------

/// JSON inter-token whitespace.
pub open spec fn is_ws(c: char) -> bool {
    c == ' ' || c == '\t' || c == '\n' || c == '\r'
}

pub open spec fn is_digit(c: char) -> bool {
    '0' <= c && c <= '9'
}

/// The first position at or after `i` that does not hold whitespace.
pub open spec fn sp_ws(s: Seq<char>, i: int) -> int
    decreases s.len() - i,
{
    if 0 <= i < s.len() && is_ws(s[i]) {
        sp_ws(s, i + 1)
    } else {
        i
    }
}

fn skip_ws(v: &Vec<char>, i: usize) -> (r: usize)
    requires
        i <= v@.len(),
    ensures
        i <= r <= v@.len(),
        r == sp_ws(v@, i as int),
    decreases v@.len() - i,
{
    if i < v.len() {
        let c = v[i];
        if c == ' ' || c == '\t' || c == '\n' || c == '\r' {
            skip_ws(v, i + 1)
        } else {
            i
        }
    } else {
        i
    }
}

/// What a backslash escape denotes; `None` for an escape the grammar does
/// not accept (among them `\u`, which the service is not known to emit).
pub open spec fn sp_escape_char(c: char) -> Option<char> {
    if c == '"' {
        Some('"')
    } else if c == '\\' {
        Some('\\')
    } else if c == '/' {
        Some('/')
    } else if c == 'b' {
        Some('\u{0008}')
    } else if c == 'f' {
        Some('\u{000C}')
    } else if c == 'n' {
        Some('\n')
    } else if c == 'r' {
        Some('\r')
    } else if c == 't' {
        Some('\t')
    } else {
        None
    }
}

fn unescape_char(c: char) -> (r: Option<char>)
    ensures
        r == sp_escape_char(c),
{
    if c == '"' {
        Some('"')
    } else if c == '\\' {
        Some('\\')
    } else if c == '/' {
        Some('/')
    } else if c == 'b' {
        Some('\u{0008}')
    } else if c == 'f' {
        Some('\u{000C}')
    } else if c == 'n' {
        Some('\n')
    } else if c == 'r' {
        Some('\r')
    } else if c == 't' {
        Some('\t')
    } else {
        None
    }
}

/// Parses the inside of a string literal starting just after the opening
/// quote: the decoded content and the position just after the closing
/// quote.  Control characters must be escaped.
pub open spec fn sp_string_body(s: Seq<char>, i: int) -> Option<(Seq<char>, int)>
    decreases s.len() - i,
{
    if !(0 <= i < s.len()) {
        None
    } else {
        let c = s[i];
        if c == '"' {
            Some((Seq::empty(), i + 1))
        } else if c == '\\' {
            if i + 1 < s.len() {
                match sp_escape_char(s[i + 1]) {
                    Some(e) => match sp_string_body(s, i + 2) {
                        Some((rest, j)) => Some((seq![e] + rest, j)),
                        None => None,
                    },
                    None => None,
                }
            } else {
                None
            }
        } else if (c as u32) < 32 {
            None
        } else {
            match sp_string_body(s, i + 1) {
                Some((rest, j)) => Some((seq![c] + rest, j)),
                None => None,
            }
        }
    }
}

fn parse_string_body(v: &Vec<char>, i: usize) -> (r: Option<(Vec<char>, usize)>)
    requires
        i <= v@.len(),
    ensures
        match r {
            Some(p) => i < p.1 <= v@.len() && sp_string_body(v@, i as int) == Some((
                p.0@,
                p.1 as int,
            )),
            None => sp_string_body(v@, i as int) is None,
        },
    decreases v@.len() - i,
{
    if i >= v.len() {
        return None;
    }
    let c = v[i];
    if c == '"' {
        let out: Vec<char> = Vec::new();
        proof {
            assert(out@ =~= Seq::<char>::empty());
        }
        Some((out, i + 1))
    } else if c == '\\' {
        if i + 1 < v.len() {
            match unescape_char(v[i + 1]) {
                Some(e) => match parse_string_body(v, i + 2) {
                    Some((mut rest, j)) => {
                        let ghost r0 = rest@;
                        rest.insert(0, e);
                        proof {
                            assert(rest@ =~= seq![e] + r0);
                        }
                        Some((rest, j))
                    },
                    None => None,
                },
                None => None,
            }
        } else {
            None
        }
    } else if (c as u32) < 32 {
        None
    } else {
        match parse_string_body(v, i + 1) {
            Some((mut rest, j)) => {
                let ghost r0 = rest@;
                rest.insert(0, c);
                proof {
                    assert(rest@ =~= seq![c] + r0);
                }
                Some((rest, j))
            },
            None => None,
        }
    }
}

/// The end of the run of decimal digits starting at `i`.
pub open spec fn sp_digits_end(s: Seq<char>, i: int) -> int
    decreases s.len() - i,
{
    if 0 <= i < s.len() && is_digit(s[i]) {
        sp_digits_end(s, i + 1)
    } else {
        i
    }
}

fn digits_end(v: &Vec<char>, i: usize) -> (r: usize)
    requires
        i <= v@.len(),
    ensures
        i <= r <= v@.len(),
        r == sp_digits_end(v@, i as int),
    decreases v@.len() - i,
{
    if i < v.len() {
        let c = v[i];
        if '0' <= c && c <= '9' {
            digits_end(v, i + 1)
        } else {
            i
        }
    } else {
        i
    }
}

/// The end of an optional fraction part at `i`: a dot must be followed by
/// at least one digit.
pub open spec fn sp_frac_end(s: Seq<char>, i: int) -> Option<int> {
    if 0 <= i < s.len() && s[i] == '.' {
        if i + 1 < s.len() && is_digit(s[i + 1]) {
            Some(sp_digits_end(s, i + 1))
        } else {
            None
        }
    } else {
        Some(i)
    }
}

/// The end of an optional exponent part at `i`.
pub open spec fn sp_exp_end(s: Seq<char>, i: int) -> Option<int> {
    if 0 <= i < s.len() && (s[i] == 'e' || s[i] == 'E') {
        let j = if i + 1 < s.len() && (s[i + 1] == '+' || s[i + 1] == '-') {
            i + 2
        } else {
            i + 1
        };
        if 0 <= j < s.len() && is_digit(s[j]) {
            Some(sp_digits_end(s, j))
        } else {
            None
        }
    } else {
        Some(i)
    }
}

/// The end of a number lexeme starting at `i`: an optional sign, an
/// integer part, an optional fraction and an optional exponent.
pub open spec fn sp_number_end(s: Seq<char>, i: int) -> Option<int> {
    let i1 = if 0 <= i < s.len() && s[i] == '-' {
        i + 1
    } else {
        i
    };
    if !(0 <= i1 < s.len() && is_digit(s[i1])) {
        None
    } else {
        match sp_frac_end(s, sp_digits_end(s, i1)) {
            Some(i3) => sp_exp_end(s, i3),
            None => None,
        }
    }
}

fn number_end(v: &Vec<char>, i: usize) -> (r: Option<usize>)
    requires
        i <= v@.len(),
    ensures
        match r {
            Some(j) => i < j <= v@.len() && sp_number_end(v@, i as int) == Some(j as int),
            None => sp_number_end(v@, i as int) is None,
        },
{
    let i1 = if i < v.len() && v[i] == '-' {
        i + 1
    } else {
        i
    };
    if !(i1 < v.len() && '0' <= v[i1] && v[i1] <= '9') {
        return None;
    }
    let i2 = digits_end(v, i1 + 1);
    proof {
        assert(sp_digits_end(v@, i1 as int) == sp_digits_end(v@, i1 + 1));
    }
    let i3 = if i2 < v.len() && v[i2] == '.' {
        if i2 + 1 < v.len() && '0' <= v[i2 + 1] && v[i2 + 1] <= '9' {
            let e = digits_end(v, i2 + 2);
            proof {
                assert(sp_digits_end(v@, i2 + 1) == sp_digits_end(v@, i2 + 2));
            }
            e
        } else {
            return None;
        }
    } else {
        i2
    };
    proof {
        assert(sp_frac_end(v@, i2 as int) == Some(i3 as int));
    }
    if i3 < v.len() && (v[i3] == 'e' || v[i3] == 'E') {
        let j = if i3 + 1 < v.len() && (v[i3 + 1] == '+' || v[i3 + 1] == '-') {
            i3 + 2
        } else {
            i3 + 1
        };
        if j < v.len() && '0' <= v[j] && v[j] <= '9' {
            Some(digits_end(v, j))
        } else {
            None
        }
    } else {
        Some(i3)
    }
}

/// Copies the characters of the range `[a, b)`.
pub fn copy_range(v: &Vec<char>, a: usize, b: usize) -> (out: Vec<char>)
    requires
        a <= b <= v@.len(),
    ensures
        out@ == v@.subrange(a as int, b as int),
{
    let mut out: Vec<char> = Vec::new();
    let mut k: usize = a;
    while k < b
        invariant
            a <= k <= b <= v@.len(),
            out@ == v@.subrange(a as int, k as int),
        decreases b - k,
    {
        out.push(v[k]);
        k = k + 1;
        proof {
            assert(out@ =~= v@.subrange(a as int, k as int));
        }
    }
    out
}

// ------------------------------------------------------------------
// The value grammar
// ------------------------------------------------------------------

/// Parses one JSON value starting exactly at `i` (no leading
/// whitespace): the value's model and the position just after it.
pub open spec fn sp_value(s: Seq<char>, i: int) -> Option<(JsonV, int)>
    decreases s.len() - i, 0int,
{
    if !(0 <= i < s.len()) {
        None
    } else {
        let c = s[i];
        if c == 'n' {
            if i + 4 <= s.len() && s[i + 1] == 'u' && s[i + 2] == 'l' && s[i + 3] == 'l' {
                Some((JsonV::Null, i + 4))
            } else {
                None
            }
        } else if c == 't' {
            if i + 4 <= s.len() && s[i + 1] == 'r' && s[i + 2] == 'u' && s[i + 3] == 'e' {
                Some((JsonV::Bool(true), i + 4))
            } else {
                None
            }
        } else if c == 'f' {
            if i + 5 <= s.len() && s[i + 1] == 'a' && s[i + 2] == 'l' && s[i + 3] == 's' && s[i
                + 4] == 'e' {
                Some((JsonV::Bool(false), i + 5))
            } else {
                None
            }
        } else if c == '"' {
            match sp_string_body(s, i + 1) {
                Some((cs, j)) => Some((JsonV::Str(cs), j)),
                None => None,
            }
        } else if c == '-' || is_digit(c) {
            match sp_number_end(s, i) {
                Some(j) => if i < j <= s.len() {
                    Some((JsonV::Num(s.subrange(i, j)), j))
                } else {
                    None
                },
                None => None,
            }
        } else if c == '[' {
            let j = sp_ws(s, i + 1);
            if i + 1 <= j && j < s.len() {
                if s[j] == ']' {
                    Some((JsonV::Arr(Seq::empty()), j + 1))
                } else {
                    match sp_array_items(s, j) {
                        Some((vs, k)) => Some((JsonV::Arr(vs), k)),
                        None => None,
                    }
                }
            } else {
                None
            }
        } else if c == '{' {
            let j = sp_ws(s, i + 1);
            if i + 1 <= j && j < s.len() {
                if s[j] == '}' {
                    Some((JsonV::Obj(Seq::empty()), j + 1))
                } else {
                    match sp_object_items(s, j) {
                        Some((ms, k)) => Some((JsonV::Obj(ms), k)),
                        None => None,
                    }
                }
            } else {
                None
            }
        } else {
            None
        }
    }
}

/// Parses the comma-separated values of a non-empty array, starting at
/// the first value, up to and including the closing bracket.
pub open spec fn sp_array_items(s: Seq<char>, i: int) -> Option<(Seq<JsonV>, int)>
    decreases s.len() - i, 1int,
{
    match sp_value(s, i) {
        None => None,
        Some((v, j)) => {
            if !(i < j && j <= s.len()) {
                None
            } else {
                let k = sp_ws(s, j);
                if !(j <= k && k < s.len()) {
                    None
                } else if s[k] == ',' {
                    let n = sp_ws(s, k + 1);
                    if k + 1 <= n && n <= s.len() {
                        match sp_array_items(s, n) {
                            Some((vs, m)) => Some((seq![v] + vs, m)),
                            None => None,
                        }
                    } else {
                        None
                    }
                } else if s[k] == ']' {
                    Some((seq![v], k + 1))
                } else {
                    None
                }
            }
        },
    }
}

/// Parses the members of a non-empty object, starting at the first key,
/// up to and including the closing brace.
pub open spec fn sp_object_items(s: Seq<char>, i: int) -> Option<(Seq<(Seq<char>, JsonV)>, int)>
    decreases s.len() - i, 1int,
{
    if !(0 <= i < s.len() && s[i] == '"') {
        None
    } else {
        match sp_string_body(s, i + 1) {
            None => None,
            Some((key, j)) => {
                if !(i + 1 < j && j <= s.len()) {
                    None
                } else {
                    let k = sp_ws(s, j);
                    if !(j <= k && k < s.len() && s[k] == ':') {
                        None
                    } else {
                        let m = sp_ws(s, k + 1);
                        if !(k + 1 <= m && m <= s.len()) {
                            None
                        } else {
                            match sp_value(s, m) {
                                None => None,
                                Some((v, p)) => {
                                    if !(m < p && p <= s.len()) {
                                        None
                                    } else {
                                        let q = sp_ws(s, p);
                                        if !(p <= q && q < s.len()) {
                                            None
                                        } else if s[q] == ',' {
                                            let n = sp_ws(s, q + 1);
                                            if q + 1 <= n && n <= s.len() {
                                                match sp_object_items(s, n) {
                                                    Some((ms, e)) => Some(
                                                        (seq![(key, v)] + ms, e),
                                                    ),
                                                    None => None,
                                                }
                                            } else {
                                                None
                                            }
                                        } else if s[q] == '}' {
                                            Some((seq![(key, v)], q + 1))
                                        } else {
                                            None
                                        }
                                    }
                                },
                            }
                        }
                    }
                }
            },
        }
    }
}

/// The document a full text denotes: one JSON value, possibly surrounded
/// by whitespace, covering the whole text.
pub open spec fn sp_json(s: Seq<char>) -> Option<JsonV> {
    match sp_value(s, sp_ws(s, 0)) {
        Some((val, j)) => if 0 <= j <= s.len() && sp_ws(s, j) == s.len() {
            Some(val)
        } else {
            None
        },
        None => None,
    }
}

fn parse_value(v: &Vec<char>, i: usize) -> (r: Option<(Json, usize)>)
    requires
        i <= v@.len(),
    ensures
        match r {
            Some(p) => i < p.1 <= v@.len() && sp_value(v@, i as int) == Some((jv(p.0), p.1 as int)),
            None => sp_value(v@, i as int) is None,
        },
    decreases v@.len() - i, 0int,
{
    if i >= v.len() {
        return None;
    }
    let c = v[i];
    if c == 'n' {
        if v.len() - i >= 4 && v[i + 1] == 'u' && v[i + 2] == 'l' && v[i + 3] == 'l' {
            Some((Json::Null, i + 4))
        } else {
            None
        }
    } else if c == 't' {
        if v.len() - i >= 4 && v[i + 1] == 'r' && v[i + 2] == 'u' && v[i + 3] == 'e' {
            Some((Json::Bool(true), i + 4))
        } else {
            None
        }
    } else if c == 'f' {
        if v.len() - i >= 5 && v[i + 1] == 'a' && v[i + 2] == 'l' && v[i + 3] == 's' && v[i + 4]
            == 'e' {
            Some((Json::Bool(false), i + 5))
        } else {
            None
        }
    } else if c == '"' {
        match parse_string_body(v, i + 1) {
            Some((cs, j)) => Some((Json::Str(cs), j)),
            None => None,
        }
    } else if c == '-' || ('0' <= c && c <= '9') {
        match number_end(v, i) {
            Some(j) => {
                let lex = copy_range(v, i, j);
                Some((Json::Num(lex), j))
            },
            None => None,
        }
    } else if c == '[' {
        let j = skip_ws(v, i + 1);
        if j < v.len() {
            if v[j] == ']' {
                let items: Vec<Json> = Vec::new();
                proof {
                    assert(jvs(items@) =~= Seq::<JsonV>::empty());
                }
                Some((Json::Arr(items), j + 1))
            } else {
                match parse_array_items(v, j) {
                    Some((items, k)) => Some((Json::Arr(items), k)),
                    None => None,
                }
            }
        } else {
            None
        }
    } else if c == '{' {
        let j = skip_ws(v, i + 1);
        if j < v.len() {
            if v[j] == '}' {
                let members: Vec<Member> = Vec::new();
                proof {
                    assert(jvm(members@) =~= Seq::<(Seq<char>, JsonV)>::empty());
                }
                Some((Json::Obj(members), j + 1))
            } else {
                match parse_object_items(v, j) {
                    Some((members, k)) => Some((Json::Obj(members), k)),
                    None => None,
                }
            }
        } else {
            None
        }
    } else {
        None
    }
}

fn parse_array_items(v: &Vec<char>, i: usize) -> (r: Option<(Vec<Json>, usize)>)
    requires
        i <= v@.len(),
    ensures
        match r {
            Some(p) => i < p.1 <= v@.len() && sp_array_items(v@, i as int) == Some((
                jvs(p.0@),
                p.1 as int,
            )),
            None => sp_array_items(v@, i as int) is None,
        },
    decreases v@.len() - i, 1int,
{
    match parse_value(v, i) {
        None => None,
        Some((val, j)) => {
            let k = skip_ws(v, j);
            if k < v.len() {
                let ck = v[k];
                if ck == ',' {
                    let n = skip_ws(v, k + 1);
                    match parse_array_items(v, n) {
                        Some((mut items, m)) => {
                            let ghost rest = items@;
                            items.insert(0, val);
                            proof {
                                assert(items@ =~= seq![val] + rest);
                                assert(items@[0] == val);
                                assert(items@.subrange(1, items@.len() as int) =~= rest);
                                assert(jvs(items@) == seq![jv(val)] + jvs(rest));
                            }
                            Some((items, m))
                        },
                        None => None,
                    }
                } else if ck == ']' {
                    let mut items: Vec<Json> = Vec::new();
                    items.push(val);
                    proof {
                        assert(items@ =~= seq![val]);
                        assert(items@.subrange(1, items@.len() as int) =~= Seq::<Json>::empty());
                        assert(jvs(Seq::<Json>::empty()) =~= Seq::<JsonV>::empty());
                        assert(jvs(items@) =~= seq![jv(val)]);
                    }
                    Some((items, k + 1))
                } else {
                    None
                }
            } else {
                None
            }
        },
    }
}

fn parse_object_items(v: &Vec<char>, i: usize) -> (r: Option<(Vec<Member>, usize)>)
    requires
        i <= v@.len(),
    ensures
        match r {
            Some(p) => i < p.1 <= v@.len() && sp_object_items(v@, i as int) == Some((
                jvm(p.0@),
                p.1 as int,
            )),
            None => sp_object_items(v@, i as int) is None,
        },
    decreases v@.len() - i, 1int,
{
    if !(i < v.len() && v[i] == '"') {
        return None;
    }
    match parse_string_body(v, i + 1) {
        None => None,
        Some((key, j)) => {
            let k = skip_ws(v, j);
            if !(k < v.len() && v[k] == ':') {
                return None;
            }
            let m = skip_ws(v, k + 1);
            match parse_value(v, m) {
                None => None,
                Some((val, p)) => {
                    let q = skip_ws(v, p);
                    if q < v.len() {
                        let cq = v[q];
                        if cq == ',' {
                            let n = skip_ws(v, q + 1);
                            match parse_object_items(v, n) {
                                Some((mut members, e)) => {
                                    let ghost kv = key@;
                                    let ghost rest = members@;
                                    members.insert(0, Member { key, val });
                                    proof {
                                        assert(members@[0].key@ == kv);
                                        assert(members@[0].val == val);
                                        assert(members@.subrange(1, members@.len() as int)
                                            =~= rest);
                                        assert(jvm(members@) == seq![(kv, jv(val))] + jvm(rest));
                                    }
                                    Some((members, e))
                                },
                                None => None,
                            }
                        } else if cq == '}' {
                            let ghost kv = key@;
                            let mut members: Vec<Member> = Vec::new();
                            members.push(Member { key, val });
                            proof {
                                assert(members@[0].key@ == kv);
                                assert(members@[0].val == val);
                                assert(members@.subrange(1, members@.len() as int) =~= Seq::<
                                    Member,
                                >::empty());
                                assert(jvm(Seq::<Member>::empty()) =~= Seq::<
                                    (Seq<char>, JsonV),
                                >::empty());
                                assert(jvm(members@) =~= seq![(kv, jv(val))]);
                            }
                            Some((members, q + 1))
                        } else {
                            None
                        }
                    } else {
                        None
                    }
                },
            }
        },
    }
}

/// Parses a full JSON text: succeeds exactly when the text holds one
/// JSON value, possibly surrounded by whitespace, and nothing else.
pub fn parse_json(s: &str) -> (r: Option<Json>)
    ensures
        match r {
            Some(j) => sp_json(s@) == Some(jv(j)),
            None => sp_json(s@) is None,
        },
{
    let v = str_to_chars(s);
    let i = skip_ws(&v, 0);
    match parse_value(&v, i) {
        Some((val, n)) => {
            let e = skip_ws(&v, n);
            if e == v.len() {
                Some(val)
            } else {
                None
            }
        },
        None => None,
    }
}

// ------------------------------------------------------------------
// Reading parsed documents
// ------------------------------------------------------------------

/// Compares a character vector against a string slice.
pub fn chars_eq_str(v: &Vec<char>, s: &str) -> (r: bool)
    ensures
        r == (v@ == s@),
{
    let n = s.unicode_len();
    if v.len() != n {
        return false;
    }
    let mut k: usize = 0;
    while k < n
        invariant
            n as nat == s@.len(),
            v@.len() == n,
            k <= n,
            forall|t: int| 0 <= t < k ==> v@[t] == s@[t],
        decreases n - k,
    {
        if v[k] != s.get_char(k) {
            return false;
        }
        k = k + 1;
    }
    proof {
        assert(v@ =~= s@);
    }
    true
}

fn lookup_from<'a>(members: &'a Vec<Member>, key: &str, i: usize) -> (r: Option<&'a Json>)
    requires
        i <= members@.len(),
    ensures
        match r {
            Some(j) => sp_obj_lookup(
                jvm(members@).subrange(i as int, members@.len() as int),
                key@,
            ) == Some(jv(*j)),
            None => sp_obj_lookup(
                jvm(members@).subrange(i as int, members@.len() as int),
                key@,
            ) is None,
        },
    decreases members@.len() - i,
{
    proof {
        lemma_jvm_index(members@);
    }
    let ghost sub = jvm(members@).subrange(i as int, members@.len() as int);
    if i == members.len() {
        proof {
            assert(sub.len() == 0);
        }
        return None;
    }
    let m = &members[i];
    proof {
        assert(sub[0] == jvm(members@)[i as int]);
    }
    if chars_eq_str(&m.key, key) {
        Some(&m.val)
    } else {
        let r = lookup_from(members, key, i + 1);
        proof {
            assert(jvm(members@).subrange(i + 1, members@.len() as int) =~= sub.drop_first());
        }
        r
    }
}

/// The value of the first member of an object carrying the given key.
pub fn json_obj_lookup<'a>(members: &'a Vec<Member>, key: &str) -> (r: Option<&'a Json>)
    ensures
        match r {
            Some(j) => sp_obj_lookup(jvm(members@), key@) == Some(jv(*j)),
            None => sp_obj_lookup(jvm(members@), key@) is None,
        },
{
    proof {
        lemma_jvm_index(members@);
        assert(jvm(members@).subrange(0, members@.len() as int) =~= jvm(members@));
    }
    lookup_from(members, key, 0)
}

// ------------------------------------------------------------------
// String escaping (for request bodies the library builds)
// ------------------------------------------------------------------

/// The JSON escape of one character: quotes and backslashes get a
/// backslash escape, control characters a `\u00XX` escape, and everything
/// else stands for itself.
pub open spec fn sp_escape_one(c: char) -> Seq<char> {
    if c == '"' {
        seq!['\\', '"']
    } else if c == '\\' {
        seq!['\\', '\\']
    } else if (c as u32) < 32 {
        seq!['\\', 'u', '0', '0', hex_digit((c as u32) as nat / 16), hex_digit(
            (c as u32) as nat % 16,
        )]
    } else {
        seq![c]
    }
}

/// The JSON escape of a whole string.
pub open spec fn sp_escape(s: Seq<char>) -> Seq<char>
    decreases s.len(),
{
    if s.len() == 0 {
        Seq::empty()
    } else {
        sp_escape_one(s[0]) + sp_escape(s.drop_first())
    }
}

fn escape_rest(v: &Vec<char>, i: usize) -> (out: Vec<char>)
    requires
        i <= v@.len(),
    ensures
        out@ == sp_escape(v@.subrange(i as int, v@.len() as int)),
    decreases v@.len() - i,
{
    let ghost tail = v@.subrange(i as int, v@.len() as int);
    if i == v.len() {
        let out: Vec<char> = Vec::new();
        proof {
            assert(out@ =~= Seq::<char>::empty());
        }
        out
    } else {
        let c = v[i];
        proof {
            assert(tail[0] == c);
        }
        let mut out: Vec<char> = Vec::new();
        if c == '"' {
            out.push('\\');
            out.push('"');
        } else if c == '\\' {
            out.push('\\');
            out.push('\\');
        } else if (c as u32) < 32 {
            out.push('\\');
            out.push('u');
            out.push('0');
            out.push('0');
            out.push(hex_digit_exec((c as u32 / 16) as u8));
            out.push(hex_digit_exec((c as u32 % 16) as u8));
        } else {
            out.push(c);
        }
        proof {
            assert(out@ =~= sp_escape_one(c));
        }
        let mut rest = escape_rest(v, i + 1);
        proof {
            assert(v@.subrange(i + 1, v@.len() as int) =~= tail.drop_first());
        }
        out.append(&mut rest);
        out
    }
}

/// Escapes a string's characters for embedding in a JSON string literal.
pub fn escape_chars(v: &Vec<char>) -> (out: Vec<char>)
    ensures
        out@ == sp_escape(v@),
{
    let out = escape_rest(v, 0);
    proof {
        assert(v@.subrange(0, v@.len() as int) =~= v@);
    }
    out
}

} // verus!
