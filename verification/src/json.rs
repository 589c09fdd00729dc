//! A self-contained JSON codec: a tree of JSON values, a total parser that
//! never panics on arbitrary input, and a canonical serializer. The parser
//! follows the JSON grammar (RFC 8259) with a fixed nesting-depth budget;
//! input deeper than the budget is rejected like any other malformed text.
use vstd::prelude::*;

verus! {

/// Nesting depth the parser accepts before rejecting the input.
pub const JSON_DEPTH_LIMIT: u32 = 128;

/// A JSON document. Numbers keep their lexeme so that no precision is lost
/// and no floating point is needed; strings hold decoded (unescaped) text.
#[derive(Debug, PartialEq)]
pub enum JsonValue {
    Null,
    Bool(bool),
    Num(Vec<char>),
    Str(Vec<char>),
    Arr(Vec<JsonValue>),
    Obj(Vec<(Vec<char>, JsonValue)>),
}

/// The mathematical shape of a JSON document.
#[verifier::ext_equal]
pub enum JsonV {
    Null,
    Bool(bool),
    Num(Seq<char>),
    Str(Seq<char>),
    Arr(Seq<JsonV>),
    Obj(Seq<(Seq<char>, JsonV)>),
}

/// The JSON value as a mathematical tree.
pub open spec fn json_view(v: JsonValue) -> JsonV
    decreases v, 0int,
    via json_view_dec
{
    match v {
        JsonValue::Null => JsonV::Null,
        JsonValue::Bool(b) => JsonV::Bool(b),
        JsonValue::Num(s) => JsonV::Num(s@),
        JsonValue::Str(s) => JsonV::Str(s@),
        JsonValue::Arr(es) => JsonV::Arr(elems_view(es@)),
        JsonValue::Obj(ms) => JsonV::Obj(membs_view(ms@)),
    }
}

/// The elements of an array, as the mathematical tree sees them.
pub open spec fn elems_view(es: Seq<JsonValue>) -> Seq<JsonV>
    decreases es, 1int,
    via elems_view_dec
{
    Seq::new(
        es.len(),
        |k: int|
            if 0 <= k < es.len() {
                json_view(es[k])
            } else {
                JsonV::Null
            },
    )
}

/// The members of an object, as the mathematical tree sees them.
pub open spec fn membs_view(ms: Seq<(Vec<char>, JsonValue)>) -> Seq<(Seq<char>, JsonV)>
    decreases ms, 1int,
    via membs_view_dec
{
    Seq::new(
        ms.len(),
        |k: int|
            if 0 <= k < ms.len() {
                (ms[k].0@, json_view(ms[k].1))
            } else {
                (Seq::empty(), JsonV::Null)
            },
    )
}

#[via_fn]
proof fn json_view_dec(v: JsonValue) {
    broadcast use vstd::std_specs::vec::group_vec_axioms;

    match v {
        JsonValue::Arr(es) => {
            assert(decreases_to!(v => es));
            assert(decreases_to!(es => es@));
        },
        JsonValue::Obj(ms) => {
            assert(decreases_to!(v => ms));
            assert(decreases_to!(ms => ms@));
        },
        _ => {},
    }
}

#[via_fn]
proof fn elems_view_dec(es: Seq<JsonValue>) {
    assert forall|k: int| 0 <= k < es.len() implies decreases_to!(es => es[k]) by {}
}

#[via_fn]
proof fn membs_view_dec(ms: Seq<(Vec<char>, JsonValue)>) {
    assert forall|k: int| 0 <= k < ms.len() implies decreases_to!(ms => ms[k].1) by {
        assert(decreases_to!(ms => ms[k]));
        assert(decreases_to!(ms[k] => ms[k].1));
    }
}

impl View for JsonValue {
    type V = JsonV;

    open spec fn view(&self) -> JsonV {
        json_view(*self)
    }
}

// ---------------------------------------------------------------------------
// Specification-level parser
// ---------------------------------------------------------------------------
/// The whitespace characters the JSON grammar allows between tokens.
pub open spec fn json_ws(c: char) -> bool {
    c == ' ' || c == '\t' || c == '\n' || c == '\r'
}

/// First index at or after `i` that does not hold whitespace.
pub open spec fn skip_ws(s: Seq<char>, i: int) -> int
    decreases s.len() - i,
{
    if 0 <= i && i < s.len() && json_ws(s[i]) {
        skip_ws(s, i + 1)
    } else {
        i
    }
}

pub open spec fn hex_digit_val(c: char) -> Option<u32> {
    let n = c as u32;
    if 48 <= n && n <= 57 {
        Some((n - 48) as u32)
    } else if 97 <= n && n <= 102 {
        Some((n - 87) as u32)
    } else if 65 <= n && n <= 70 {
        Some((n - 55) as u32)
    } else {
        None
    }
}

/// The value of the four hex digits at `i`, if they are all hex digits.
pub open spec fn hex4_val(s: Seq<char>, i: int) -> Option<u32> {
    if 0 <= i && i + 4 <= s.len() {
        match (hex_digit_val(s[i]), hex_digit_val(s[i + 1]), hex_digit_val(s[i + 2]), hex_digit_val(
            s[i + 3],
        )) {
            (Some(a), Some(b), Some(c), Some(d)) => Some(
                (a * 4096 + b * 256 + c * 16 + d) as u32,
            ),
            _ => None,
        }
    } else {
        None
    }
}

/// Decodes the escape sequence that starts with the backslash at `i`:
/// the decoded character and the index just past the sequence. Surrogate
/// escapes must form a proper pair, as the grammar demands.
pub open spec fn parse_escape(s: Seq<char>, i: int) -> Option<(char, int)> {
    if 0 <= i && i + 2 <= s.len() {
        let e = s[i + 1];
        if e == '"' {
            Some(('"', i + 2))
        } else if e == '\\' {
            Some(('\\', i + 2))
        } else if e == '/' {
            Some(('/', i + 2))
        } else if e == 'b' {
            Some((8u32 as char, i + 2))
        } else if e == 'f' {
            Some((12u32 as char, i + 2))
        } else if e == 'n' {
            Some(('\n', i + 2))
        } else if e == 'r' {
            Some(('\r', i + 2))
        } else if e == 't' {
            Some(('\t', i + 2))
        } else if e == 'u' {
            match hex4_val(s, i + 2) {
                None => None,
                Some(hi) => {
                    if 0xD800 <= hi && hi <= 0xDBFF {
                        if i + 12 <= s.len() && s[i + 6] == '\\' && s[i + 7] == 'u' {
                            match hex4_val(s, i + 8) {
                                None => None,
                                Some(lo) => {
                                    if 0xDC00 <= lo && lo <= 0xDFFF {
                                        Some(
                                            (
                                                ((0x10000 + (hi - 0xD800) * 0x400 + (lo - 0xDC00))
                                                    as u32) as char,
                                                i + 12,
                                            ),
                                        )
                                    } else {
                                        None
                                    }
                                },
                            }
                        } else {
                            None
                        }
                    } else if 0xDC00 <= hi && hi <= 0xDFFF {
                        None
                    } else {
                        Some((hi as char, i + 6))
                    }
                },
            }
        } else {
            None
        }
    } else {
        None
    }
}

/// Decodes a string body that starts right after the opening quote at `i - 1`:
/// the decoded content and the index just past the closing quote.
pub open spec fn parse_str_body(s: Seq<char>, i: int) -> Option<(Seq<char>, int)>
    decreases s.len() - i,
{
    if !(0 <= i && i < s.len()) {
        None
    } else {
        let c = s[i];
        if c == '"' {
            Some((Seq::empty(), i + 1))
        } else if c == '\\' {
            match parse_escape(s, i) {
                None => None,
                Some((ch, j)) => {
                    if i < j <= s.len() {
                        match parse_str_body(s, j) {
                            None => None,
                            Some((t, e)) => Some((seq![ch] + t, e)),
                        }
                    } else {
                        None
                    }
                },
            }
        } else if (c as u32) < 0x20 {
            None
        } else {
            match parse_str_body(s, i + 1) {
                None => None,
                Some((t, e)) => Some((seq![c] + t, e)),
            }
        }
    }
}

pub open spec fn is_digit_char(c: char) -> bool {
    48 <= c as u32 && c as u32 <= 57
}

/// First index at or after `i` that does not hold an ASCII digit.
pub open spec fn scan_digits(s: Seq<char>, i: int) -> int
    decreases s.len() - i,
{
    if 0 <= i && i < s.len() && is_digit_char(s[i]) {
        scan_digits(s, i + 1)
    } else {
        i
    }
}

pub proof fn lemma_scan_digits(s: Seq<char>, i: int)
    requires
        0 <= i <= s.len(),
    ensures
        i <= scan_digits(s, i) <= s.len(),
    decreases s.len() - i,
{
    if i < s.len() && is_digit_char(s[i]) {
        lemma_scan_digits(s, i + 1);
    }
}

/// End index of the number token that starts at `i`, following the JSON
/// number grammar: optional minus, integer part without leading zeros,
/// optional fraction, optional exponent.
pub open spec fn parse_num_end(s: Seq<char>, i: int) -> Option<int> {
    if !(0 <= i && i < s.len()) {
        None
    } else {
        let p = if s[i] == '-' {
            i + 1
        } else {
            i
        };
        if !(p < s.len() && is_digit_char(s[p])) {
            None
        } else {
            let q = if s[p] == '0' {
                p + 1
            } else {
                scan_digits(s, p)
            };
            let after_frac = if q < s.len() && s[q] == '.' {
                if q + 1 < s.len() && is_digit_char(s[q + 1]) {
                    Some(scan_digits(s, q + 1))
                } else {
                    None
                }
            } else {
                Some(q)
            };
            match after_frac {
                None => None,
                Some(q2) => {
                    if q2 < s.len() && (s[q2] == 'e' || s[q2] == 'E') {
                        let q3 = if q2 + 1 < s.len() && (s[q2 + 1] == '+' || s[q2 + 1] == '-') {
                            q2 + 2
                        } else {
                            q2 + 1
                        };
                        if q3 < s.len() && is_digit_char(s[q3]) {
                            Some(scan_digits(s, q3))
                        } else {
                            None
                        }
                    } else {
                        Some(q2)
                    }
                },
            }
        }
    }
}

pub proof fn lemma_num_end_bounds(s: Seq<char>, i: int)
    requires
        0 <= i <= s.len(),
    ensures
        parse_num_end(s, i) matches Some(e) ==> i < e <= s.len(),
{
    if i < s.len() {
        let p = if s[i] == '-' {
            i + 1
        } else {
            i
        };
        if p < s.len() && is_digit_char(s[p]) {
            lemma_scan_digits(s, p + 1);
            assert(scan_digits(s, p) == scan_digits(s, p + 1));
            let q = if s[p] == '0' {
                p + 1
            } else {
                scan_digits(s, p)
            };
            if q < s.len() && s[q] == '.' {
                if q + 1 < s.len() && is_digit_char(s[q + 1]) {
                    lemma_scan_digits(s, q + 1);
                    let q2 = scan_digits(s, q + 1);
                    if q2 < s.len() && (s[q2] == 'e' || s[q2] == 'E') {
                        let q3 = if q2 + 1 < s.len() && (s[q2 + 1] == '+' || s[q2 + 1] == '-') {
                            q2 + 2
                        } else {
                            q2 + 1
                        };
                        if q3 < s.len() && is_digit_char(s[q3]) {
                            lemma_scan_digits(s, q3);
                        }
                    }
                }
            } else {
                if q < s.len() && (s[q] == 'e' || s[q] == 'E') {
                    let q3 = if q + 1 < s.len() && (s[q + 1] == '+' || s[q + 1] == '-') {
                        q + 2
                    } else {
                        q + 1
                    };
                    if q3 < s.len() && is_digit_char(s[q3]) {
                        lemma_scan_digits(s, q3);
                    }
                }
            }
        }
    }
}

/// Parses the value that starts at `i`. `fuel` bounds how deep objects and
/// arrays may nest; `None` covers both malformed text and exhausted fuel.
pub open spec fn parse_val(s: Seq<char>, i: int, fuel: nat) -> Option<(JsonV, int)>
    decreases fuel, s.len() - i, 1int,
{
    if fuel == 0 {
        None
    } else if !(0 <= i && i < s.len()) {
        None
    } else {
        let c = s[i];
        if c == '{' {
            match parse_membs(s, i + 1, (fuel - 1) as nat, true) {
                None => None,
                Some((ms, j)) => Some((JsonV::Obj(ms), j)),
            }
        } else if c == '[' {
            match parse_elems(s, i + 1, (fuel - 1) as nat, true) {
                None => None,
                Some((es, j)) => Some((JsonV::Arr(es), j)),
            }
        } else if c == '"' {
            match parse_str_body(s, i + 1) {
                None => None,
                Some((t, j)) => Some((JsonV::Str(t), j)),
            }
        } else if c == 'n' {
            if i + 4 <= s.len() && s[i + 1] == 'u' && s[i + 2] == 'l' && s[i + 3] == 'l' {
                Some((JsonV::Null, i + 4))
            } else {
                None
            }
        } else if c == 't' {
            if i + 4 <= s.len() && s[i + 1] == 'r' && s[i + 2] == 'u' && s[i + 3] == 'e' {
                Some((JsonV::Bool(true), i + 4))
            } else {
                None
            }
        } else if c == 'f' {
            if i + 5 <= s.len() && s[i + 1] == 'a' && s[i + 2] == 'l' && s[i + 3] == 's' && s[i + 4]
                == 'e' {
                Some((JsonV::Bool(false), i + 5))
            } else {
                None
            }
        } else if c == '-' || is_digit_char(c) {
            match parse_num_end(s, i) {
                None => None,
                Some(e) => if i < e <= s.len() {
                    Some((JsonV::Num(s.subrange(i, e)), e))
                } else {
                    None
                },
            }
        } else {
            None
        }
    }
}

/// Parses the members of an object whose opening brace stood at `i - 1`,
/// up to and including the closing brace. `first` tells whether a closing
/// brace may come immediately (no members yet, so no trailing comma).
pub open spec fn parse_membs(s: Seq<char>, i: int, fuel: nat, first: bool) -> Option<
    (Seq<(Seq<char>, JsonV)>, int),
>
    decreases fuel, s.len() - i, 0int,
{
    if fuel == 0 {
        None
    } else if !(0 <= i && i <= s.len()) {
        None
    } else {
        let j = skip_ws(s, i);
        if !(i <= j && j < s.len()) {
            None
        } else if first && s[j] == '}' {
            Some((Seq::empty(), j + 1))
        } else if s[j] != '"' {
            None
        } else {
            match parse_str_body(s, j + 1) {
                None => None,
                Some((key, j2)) => {
                    if !(0 <= j2 && j2 <= s.len()) {
                        None
                    } else {
                        let j3 = skip_ws(s, j2);
                        if !(0 <= j3 && j3 < s.len() && s[j3] == ':') {
                            None
                        } else {
                            match parse_val(s, skip_ws(s, j3 + 1), (fuel - 1) as nat) {
                                None => None,
                                Some((v, j5)) => {
                                    if !(0 <= j5 && j5 <= s.len()) {
                                        None
                                    } else {
                                        let j6 = skip_ws(s, j5);
                                        if !(i < j6 + 1 && j6 < s.len()) {
                                            None
                                        } else if s[j6] == ',' {
                                            match parse_membs(s, j6 + 1, fuel, false) {
                                                None => None,
                                                Some((rest, e)) => Some(
                                                    (seq![(key, v)] + rest, e),
                                                ),
                                            }
                                        } else if s[j6] == '}' {
                                            Some((seq![(key, v)], j6 + 1))
                                        } else {
                                            None
                                        }
                                    }
                                },
                            }
                        }
                    }
                },
            }
        }
    }
}

/// Parses the elements of an array whose opening bracket stood at `i - 1`,
/// up to and including the closing bracket.
pub open spec fn parse_elems(s: Seq<char>, i: int, fuel: nat, first: bool) -> Option<
    (Seq<JsonV>, int),
>
    decreases fuel, s.len() - i, 0int,
{
    if fuel == 0 {
        None
    } else if !(0 <= i && i <= s.len()) {
        None
    } else {
        let j = skip_ws(s, i);
        if !(i <= j && j < s.len()) {
            None
        } else if first && s[j] == ']' {
            Some((Seq::empty(), j + 1))
        } else {
            match parse_val(s, j, (fuel - 1) as nat) {
                None => None,
                Some((v, j5)) => {
                    if !(0 <= j5 && j5 <= s.len()) {
                        None
                    } else {
                        let j6 = skip_ws(s, j5);
                        if !(i < j6 + 1 && j6 < s.len()) {
                            None
                        } else if s[j6] == ',' {
                            match parse_elems(s, j6 + 1, fuel, false) {
                                None => None,
                                Some((rest, e)) => Some((seq![v] + rest, e)),
                            }
                        } else if s[j6] == ']' {
                            Some((seq![v], j6 + 1))
                        } else {
                            None
                        }
                    }
                },
            }
        }
    }
}

/// The JSON document a whole text parses to, if it is well-formed JSON that
/// nests no deeper than the depth budget.
pub open spec fn parse_json(s: Seq<char>) -> Option<JsonV> {
    match parse_val(s, skip_ws(s, 0), JSON_DEPTH_LIMIT as nat) {
        None => None,
        Some((v, j)) => if 0 <= j <= s.len() && skip_ws(s, j) == s.len() {
            Some(v)
        } else {
            None
        },
    }
}


// ---------------------------------------------------------------------------
// Executable parser
// ---------------------------------------------------------------------------
fn is_ws_exec(c: char) -> (r: bool)
    ensures
        r == json_ws(c),
{
    c == ' ' || c == '\t' || c == '\n' || c == '\r'
}

fn skip_ws_exec(s: &Vec<char>, i: usize) -> (r: usize)
    requires
        i <= s.len(),
    ensures
        i <= r <= s.len(),
        r as int == skip_ws(s@, i as int),
{
    let mut k = i;
    while k < s.len() && is_ws_exec(s[k])
        invariant
            i <= k <= s.len(),
            skip_ws(s@, i as int) == skip_ws(s@, k as int),
        decreases s.len() - k,
    {
        k = k + 1;
    }
    k
}

fn hex_digit_exec(c: char) -> (r: Option<u32>)
    ensures
        r == hex_digit_val(c),
{
    let n = c as u32;
    if 48 <= n && n <= 57 {
        Some(n - 48)
    } else if 97 <= n && n <= 102 {
        Some(n - 87)
    } else if 65 <= n && n <= 70 {
        Some(n - 55)
    } else {
        None
    }
}

fn hex4_exec(s: &Vec<char>, i: usize) -> (r: Option<u32>)
    requires
        i <= s.len(),
    ensures
        r == hex4_val(s@, i as int),
        r matches Some(u) ==> u <= 0xFFFF,
{
    if s.len() - i < 4 {
        return None;
    }
    match (hex_digit_exec(s[i]), hex_digit_exec(s[i + 1]), hex_digit_exec(s[i + 2]), hex_digit_exec(
        s[i + 3],
    )) {
        (Some(a), Some(b), Some(c), Some(d)) => Some(a * 4096 + b * 256 + c * 16 + d),
        _ => None,
    }
}

/// Relies on `char::from_u32`: `Some` exactly for the Unicode scalar values,
/// returning the character with that code.
#[verifier::external_body]
fn char_from_u32(u: u32) -> (r: Option<char>)
    ensures
        (u < 0xD800 || (0xE000 <= u && u <= 0x10FFFF)) ==> r == Some(u as char),
        ((0xD800 <= u && u <= 0xDFFF) || u > 0x10FFFF) ==> r is None,
{
    char::from_u32(u)
}

fn parse_escape_exec(s: &Vec<char>, i: usize) -> (r: Option<(char, usize)>)
    requires
        i <= s.len(),
    ensures
        (match r {
            None => parse_escape(s@, i as int) is None,
            Some((c, j)) => parse_escape(s@, i as int) == Some((c, j as int)) && i < j <= s.len(),
        }),
{
    if s.len() - i < 2 {
        return None;
    }
    let e = s[i + 1];
    if e == '"' {
        Some(('"', i + 2))
    } else if e == '\\' {
        Some(('\\', i + 2))
    } else if e == '/' {
        Some(('/', i + 2))
    } else if e == 'b' {
        Some(('\u{0008}', i + 2))
    } else if e == 'f' {
        Some(('\u{000C}', i + 2))
    } else if e == 'n' {
        Some(('\n', i + 2))
    } else if e == 'r' {
        Some(('\r', i + 2))
    } else if e == 't' {
        Some(('\t', i + 2))
    } else if e == 'u' {
        match hex4_exec(s, i + 2) {
            None => None,
            Some(hi) => {
                if 0xD800 <= hi && hi <= 0xDBFF {
                    if s.len() - i >= 12 && s[i + 6] == '\\' && s[i + 7] == 'u' {
                        match hex4_exec(s, i + 8) {
                            None => None,
                            Some(lo) => {
                                if 0xDC00 <= lo && lo <= 0xDFFF {
                                    let code = 0x10000 + (hi - 0xD800) * 0x400 + (lo - 0xDC00);
                                    match char_from_u32(code) {
                                        Some(c) => Some((c, i + 12)),
                                        None => vstd::pervasive::unreached(),
                                    }
                                } else {
                                    None
                                }
                            },
                        }
                    } else {
                        None
                    }
                } else if 0xDC00 <= hi && hi <= 0xDFFF {
                    None
                } else {
                    match char_from_u32(hi) {
                        Some(c) => Some((c, i + 6)),
                        None => vstd::pervasive::unreached(),
                    }
                }
            },
        }
    } else {
        None
    }
}

fn parse_str_body_exec(s: &Vec<char>, i: usize) -> (r: Option<(Vec<char>, usize)>)
    requires
        i <= s.len(),
    ensures
        (match r {
            None => parse_str_body(s@, i as int) is None,
            Some((t, j)) => parse_str_body(s@, i as int) == Some((t@, j as int)) && i < j
                <= s.len(),
        }),
{
    let mut acc: Vec<char> = Vec::new();
    let mut k = i;
    loop
        invariant
            i <= k <= s.len(),
            (match parse_str_body(s@, k as int) {
                None => parse_str_body(s@, i as int) is None,
                Some((t, e)) => parse_str_body(s@, i as int) == Some((acc@ + t, e)),
            }),
        decreases s.len() - k,
    {
        if k >= s.len() {
            return None;
        }
        let c = s[k];
        if c == '"' {
            proof {
                assert(acc@ + Seq::<char>::empty() =~= acc@);
            }
            return Some((acc, k + 1));
        } else if c == '\\' {
            match parse_escape_exec(s, k) {
                None => {
                    return None;
                },
                Some((ch, j)) => {
                    proof {
                        if let Some((t, e)) = parse_str_body(s@, j as int) {
                            assert(acc@ + (seq![ch] + t) =~= (acc@ + seq![ch]) + t);
                        }
                    }
                    acc.push(ch);
                    k = j;
                },
            }
        } else if (c as u32) < 0x20 {
            return None;
        } else {
            proof {
                if let Some((t, e)) = parse_str_body(s@, k + 1 as int) {
                    assert(acc@ + (seq![c] + t) =~= (acc@ + seq![c]) + t);
                }
            }
            acc.push(c);
            k = k + 1;
        }
    }
}

fn is_digit_exec(c: char) -> (r: bool)
    ensures
        r == is_digit_char(c),
{
    let n = c as u32;
    48 <= n && n <= 57
}

fn scan_digits_exec(s: &Vec<char>, i: usize) -> (r: usize)
    requires
        i <= s.len(),
    ensures
        i <= r <= s.len(),
        r as int == scan_digits(s@, i as int),
{
    let mut k = i;
    while k < s.len() && is_digit_exec(s[k])
        invariant
            i <= k <= s.len(),
            scan_digits(s@, i as int) == scan_digits(s@, k as int),
        decreases s.len() - k,
    {
        k = k + 1;
    }
    k
}

fn parse_num_end_exec(s: &Vec<char>, i: usize) -> (r: Option<usize>)
    requires
        i <= s.len(),
    ensures
        (match r {
            None => parse_num_end(s@, i as int) is None,
            Some(e) => parse_num_end(s@, i as int) == Some(e as int) && i < e <= s.len(),
        }),
{
    proof {
        lemma_num_end_bounds(s@, i as int);
    }
    if i >= s.len() {
        return None;
    }
    let p = if s[i] == '-' {
        i + 1
    } else {
        i
    };
    if p >= s.len() {
        return None;
    }
    if !is_digit_exec(s[p]) {
        return None;
    }
    let q = if s[p] == '0' {
        p + 1
    } else {
        scan_digits_exec(s, p)
    };
    let after_frac: Option<usize> = if q < s.len() && s[q] == '.' {
        if q + 1 < s.len() && is_digit_exec(s[q + 1]) {
            Some(scan_digits_exec(s, q + 1))
        } else {
            None
        }
    } else {
        Some(q)
    };
    match after_frac {
        None => None,
        Some(q2) => {
            if q2 < s.len() && (s[q2] == 'e' || s[q2] == 'E') {
                let q3 = if q2 + 1 < s.len() && (s[q2 + 1] == '+' || s[q2 + 1] == '-') {
                    q2 + 2
                } else {
                    q2 + 1
                };
                if q3 < s.len() && is_digit_exec(s[q3]) {
                    Some(scan_digits_exec(s, q3))
                } else {
                    None
                }
            } else {
                Some(q2)
            }
        },
    }
}

/// Copies `s[a .. b]` into a fresh vector.
pub fn vec_slice(s: &Vec<char>, a: usize, b: usize) -> (r: Vec<char>)
    requires
        a <= b <= s.len(),
    ensures
        r@ == s@.subrange(a as int, b as int),
{
    let mut out: Vec<char> = Vec::new();
    let mut k = a;
    while k < b
        invariant
            a <= k <= b <= s.len(),
            out@ == s@.subrange(a as int, k as int),
        decreases b - k,
    {
        out.push(s[k]);
        assert(out@ =~= s@.subrange(a as int, k + 1 as int));
        k = k + 1;
    }
    out
}

fn parse_val_exec(s: &Vec<char>, i: usize, fuel: u32) -> (r: Option<(JsonValue, usize)>)
    requires
        i <= s.len(),
    ensures
        (match r {
            None => parse_val(s@, i as int, fuel as nat) is None,
            Some((v, j)) => parse_val(s@, i as int, fuel as nat) == Some((v@, j as int)) && i < j
                <= s.len(),
        }),
    decreases fuel, s.len() - i, 1int,
{
    if fuel == 0 {
        return None;
    }
    if i >= s.len() {
        return None;
    }
    let c = s[i];
    if c == '{' {
        match parse_membs_exec(s, i + 1, fuel - 1, true) {
            None => None,
            Some((ms, j)) => Some((JsonValue::Obj(ms), j)),
        }
    } else if c == '[' {
        match parse_elems_exec(s, i + 1, fuel - 1, true) {
            None => None,
            Some((es, j)) => Some((JsonValue::Arr(es), j)),
        }
    } else if c == '"' {
        match parse_str_body_exec(s, i + 1) {
            None => None,
            Some((t, j)) => Some((JsonValue::Str(t), j)),
        }
    } else if c == 'n' {
        if s.len() - i >= 4 && s[i + 1] == 'u' && s[i + 2] == 'l' && s[i + 3] == 'l' {
            Some((JsonValue::Null, i + 4))
        } else {
            None
        }
    } else if c == 't' {
        if s.len() - i >= 4 && s[i + 1] == 'r' && s[i + 2] == 'u' && s[i + 3] == 'e' {
            Some((JsonValue::Bool(true), i + 4))
        } else {
            None
        }
    } else if c == 'f' {
        if s.len() - i >= 5 && s[i + 1] == 'a' && s[i + 2] == 'l' && s[i + 3] == 's' && s[i + 4]
            == 'e' {
            Some((JsonValue::Bool(false), i + 5))
        } else {
            None
        }
    } else if c == '-' || is_digit_exec(c) {
        match parse_num_end_exec(s, i) {
            None => None,
            Some(e) => Some((JsonValue::Num(vec_slice(s, i, e)), e)),
        }
    } else {
        None
    }
}

fn parse_membs_exec(s: &Vec<char>, i: usize, fuel: u32, first: bool) -> (r: Option<
    (Vec<(Vec<char>, JsonValue)>, usize),
>)
    requires
        i <= s.len(),
    ensures
        (match r {
            None => parse_membs(s@, i as int, fuel as nat, first) is None,
            Some((ms, j)) => parse_membs(s@, i as int, fuel as nat, first) == Some(
                (membs_view(ms@), j as int),
            ) && i < j <= s.len(),
        }),
    decreases fuel, s.len() - i, 0int,
{
    if fuel == 0 {
        return None;
    }
    let j = skip_ws_exec(s, i);
    if j >= s.len() {
        return None;
    }
    if first && s[j] == '}' {
        let ms: Vec<(Vec<char>, JsonValue)> = Vec::new();
        proof {
            assert(membs_view(ms@) =~= Seq::<(Seq<char>, JsonV)>::empty());
        }
        return Some((ms, j + 1));
    }
    if s[j] != '"' {
        return None;
    }
    match parse_str_body_exec(s, j + 1) {
        None => None,
        Some((key, j2)) => {
            let j3 = skip_ws_exec(s, j2);
            if j3 >= s.len() {
                return None;
            }
            if s[j3] != ':' {
                return None;
            }
            let j4 = skip_ws_exec(s, j3 + 1);
            match parse_val_exec(s, j4, fuel - 1) {
                None => None,
                Some((v, j5)) => {
                    let j6 = skip_ws_exec(s, j5);
                    if j6 >= s.len() {
                        return None;
                    }
                    if s[j6] == ',' {
                        match parse_membs_exec(s, j6 + 1, fuel, false) {
                            None => None,
                            Some((rest, e)) => {
                                let ghost rest_snap = rest@;
                                let mut ms = rest;
                                ms.insert(0, (key, v));
                                proof {
                                    assert(membs_view(ms@) =~~= seq![(key@, v@)] + membs_view(
                                        rest_snap,
                                    ));
                                }
                                Some((ms, e))
                            },
                        }
                    } else if s[j6] == '}' {
                        let mut ms: Vec<(Vec<char>, JsonValue)> = Vec::new();
                        ms.push((key, v));
                        proof {
                            assert(membs_view(ms@) =~~= seq![(key@, v@)]);
                        }
                        Some((ms, j6 + 1))
                    } else {
                        None
                    }
                },
            }
        },
    }
}

fn parse_elems_exec(s: &Vec<char>, i: usize, fuel: u32, first: bool) -> (r: Option<
    (Vec<JsonValue>, usize),
>)
    requires
        i <= s.len(),
    ensures
        (match r {
            None => parse_elems(s@, i as int, fuel as nat, first) is None,
            Some((es, j)) => parse_elems(s@, i as int, fuel as nat, first) == Some(
                (elems_view(es@), j as int),
            ) && i < j <= s.len(),
        }),
    decreases fuel, s.len() - i, 0int,
{
    if fuel == 0 {
        return None;
    }
    let j = skip_ws_exec(s, i);
    if j >= s.len() {
        return None;
    }
    if first && s[j] == ']' {
        let es: Vec<JsonValue> = Vec::new();
        proof {
            assert(elems_view(es@) =~= Seq::<JsonV>::empty());
        }
        return Some((es, j + 1));
    }
    match parse_val_exec(s, j, fuel - 1) {
        None => None,
        Some((v, j5)) => {
            let j6 = skip_ws_exec(s, j5);
            if j6 >= s.len() {
                return None;
            }
            if s[j6] == ',' {
                match parse_elems_exec(s, j6 + 1, fuel, false) {
                    None => None,
                    Some((rest, e)) => {
                        let ghost rest_snap = rest@;
                        let mut es = rest;
                        es.insert(0, v);
                        proof {
                            assert(elems_view(es@) =~~= seq![v@] + elems_view(rest_snap));
                        }
                        Some((es, e))
                    },
                }
            } else if s[j6] == ']' {
                let mut es: Vec<JsonValue> = Vec::new();
                es.push(v);
                proof {
                    assert(elems_view(es@) =~~= seq![v@]);
                }
                Some((es, j6 + 1))
            } else {
                None
            }
        },
    }
}

/// Parses a whole text as one JSON document: optional whitespace, one value,
/// optional whitespace, end of input.
pub fn json_from_chars(s: &Vec<char>) -> (r: Option<JsonValue>)
    ensures
        (match r {
            None => parse_json(s@) is None,
            Some(v) => parse_json(s@) == Some(v@),
        }),
{
    let i = skip_ws_exec(s, 0);
    match parse_val_exec(s, i, JSON_DEPTH_LIMIT) {
        None => None,
        Some((v, j)) => {
            let k = skip_ws_exec(s, j);
            if k == s.len() {
                Some(v)
            } else {
                None
            }
        },
    }
}


/// The value under `key` in an object's member list, first occurrence wins.
pub open spec fn obj_get(ms: Seq<(Seq<char>, JsonV)>, key: Seq<char>) -> Option<JsonV>
    decreases ms.len(),
{
    if ms.len() == 0 {
        Option::None
    } else if ms[0].0 == key {
        Option::Some(ms[0].1)
    } else {
        obj_get(ms.drop_first(), key)
    }
}

// ---------------------------------------------------------------------------
// Serializer
// ---------------------------------------------------------------------------
pub open spec fn hex_digit_char(d: nat) -> char {
    if d < 10 {
        (48 + d) as char
    } else {
        (87 + d) as char
    }
}

/// How one character is spelled inside a serialized JSON string.
pub open spec fn esc_char(c: char) -> Seq<char> {
    if c == '"' {
        seq!['\\', '"']
    } else if c == '\\' {
        seq!['\\', '\\']
    } else if c == '\u{0008}' {
        seq!['\\', 'b']
    } else if c == '\u{000C}' {
        seq!['\\', 'f']
    } else if c == '\n' {
        seq!['\\', 'n']
    } else if c == '\r' {
        seq!['\\', 'r']
    } else if c == '\t' {
        seq!['\\', 't']
    } else if (c as u32) < 0x20 {
        seq!['\\', 'u', '0', '0', hex_digit_char((c as u32 / 16) as nat), hex_digit_char(
            (c as u32 % 16) as nat,
        )]
    } else {
        seq![c]
    }
}

/// The spelling of a whole string content, character by character.
pub open spec fn esc_str(t: Seq<char>) -> Seq<char>
    decreases t.len(),
{
    if t.len() == 0 {
        Seq::empty()
    } else {
        esc_char(t[0]) + esc_str(t.drop_first())
    }
}

/// The canonical spelling of a JSON value: no whitespace, object members in
/// the order given, strings escaped as `esc_char` says.
pub open spec fn ser_json(v: JsonV) -> Seq<char>
    decreases v, 0int,
{
    match v {
        JsonV::Null => seq!['n', 'u', 'l', 'l'],
        JsonV::Bool(b) => if b {
            seq!['t', 'r', 'u', 'e']
        } else {
            seq!['f', 'a', 'l', 's', 'e']
        },
        JsonV::Num(lex) => lex,
        JsonV::Str(t) => seq!['"'] + esc_str(t) + seq!['"'],
        JsonV::Arr(es) => seq!['['] + ser_elems(es) + seq![']'],
        JsonV::Obj(ms) => seq!['{'] + ser_membs(ms) + seq!['}'],
    }
}

pub open spec fn ser_elems(es: Seq<JsonV>) -> Seq<char>
    decreases es, 1int,
{
    if es.len() == 0 {
        Seq::empty()
    } else if es.len() == 1 {
        ser_json(es[0])
    } else {
        ser_json(es[0]) + seq![','] + ser_elems(es.drop_first())
    }
}

pub open spec fn ser_membs(ms: Seq<(Seq<char>, JsonV)>) -> Seq<char>
    decreases ms, 1int,
{
    if ms.len() == 0 {
        Seq::empty()
    } else {
        let head = seq!['"'] + esc_str(ms[0].0) + seq!['"', ':'] + ser_json(ms[0].1);
        if ms.len() == 1 {
            head
        } else {
            head + seq![','] + ser_membs(ms.drop_first())
        }
    }
}

fn hex_digit_exec_char(d: u32) -> (c: char)
    requires
        d < 16,
    ensures
        c == hex_digit_char(d as nat),
{
    if d < 10 {
        ((48 + d) as u8) as char
    } else {
        ((87 + d) as u8) as char
    }
}

/// Appends the spelling of one string character.
fn push_esc_char(out: &mut Vec<char>, c: char)
    ensures
        final(out)@ == old(out)@ + esc_char(c),
{
    if c == '"' {
        out.push('\\');
        out.push('"');
    } else if c == '\\' {
        out.push('\\');
        out.push('\\');
    } else if c == '\u{0008}' {
        out.push('\\');
        out.push('b');
    } else if c == '\u{000C}' {
        out.push('\\');
        out.push('f');
    } else if c == '\n' {
        out.push('\\');
        out.push('n');
    } else if c == '\r' {
        out.push('\\');
        out.push('r');
    } else if c == '\t' {
        out.push('\\');
        out.push('t');
    } else if (c as u32) < 0x20 {
        let n = c as u32;
        out.push('\\');
        out.push('u');
        out.push('0');
        out.push('0');
        out.push(hex_digit_exec_char(n / 16));
        out.push(hex_digit_exec_char(n % 16));
    } else {
        out.push(c);
    }
    assert(final(out)@ =~= old(out)@ + esc_char(c));
}

/// Appends the spelling of a whole string content.
fn write_escaped(out: &mut Vec<char>, t: &Vec<char>)
    ensures
        final(out)@ == old(out)@ + esc_str(t@),
{
    let n = t.len();
    let mut k: usize = 0;
    proof {
        assert(t@.subrange(0, n as int) =~= t@);
    }
    while k < n
        invariant
            k <= n,
            n == t@.len(),
            old(out)@ + esc_str(t@) == out@ + esc_str(t@.subrange(k as int, n as int)),
        decreases n - k,
    {
        proof {
            let suf = t@.subrange(k as int, n as int);
            assert(suf[0] == t@[k as int]);
            assert(suf.drop_first() =~= t@.subrange(k + 1 as int, n as int));
            assert(out@ + (esc_char(t@[k as int]) + esc_str(t@.subrange(k + 1 as int, n as int)))
                =~= (out@ + esc_char(t@[k as int])) + esc_str(t@.subrange(k + 1 as int, n as int)));
        }
        push_esc_char(out, t[k]);
        k = k + 1;
    }
    proof {
        assert(t@.subrange(n as int, n as int) =~= Seq::<char>::empty());
        assert(out@ + Seq::<char>::empty() =~= out@);
    }
}

/// Appends the canonical spelling of `v`.
pub fn write_json(out: &mut Vec<char>, v: &JsonValue)
    ensures
        final(out)@ == old(out)@ + ser_json(json_view(*v)),
    decreases v, 0int,
{
    broadcast use vstd::std_specs::vec::group_vec_axioms;

    match v {
        JsonValue::Null => {
            out.push('n');
            out.push('u');
            out.push('l');
            out.push('l');
            assert(final(out)@ =~= old(out)@ + ser_json(json_view(*v)));
        },
        JsonValue::Bool(b) => {
            if *b {
                out.push('t');
                out.push('r');
                out.push('u');
                out.push('e');
            } else {
                out.push('f');
                out.push('a');
                out.push('l');
                out.push('s');
                out.push('e');
            }
            assert(final(out)@ =~= old(out)@ + ser_json(json_view(*v)));
        },
        JsonValue::Num(lex) => {
            crate::text::push_chars(out, lex);
        },
        JsonValue::Str(t) => {
            out.push('"');
            write_escaped(out, t);
            out.push('"');
            assert(final(out)@ =~= old(out)@ + ser_json(json_view(*v)));
        },
        JsonValue::Arr(es) => {
            out.push('[');
            proof {
                assert(decreases_to!(v => es));
                assert(decreases_to!(es => es@));
            }
            write_elems(out, es, 0);
            out.push(']');
            proof {
                assert(elems_view(es@).subrange(0, elems_view(es@).len() as int) =~= elems_view(
                    es@,
                ));
                assert(final(out)@ =~= old(out)@ + ser_json(json_view(*v)));
            }
        },
        JsonValue::Obj(ms) => {
            out.push('{');
            proof {
                assert(decreases_to!(v => ms));
                assert(decreases_to!(ms => ms@));
            }
            write_membs(out, ms, 0);
            out.push('}');
            proof {
                assert(membs_view(ms@).subrange(0, membs_view(ms@).len() as int) =~= membs_view(
                    ms@,
                ));
                assert(final(out)@ =~= old(out)@ + ser_json(json_view(*v)));
            }
        },
    }
}

/// Appends the elements from `k` on, commas between them.
fn write_elems(out: &mut Vec<char>, es: &Vec<JsonValue>, k: usize)
    requires
        k <= es.len(),
    ensures
        final(out)@ == old(out)@ + ser_elems(elems_view(es@).subrange(k as int, es@.len() as int)),
    decreases es, es.len() - k,
{
    broadcast use vstd::std_specs::vec::group_vec_axioms;

    let ghost evs = elems_view(es@);
    if k < es.len() {
        proof {
            assert(decreases_to!(es => es[k as int]));
            assert(evs.subrange(k as int, evs.len() as int)[0] == evs[k as int]);
            assert(evs.subrange(k as int, evs.len() as int).drop_first() =~= evs.subrange(
                k + 1 as int,
                evs.len() as int,
            ));
        }
        write_json(out, &es[k]);
        if k + 1 < es.len() {
            out.push(',');
            write_elems(out, es, k + 1);
            assert(final(out)@ =~= old(out)@ + ser_elems(evs.subrange(k as int, evs.len() as int)));
        } else {
            assert(final(out)@ =~= old(out)@ + ser_elems(evs.subrange(k as int, evs.len() as int)));
        }
    } else {
        assert(evs.subrange(k as int, evs.len() as int) =~= Seq::<JsonV>::empty());
        assert(final(out)@ =~= old(out)@ + ser_elems(evs.subrange(k as int, evs.len() as int)));
    }
}

/// Appends the members from `k` on, commas between them.
fn write_membs(out: &mut Vec<char>, ms: &Vec<(Vec<char>, JsonValue)>, k: usize)
    requires
        k <= ms.len(),
    ensures
        final(out)@ == old(out)@ + ser_membs(membs_view(ms@).subrange(k as int, ms@.len() as int)),
    decreases ms, ms.len() - k,
{
    broadcast use vstd::std_specs::vec::group_vec_axioms;

    let ghost mvs = membs_view(ms@);
    if k < ms.len() {
        proof {
            assert(decreases_to!(ms => ms[k as int]));
            assert(decreases_to!(ms[k as int] => ms[k as int].1));
            assert(mvs.subrange(k as int, mvs.len() as int)[0] == mvs[k as int]);
            assert(mvs.subrange(k as int, mvs.len() as int).drop_first() =~= mvs.subrange(
                k + 1 as int,
                mvs.len() as int,
            ));
        }
        out.push('"');
        write_escaped(out, &ms[k].0);
        out.push('"');
        out.push(':');
        write_json(out, &ms[k].1);
        if k + 1 < ms.len() {
            out.push(',');
            write_membs(out, ms, k + 1);
            assert(final(out)@ =~= old(out)@ + ser_membs(mvs.subrange(k as int, mvs.len() as int)));
        } else {
            assert(final(out)@ =~= old(out)@ + ser_membs(mvs.subrange(k as int, mvs.len() as int)));
        }
    } else {
        assert(mvs.subrange(k as int, mvs.len() as int) =~= Seq::<(Seq<char>, JsonV)>::empty());
        assert(final(out)@ =~= old(out)@ + ser_membs(mvs.subrange(k as int, mvs.len() as int)));
    }
}

// ---------------------------------------------------------------------------
// Integer lexemes
// ---------------------------------------------------------------------------
/// The value of a digit string, most significant digit first.
pub open spec fn dec_val(s: Seq<char>) -> nat
    decreases s.len(),
{
    if s.len() == 0 {
        0
    } else {
        dec_val(s.drop_last()) * 10 + ((s.last() as u32 - 48) as nat)
    }
}

pub open spec fn all_digits(s: Seq<char>) -> bool {
    forall|k: int| 0 <= k < s.len() ==> is_digit_char(#[trigger] s[k])
}

/// The `u64` a number lexeme denotes, if it is a plain unsigned integer in
/// range: digits only, value below 2^64.
pub open spec fn num_as_u64(lex: Seq<char>) -> Option<u64> {
    if lex.len() > 0 && all_digits(lex) && dec_val(lex) < 0x10000000000000000 {
        Some(dec_val(lex) as u64)
    } else {
        None
    }
}

proof fn lemma_dec_val_prefix_le(s: Seq<char>, k: int)
    requires
        all_digits(s),
        0 <= k <= s.len(),
    ensures
        dec_val(s.subrange(0, k)) <= dec_val(s),
    decreases s.len() - k,
{
    if k == s.len() {
        assert(s.subrange(0, k) =~= s);
    } else {
        assert(s.subrange(0, k + 1).drop_last() =~= s.subrange(0, k));
        assert(dec_val(s.subrange(0, k)) <= dec_val(s.subrange(0, k + 1)));
        lemma_dec_val_prefix_le(s, k + 1);
    }
}

/// Reads a number lexeme as an unsigned integer, if that is what it is.
pub fn lex_to_u64(lex: &Vec<char>) -> (r: Option<u64>)
    ensures
        r == num_as_u64(lex@),
{
    let n = lex.len();
    if n == 0 {
        return None;
    }
    let mut val: u64 = 0;
    let mut k: usize = 0;
    while k < n
        invariant
            0 < n == lex@.len(),
            k <= n,
            all_digits(lex@.subrange(0, k as int)),
            val == dec_val(lex@.subrange(0, k as int)),
        decreases n - k,
    {
        let c = lex[k];
        if !is_digit_exec(c) {
            proof {
                assert(!all_digits(lex@));
            }
            return None;
        }
        let d = (c as u32 - 48) as u64;
        proof {
            assert(lex@.subrange(0, k + 1 as int).drop_last() =~= lex@.subrange(0, k as int));
            assert(all_digits(lex@.subrange(0, k + 1 as int)));
        }
        match val.checked_mul(10) {
            None => {
                proof {
                    assert(dec_val(lex@.subrange(0, k + 1 as int)) >= 0x10000000000000000);
                    if all_digits(lex@) {
                        lemma_dec_val_prefix_le(lex@, k + 1);
                    }
                }
                return None;
            },
            Some(v10) => {
                match v10.checked_add(d) {
                    None => {
                        proof {
                            assert(dec_val(lex@.subrange(0, k + 1 as int))
                                >= 0x10000000000000000);
                            if all_digits(lex@) {
                                lemma_dec_val_prefix_le(lex@, k + 1);
                            }
                        }
                        return None;
                    },
                    Some(v) => {
                        val = v;
                    },
                }
            },
        }
        k = k + 1;
    }
    proof {
        assert(lex@.subrange(0, n as int) =~= lex@);
    }
    Some(val)
}


// ---------------------------------------------------------------------------
// The codec round trip
// ---------------------------------------------------------------------------
/// Characters that may follow a serialized value inside a document.
pub open spec fn is_delim(c: char) -> bool {
    c == ',' || c == '}' || c == ']'
}

/// Splits knowledge of a concatenation sitting inside `s` at `i` into
/// knowledge of its two halves.
proof fn lemma_split_at(s: Seq<char>, i: int, a: Seq<char>, b: Seq<char>)
    requires
        0 <= i,
        i + a.len() + b.len() <= s.len(),
        s.subrange(i, i + a.len() + b.len()) == a + b,
    ensures
        s.subrange(i, i + a.len()) == a,
        s.subrange(i + a.len(), i + a.len() + b.len()) == b,
{
    let whole = s.subrange(i, i + a.len() + b.len());
    assert forall|k: int| 0 <= k < a.len() implies s.subrange(i, i + a.len())[k] == a[k] by {
        assert(whole[k] == (a + b)[k]);
    }
    assert(s.subrange(i, i + a.len()) =~= a);
    assert forall|k: int|
        0 <= k < b.len() implies s.subrange(i + a.len(), i + a.len() + b.len())[k] == b[k] by {
        assert(whole[a.len() + k] == (a + b)[a.len() + k]);
    }
    assert(s.subrange(i + a.len(), i + a.len() + b.len()) =~= b);
}

proof fn lemma_hex_digit_inv(d: u32)
    requires
        d < 16,
    ensures
        hex_digit_val(hex_digit_char(d as nat)) == Some(d),
{
}

/// The character of `w` at offset `k`, read through where `w` sits in `s`.
proof fn lemma_char_at(s: Seq<char>, i: int, w: Seq<char>, k: int)
    requires
        0 <= i,
        0 <= k < w.len(),
        i + w.len() <= s.len(),
        s.subrange(i, i + w.len()) == w,
    ensures
        s[i + k] == w[k],
{
    assert(s.subrange(i, i + w.len())[k] == s[i + k]);
}

/// The spelling of an escaped character decodes back to it.
#[verifier::rlimit(60)]
proof fn lemma_parse_escape_inv(c: char, s: Seq<char>, i: int)
    requires
        esc_char(c).len() >= 2,
        0 <= i,
        i + esc_char(c).len() <= s.len(),
        s.subrange(i, i + esc_char(c).len()) == esc_char(c),
    ensures
        parse_escape(s, i) == Some((c, i + esc_char(c).len() as int)),
{
    let e = esc_char(c);
    lemma_char_at(s, i, e, 0);
    lemma_char_at(s, i, e, 1);
    if e.len() == 6 {
        lemma_char_at(s, i, e, 2);
        lemma_char_at(s, i, e, 3);
        lemma_char_at(s, i, e, 4);
        lemma_char_at(s, i, e, 5);
        assert(s[i] == '\\');
        assert(s[i + 1] == 'u');
        assert(s[i + 2] == '0');
        assert(s[i + 3] == '0');
        assert(s[i + 4] == hex_digit_char((c as u32 / 16) as nat));
        assert(s[i + 5] == hex_digit_char((c as u32 % 16) as nat));
        lemma_hex_digit_inv(c as u32 / 16);
        lemma_hex_digit_inv(c as u32 % 16);
        assert((c as u32 / 16) * 16 + (c as u32 % 16) == c as u32) by {
            vstd::arithmetic::div_mod::lemma_fundamental_div_mod(c as u32 as int, 16);
        }
        assert(hex4_val(s, i + 2) == Some(c as u32));
        vstd::utf8::char_u32_cast(c, c as u32);
        assert(parse_escape(s, i) == Some((c, i + 6)));
    } else {
        assert(s[i] == '\\');
        assert(parse_escape(s, i) == Some((c, i + 2)));
    }
}

/// A serialized string body parses back to exactly its content, ending just
/// past the closing quote.
#[verifier::rlimit(100)]
proof fn lemma_parse_esc_str(t: Seq<char>, s: Seq<char>, i: int)
    requires
        0 <= i,
        i + esc_str(t).len() + 1 <= s.len(),
        s.subrange(i, i + esc_str(t).len() + 1) == esc_str(t) + seq!['"'],
    ensures
        parse_str_body(s, i) == Some((t, i + esc_str(t).len() + 1)),
    decreases t.len(),
{
    let whole = esc_str(t) + seq!['"'];
    if t.len() == 0 {
        lemma_char_at(s, i, whole, 0);
        assert(whole[0] == '"');
    } else {
        let c = t[0];
        let e = esc_char(c);
        let t2 = t.drop_first();
        let rest = esc_str(t2) + seq!['"'];
        assert(esc_str(t) == e + esc_str(t2));
        assert(whole =~= e + rest);
        let j = i + e.len();
        assert(s.subrange(i, i + e.len()) =~= e) by {
            assert forall|k: int| 0 <= k < e.len() implies s.subrange(i, i + e.len())[k]
                == e[k] by {
                lemma_char_at(s, i, whole, k);
                assert(whole[k] == e[k]);
                assert(s.subrange(i, i + e.len())[k] == s[i + k]);
            }
        }
        assert(s.subrange(j, j + rest.len()) =~= rest) by {
            assert forall|k: int| 0 <= k < rest.len() implies s.subrange(j, j + rest.len())[k]
                == rest[k] by {
                lemma_char_at(s, i, whole, e.len() + k);
                assert(whole[e.len() + k] == rest[k]);
                assert(s.subrange(j, j + rest.len())[k] == s[j + k]);
            }
        }
        lemma_parse_esc_str(t2, s, j);
        if e.len() >= 2 {
            lemma_parse_escape_inv(c, s, i);
            lemma_char_at(s, i, e, 0);
            assert(s[i] == '\\');
        } else {
            assert(e == seq![c]);
            lemma_char_at(s, i, e, 0);
            assert(s[i] == c);
            assert(c != '"' && c != '\\' && (c as u32) >= 0x20);
        }
        assert(seq![c] + t2 =~= t);
    }
}


/// A plain unsigned decimal lexeme: digits only, no leading zero unless it
/// is the single digit zero.
pub open spec fn is_dec_lexeme(lex: Seq<char>) -> bool {
    lex.len() > 0 && all_digits(lex) && (lex[0] == '0' ==> lex.len() == 1)
}

/// An unsigned decimal with one fraction part: an integer part, a dot, and
/// at least one digit.
pub open spec fn is_frac_lexeme(lex: Seq<char>) -> bool {
    exists|d: int|
        1 <= d < lex.len() - 1 && #[trigger] lex[d] == '.' && is_dec_lexeme(lex.subrange(0, d))
            && all_digits(lex.subrange(d + 1, lex.len() as int))
}

/// The unsigned number spellings the round-trip law covers.
pub open spec fn is_num_lexeme(lex: Seq<char>) -> bool {
    is_dec_lexeme(lex) || is_frac_lexeme(lex)
}

/// Values whose spelling the parser is proven to read back: numbers are
/// unsigned decimals with at most one fraction part, and arrays and objects
/// carry such values.
pub open spec fn wf_json(v: JsonV) -> bool
    decreases v, 0int,
{
    match v {
        JsonV::Null => true,
        JsonV::Bool(_) => true,
        JsonV::Num(lex) => is_num_lexeme(lex),
        JsonV::Str(_) => true,
        JsonV::Arr(es) => wf_elems(es),
        JsonV::Obj(ms) => wf_membs(ms),
    }
}

pub open spec fn wf_elems(es: Seq<JsonV>) -> bool
    decreases es, 1int,
{
    es.len() == 0 || (wf_json(es[0]) && wf_elems(es.drop_first()))
}

pub open spec fn wf_membs(ms: Seq<(Seq<char>, JsonV)>) -> bool
    decreases ms, 1int,
{
    ms.len() == 0 || (wf_json(ms[0].1) && wf_membs(ms.drop_first()))
}

/// Parser fuel that suffices for a value's nesting.
pub open spec fn need_val(v: JsonV) -> nat
    decreases v, 0int,
{
    match v {
        JsonV::Arr(es) => 1 + need_elems(es),
        JsonV::Obj(ms) => 1 + need_membs(ms),
        _ => 1,
    }
}

pub open spec fn need_elems(es: Seq<JsonV>) -> nat
    decreases es, 1int,
{
    if es.len() == 0 {
        1
    } else {
        let h = 1 + need_val(es[0]);
        let r = need_elems(es.drop_first());
        if h > r {
            h
        } else {
            r
        }
    }
}

pub open spec fn need_membs(ms: Seq<(Seq<char>, JsonV)>) -> nat
    decreases ms, 1int,
{
    if ms.len() == 0 {
        1
    } else {
        let h = 1 + need_val(ms[0].1);
        let r = need_membs(ms.drop_first());
        if h > r {
            h
        } else {
            r
        }
    }
}

/// A spelled value is never empty and never opens with whitespace.
proof fn lemma_ser_head(v: JsonV)
    requires
        wf_json(v),
    ensures
        ser_json(v).len() > 0,
        !json_ws(ser_json(v)[0]),
{
    match v {
        JsonV::Num(lex) => {
            if is_frac_lexeme(lex) {
                let d = choose|d: int|
                    1 <= d < lex.len() - 1 && #[trigger] lex[d] == '.' && is_dec_lexeme(
                        lex.subrange(0, d),
                    ) && all_digits(lex.subrange(d + 1, lex.len() as int));
                assert(lex[0] == lex.subrange(0, d)[0]);
            }
            assert(is_digit_char(lex[0]));
        },
        JsonV::Str(t) => {
            assert(ser_json(v)[0] == '"');
        },
        JsonV::Arr(es) => {
            assert(ser_json(v)[0] == '[');
        },
        JsonV::Obj(ms) => {
            assert(ser_json(v)[0] == '{');
        },
        _ => {},
    }
}

proof fn lemma_scan_digits_exact(s: Seq<char>, a: int, b: int)
    requires
        0 <= a <= b <= s.len(),
        forall|k: int| a <= k < b ==> is_digit_char(#[trigger] s[k]),
        b == s.len() || !is_digit_char(s[b]),
    ensures
        scan_digits(s, a) == b,
    decreases b - a,
{
    if a < b {
        lemma_scan_digits_exact(s, a + 1, b);
    }
}

/// A covered number lexeme sitting before a delimiter parses as exactly one
/// number token.
proof fn lemma_parse_num_lex(lex: Seq<char>, s: Seq<char>, i: int)
    requires
        is_num_lexeme(lex),
        0 <= i,
        i + lex.len() <= s.len(),
        s.subrange(i, i + lex.len() as int) == lex,
        i + lex.len() == s.len() || is_delim(s[i + lex.len()]),
    ensures
        parse_num_end(s, i) == Some(i + lex.len() as int),
{
    let e = i + lex.len();
    lemma_char_at(s, i, lex, 0);
    assert(s[i] == lex[0]);
    if is_dec_lexeme(lex) {
        assert forall|k: int| i <= k < e implies is_digit_char(#[trigger] s[k]) by {
            lemma_char_at(s, i, lex, k - i);
            assert(is_digit_char(lex[k - i]));
        }
        assert(is_digit_char(s[i]));
        if lex[0] == '0' {
            assert(lex.len() == 1);
            assert(e == i + 1);
        } else {
            lemma_scan_digits_exact(s, i, e);
        }
    } else {
        let d = choose|d: int|
            1 <= d < lex.len() - 1 && #[trigger] lex[d] == '.' && is_dec_lexeme(
                lex.subrange(0, d),
            ) && all_digits(lex.subrange(d + 1, lex.len() as int));
        let ip = lex.subrange(0, d);
        let fp = lex.subrange(d + 1, lex.len() as int);
        assert(lex[0] == ip[0]);
        assert(is_digit_char(s[i]));
        lemma_char_at(s, i, lex, d);
        assert(s[i + d] == '.');
        lemma_char_at(s, i, lex, d + 1);
        assert(s[i + d + 1] == fp[0]);
        assert(is_digit_char(s[i + d + 1]));
        assert forall|k: int| i <= k < i + d implies is_digit_char(#[trigger] s[k]) by {
            lemma_char_at(s, i, lex, k - i);
            assert(lex[k - i] == ip[k - i]);
            assert(is_digit_char(ip[k - i]));
        }
        assert forall|k: int| i + d + 1 <= k < e implies is_digit_char(#[trigger] s[k]) by {
            lemma_char_at(s, i, lex, k - i);
            assert(lex[k - i] == fp[k - i - d - 1]);
            assert(is_digit_char(fp[k - i - d - 1]));
        }
        if ip[0] == '0' {
            assert(ip.len() == 1);
            assert(d == 1);
        } else {
            lemma_scan_digits_exact(s, i, i + d);
        }
        lemma_scan_digits_exact(s, i + d + 1, e);
    }
}

/// The piece of `whole` at offset `a`, read through where `whole` sits in
/// `s`.
proof fn lemma_carve(s: Seq<char>, i: int, whole: Seq<char>, a: int, w: Seq<char>)
    requires
        0 <= i,
        i + whole.len() <= s.len(),
        s.subrange(i, i + whole.len()) == whole,
        0 <= a,
        a + w.len() <= whole.len(),
        whole.subrange(a, a + w.len()) == w,
    ensures
        s.subrange(i + a, i + a + w.len()) == w,
{
    assert forall|k: int| 0 <= k < w.len() implies s.subrange(i + a, i + a + w.len())[k]
        == w[k] by {
        lemma_char_at(s, i, whole, a + k);
        assert(whole.subrange(a, a + w.len())[k] == whole[a + k]);
        assert(s.subrange(i + a, i + a + w.len())[k] == s[i + a + k]);
    }
    assert(s.subrange(i + a, i + a + w.len()) =~= w);
}

/// A spelled value parses back to itself, ending exactly at its end, for
/// any fuel that covers its nesting, wherever it sits before a delimiter.
#[verifier::rlimit(100)]
proof fn lemma_parse_ser_val(v: JsonV, s: Seq<char>, i: int, fuel: nat)
    requires
        wf_json(v),
        fuel >= need_val(v),
        0 <= i,
        i + ser_json(v).len() <= s.len(),
        s.subrange(i, i + ser_json(v).len() as int) == ser_json(v),
        i + ser_json(v).len() == s.len() || is_delim(s[i + ser_json(v).len()]),
    ensures
        parse_val(s, i, fuel) == Some((v, i + ser_json(v).len() as int)),
    decreases v, 0int,
{
    let w = ser_json(v);
    match v {
        JsonV::Null => {
            lemma_char_at(s, i, w, 0);
            lemma_char_at(s, i, w, 1);
            lemma_char_at(s, i, w, 2);
            lemma_char_at(s, i, w, 3);
        },
        JsonV::Bool(b) => {
            lemma_char_at(s, i, w, 0);
            lemma_char_at(s, i, w, 1);
            lemma_char_at(s, i, w, 2);
            lemma_char_at(s, i, w, 3);
            if !b {
                lemma_char_at(s, i, w, 4);
            }
        },
        JsonV::Num(lex) => {
            lemma_char_at(s, i, w, 0);
            assert(is_digit_char(s[i]));
            lemma_parse_num_lex(lex, s, i);
        },
        JsonV::Str(t) => {
            lemma_char_at(s, i, w, 0);
            assert(w == seq!['"'] + (esc_str(t) + seq!['"']));
            lemma_split_at(s, i, seq!['"'], esc_str(t) + seq!['"']);
            lemma_parse_esc_str(t, s, i + 1);
        },
        JsonV::Arr(es) => {
            lemma_char_at(s, i, w, 0);
            assert(w == seq!['['] + (ser_elems(es) + seq![']']));
            lemma_split_at(s, i, seq!['['], ser_elems(es) + seq![']']);
            lemma_parse_ser_elems(es, s, i + 1, (fuel - 1) as nat, true);
        },
        JsonV::Obj(ms) => {
            lemma_char_at(s, i, w, 0);
            assert(w == seq!['{'] + (ser_membs(ms) + seq!['}']));
            lemma_split_at(s, i, seq!['{'], ser_membs(ms) + seq!['}']);
            lemma_parse_ser_membs(ms, s, i + 1, (fuel - 1) as nat, true);
        },
    }
}

/// Spelled array elements followed by the closing bracket parse back to the
/// element list, ending just past the bracket.
#[verifier::rlimit(100)]
proof fn lemma_parse_ser_elems(es: Seq<JsonV>, s: Seq<char>, i: int, fuel: nat, first: bool)
    requires
        wf_elems(es),
        first || es.len() > 0,
        fuel >= need_elems(es),
        0 <= i,
        i + ser_elems(es).len() + 1 <= s.len(),
        s.subrange(i, i + ser_elems(es).len() + 1) == ser_elems(es) + seq![']'],
    ensures
        parse_elems(s, i, fuel, first) == Some((es, i + ser_elems(es).len() + 1)),
    decreases es, 1int,
{
    let whole = ser_elems(es) + seq![']'];
    if es.len() == 0 {
        lemma_char_at(s, i, whole, 0);
        assert(whole[0] == ']');
        assert(skip_ws(s, i) == i);
    } else {
        let v0 = es[0];
        let sv = ser_json(v0);
        let es2 = es.drop_first();
        let tail: Seq<char> = if es.len() == 1 {
            Seq::empty()
        } else {
            seq![','] + ser_elems(es2)
        };
        assert(ser_elems(es) =~= sv + tail);
        assert(whole =~= sv + (tail + seq![']']));
        lemma_ser_head(v0);
        assert(whole.subrange(0, sv.len() as int) =~= sv);
        lemma_carve(s, i, whole, 0, sv);
        lemma_char_at(s, i, whole, 0);
        assert(whole[0] == sv[0]);
        assert(skip_ws(s, i) == i);
        let o5 = i + sv.len();
        lemma_char_at(s, i, whole, sv.len() as int);
        assert(whole[sv.len() as int] == (tail + seq![']'])[0]);
        if es.len() == 1 {
            assert(s[o5] == ']');
            lemma_parse_ser_val(v0, s, i, (fuel - 1) as nat);
            assert(skip_ws(s, o5) == o5);
            assert(seq![v0] =~= es);
        } else {
            assert(s[o5] == ',');
            lemma_parse_ser_val(v0, s, i, (fuel - 1) as nat);
            assert(skip_ws(s, o5) == o5);
            assert(whole.subrange(
                sv.len() + 1 as int,
                sv.len() + 1 + ser_elems(es2).len() + 1 as int,
            ) =~= ser_elems(es2) + seq![']']);
            lemma_carve(s, i, whole, sv.len() + 1 as int, ser_elems(es2) + seq![']']);
            lemma_parse_ser_elems(es2, s, o5 + 1, fuel, false);
            assert(seq![v0] + es2 =~= es);
        }
    }
}

/// Spelled object members followed by the closing brace parse back to the
/// member list, ending just past the brace.
#[verifier::rlimit(100)]
proof fn lemma_parse_ser_membs(
    ms: Seq<(Seq<char>, JsonV)>,
    s: Seq<char>,
    i: int,
    fuel: nat,
    first: bool,
)
    requires
        wf_membs(ms),
        first || ms.len() > 0,
        fuel >= need_membs(ms),
        0 <= i,
        i + ser_membs(ms).len() + 1 <= s.len(),
        s.subrange(i, i + ser_membs(ms).len() + 1) == ser_membs(ms) + seq!['}'],
    ensures
        parse_membs(s, i, fuel, first) == Some((ms, i + ser_membs(ms).len() + 1)),
    decreases ms, 1int,
{
    let whole = ser_membs(ms) + seq!['}'];
    if ms.len() == 0 {
        lemma_char_at(s, i, whole, 0);
        assert(whole[0] == '}');
        assert(skip_ws(s, i) == i);
    } else {
        let key = ms[0].0;
        let v0 = ms[0].1;
        let ek = esc_str(key);
        let sv = ser_json(v0);
        let ms2 = ms.drop_first();
        let tail: Seq<char> = if ms.len() == 1 {
            Seq::empty()
        } else {
            seq![','] + ser_membs(ms2)
        };
        assert(ser_membs(ms) =~= seq!['"'] + ek + seq!['"', ':'] + sv + tail);
        assert(whole =~= seq!['"'] + ek + seq!['"', ':'] + sv + tail + seq!['}']);
        lemma_ser_head(v0);
        let o2: int = 1 + ek.len() as int;  // offset of the closing quote
        let o4: int = o2 + 2;  // offset of the value
        let o5: int = o4 + sv.len() as int;  // offset just past the value
        lemma_char_at(s, i, whole, 0);
        assert(whole[0] == '"');
        assert(skip_ws(s, i) == i);
        assert(whole.subrange(1 as int, 1 + ek.len() + 1 as int) =~= ek + seq!['"']);
        lemma_carve(s, i, whole, 1 as int, ek + seq!['"']);
        lemma_parse_esc_str(key, s, i + 1);
        lemma_char_at(s, i, whole, o2 + 1);
        assert(whole[o2 + 1] == ':');
        assert(skip_ws(s, i + o2 + 1) == i + o2 + 1);
        assert(whole.subrange(o4, o4 + sv.len()) =~= sv);
        lemma_carve(s, i, whole, o4, sv);
        lemma_char_at(s, i, whole, o4);
        assert(whole[o4] == sv[0]);
        assert(skip_ws(s, i + o4) == i + o4);
        lemma_char_at(s, i, whole, o5);
        assert(whole[o5] == (tail + seq!['}'])[0]);
        if ms.len() == 1 {
            assert(s[i + o5] == '}');
            lemma_parse_ser_val(v0, s, i + o4, (fuel - 1) as nat);
            assert(skip_ws(s, i + o5) == i + o5);
            assert(seq![(key, v0)] =~= ms);
        } else {
            assert(s[i + o5] == ',');
            lemma_parse_ser_val(v0, s, i + o4, (fuel - 1) as nat);
            assert(skip_ws(s, i + o5) == i + o5);
            assert(whole.subrange(
                o5 + 1,
                o5 + 1 + ser_membs(ms2).len() + 1,
            ) =~= ser_membs(ms2) + seq!['}']);
            lemma_carve(s, i, whole, o5 + 1, ser_membs(ms2) + seq!['}']);
            lemma_parse_ser_membs(ms2, s, i + o5 + 1, fuel, false);
            assert(seq![(key, v0)] + ms2 =~= ms);
        }
    }
}

/// Law: the codec is symmetric. Spelling any well-formed value and parsing
/// the text back yields exactly that value, as long as the value's nesting
/// fits the parser's depth budget.
pub proof fn lemma_parse_ser_json(v: JsonV)
    requires
        wf_json(v),
        need_val(v) <= JSON_DEPTH_LIMIT as nat,
    ensures
        parse_json(ser_json(v)) == Some(v),
{
    let s = ser_json(v);
    lemma_ser_head(v);
    assert(skip_ws(s, 0) == 0);
    assert(s.subrange(0, s.len() as int) =~= s);
    lemma_parse_ser_val(v, s, 0, JSON_DEPTH_LIMIT as nat);
    assert(skip_ws(s, s.len() as int) == s.len());
}


/// The first member under a key wins; where no earlier member shares it,
/// the entry at `k` is what lookup answers.
pub proof fn lemma_obj_get_at(ms: Seq<(Seq<char>, JsonV)>, k: int)
    requires
        0 <= k < ms.len(),
        forall|m: int| 0 <= m < k ==> (#[trigger] ms[m]).0 != ms[k].0,
    ensures
        obj_get(ms, ms[k].0) == Some(ms[k].1),
    decreases k,
{
    if k > 0 {
        assert forall|m: int| 0 <= m < k - 1 implies (#[trigger] ms.drop_first()[m]).0 != ms
            .drop_first()[k - 1].0 by {
            assert(ms.drop_first()[m] == ms[m + 1]);
            assert(ms.drop_first()[k - 1] == ms[k]);
        }
        lemma_obj_get_at(ms.drop_first(), k - 1);
    }
}

/// Member lists whose values are all well-formed are well-formed.
pub proof fn lemma_wf_membs_all(ms: Seq<(Seq<char>, JsonV)>)
    requires
        forall|k: int| 0 <= k < ms.len() ==> wf_json((#[trigger] ms[k]).1),
    ensures
        wf_membs(ms),
    decreases ms.len(),
{
    if ms.len() > 0 {
        assert forall|k: int| 0 <= k < ms.drop_first().len() implies wf_json(
            (#[trigger] ms.drop_first()[k]).1,
        ) by {
            assert(ms.drop_first()[k] == ms[k + 1]);
        }
        lemma_wf_membs_all(ms.drop_first());
    }
}

/// Element lists whose elements are all well-formed are well-formed.
pub proof fn lemma_wf_elems_all(es: Seq<JsonV>)
    requires
        forall|k: int| 0 <= k < es.len() ==> wf_json(#[trigger] es[k]),
    ensures
        wf_elems(es),
    decreases es.len(),
{
    if es.len() > 0 {
        assert forall|k: int| 0 <= k < es.drop_first().len() implies wf_json(
            #[trigger] es.drop_first()[k],
        ) by {
            assert(es.drop_first()[k] == es[k + 1]);
        }
        lemma_wf_elems_all(es.drop_first());
    }
}

/// A bound on every member value's fuel bounds the member list's fuel.
pub proof fn lemma_need_membs_le(ms: Seq<(Seq<char>, JsonV)>, b: nat)
    requires
        b >= 1,
        forall|k: int| 0 <= k < ms.len() ==> need_val((#[trigger] ms[k]).1) + 1 <= b,
    ensures
        need_membs(ms) <= b,
    decreases ms.len(),
{
    if ms.len() > 0 {
        assert forall|k: int| 0 <= k < ms.drop_first().len() implies need_val(
            (#[trigger] ms.drop_first()[k]).1,
        ) + 1 <= b by {
            assert(ms.drop_first()[k] == ms[k + 1]);
        }
        lemma_need_membs_le(ms.drop_first(), b);
    }
}

/// A bound on every element's fuel bounds the element list's fuel.
pub proof fn lemma_need_elems_le(es: Seq<JsonV>, b: nat)
    requires
        b >= 1,
        forall|k: int| 0 <= k < es.len() ==> need_val(#[trigger] es[k]) + 1 <= b,
    ensures
        need_elems(es) <= b,
    decreases es.len(),
{
    if es.len() > 0 {
        assert forall|k: int| 0 <= k < es.drop_first().len() implies need_val(
            #[trigger] es.drop_first()[k],
        ) + 1 <= b by {
            assert(es.drop_first()[k] == es[k + 1]);
        }
        lemma_need_elems_le(es.drop_first(), b);
    }
}

/// The decimal spelling of `n` is a plain decimal lexeme.
pub proof fn lemma_dec_seq_wf(n: nat)
    ensures
        is_dec_lexeme(crate::text::dec_seq(n)),
        crate::text::dec_seq(n).len() >= 1,
        n > 0 ==> crate::text::dec_seq(n)[0] != '0',
    decreases n,
{
    assert(crate::text::digit_char_spec(n % 10) as u32 == (n % 10) + 48);
    if n < 10 {
        assert(n % 10 == n);
        let lex = seq![crate::text::digit_char_spec(n)];
        assert(crate::text::dec_seq(n) =~= lex);
        assert(is_digit_char(lex[0]));
        assert(lex[0] == '0' ==> n == 0);
        assert(all_digits(lex)) by {
            assert forall|k: int| 0 <= k < lex.len() implies is_digit_char(#[trigger] lex[k]) by {
                assert(lex[k] == lex[0]);
            }
        }
    } else {
        lemma_dec_seq_wf(n / 10);
        let pre = crate::text::dec_seq(n / 10);
        let whole = pre.push(crate::text::digit_char_spec(n % 10));
        assert(whole[0] == pre[0]);
        assert(pre[0] != '0');
        assert forall|k: int| 0 <= k < whole.len() implies is_digit_char(#[trigger] whole[k]) by {
            if k < pre.len() {
                assert(whole[k] == pre[k]);
            } else {
                assert(whole[k] == crate::text::digit_char_spec(n % 10));
            }
        }
    }
}

/// The decimal spelling of `n` reads back as the number `n`.
pub proof fn lemma_dec_seq_val(n: nat)
    ensures
        dec_val(crate::text::dec_seq(n)) == n,
    decreases n,
{
    assert(crate::text::digit_char_spec(n % 10) as u32 == (n % 10) + 48);
    assert(dec_val(Seq::<char>::empty()) == 0);
    if n < 10 {
        assert(n % 10 == n);
        let lex = seq![crate::text::digit_char_spec(n)];
        assert(crate::text::dec_seq(n) =~= lex);
        assert(lex.drop_last() =~= Seq::<char>::empty());
        assert(lex.last() == crate::text::digit_char_spec(n));
        assert(dec_val(lex) == dec_val(Seq::<char>::empty()) * 10 + ((lex.last() as u32
            - 48) as nat));
    } else {
        lemma_dec_seq_val(n / 10);
        let pre = crate::text::dec_seq(n / 10);
        let whole = pre.push(crate::text::digit_char_spec(n % 10));
        assert(whole.drop_last() =~= pre);
        assert(whole.last() == crate::text::digit_char_spec(n % 10));
        assert(dec_val(whole) == dec_val(pre) * 10 + ((whole.last() as u32 - 48) as nat));
        vstd::arithmetic::div_mod::lemma_fundamental_div_mod(n as int, 10);
    }
}

/// The decimal spelling of a `u64` is read back as exactly that number.
pub proof fn lemma_num_as_u64_dec(n: u64)
    ensures
        num_as_u64(crate::text::dec_seq(n as nat)) == Some(n),
{
    lemma_dec_seq_wf(n as nat);
    lemma_dec_seq_val(n as nat);
}

} // verus!
