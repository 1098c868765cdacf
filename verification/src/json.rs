//! A verified parser for the JSON documents that carry the wire protocol.
//!
//! The grammar is specified by pure recursive functions over a sequence of
//! characters (`spec_parse_value` and its helpers), and the executable
//! parser is proved to return exactly what the specification says, for
//! every input.  Nesting depth is bounded, as is customary for network
//! input, so a hostile document cannot exhaust the stack.  Numbers are
//! JSON numbers: an integer that fits 64 signed bits carries its value,
//! one beyond that range is rejected, and a number with a fraction or an
//! exponent is kept as an opaque non-integer token, which the envelope
//! layer rejects wherever an integer field is expected.

use vstd::prelude::*;
use vstd::utf8::{char_u32_cast, is_scalar};

verus! {

/// The greatest nesting depth (of arrays and objects) the parser accepts.
pub const MAX_DEPTH: u32 = 128;

/// A parsed JSON document, in executable form.  Strings are kept as their
/// character sequences; objects keep their members in document order.
pub enum JsonValue {
    Null,
    Bool(bool),
    Int(i64),
    NonInt,
    Str(Vec<char>),
    Arr(Vec<JsonValue>),
    Obj(Vec<(Vec<char>, JsonValue)>),
}

/// The mathematical form of a parsed document, used in specifications.
pub enum JsonModel {
    Null,
    Bool(bool),
    Int(i64),
    NonInt,
    Str(Seq<char>),
    Arr(Seq<JsonModel>),
    Obj(Seq<(Seq<char>, JsonModel)>),
}

/// The mathematical form of an executable JSON value.
pub open spec fn model_of(v: JsonValue) -> JsonModel
    decreases v,
    via model_of_decreases
{
    match v {
        JsonValue::Null => JsonModel::Null,
        JsonValue::Bool(b) => JsonModel::Bool(b),
        JsonValue::Int(n) => JsonModel::Int(n),
        JsonValue::NonInt => JsonModel::NonInt,
        JsonValue::Str(cs) => JsonModel::Str(cs@),
        JsonValue::Arr(xs) => JsonModel::Arr(seq_models(xs@)),
        JsonValue::Obj(ms) => JsonModel::Obj(seq_member_models(ms@)),
    }
}

#[via_fn]
proof fn model_of_decreases(v: JsonValue) {
    match v {
        JsonValue::Arr(xs) => {
            assert(decreases_to!(v => xs));
            assert(decreases_to!(xs => xs@));
        },
        JsonValue::Obj(ms) => {
            assert(decreases_to!(v => ms));
            assert(decreases_to!(ms => ms@));
        },
        _ => {},
    }
}

/// The models of a sequence of values, elementwise.
pub open spec fn seq_models(xs: Seq<JsonValue>) -> Seq<JsonModel>
    decreases xs,
    via seq_models_decreases
{
    if xs.len() == 0 {
        Seq::empty()
    } else {
        seq![model_of(xs[0])] + seq_models(xs.drop_first())
    }
}

#[via_fn]
proof fn seq_models_decreases(xs: Seq<JsonValue>) {
    broadcast use vstd::seq::axiom_seq_subrange_decreases;

    if xs.len() != 0 {
        assert(decreases_to!(xs => xs[0]));
        assert(xs.drop_first() == xs.subrange(1, xs.len() as int));
        assert(xs.subrange(1, xs.len() as int).len() < xs.len());
    }
}

/// The models of a sequence of members, elementwise.
pub open spec fn seq_member_models(ms: Seq<(Vec<char>, JsonValue)>) -> Seq<(Seq<char>, JsonModel)>
    decreases ms,
    via seq_member_models_decreases
{
    if ms.len() == 0 {
        Seq::empty()
    } else {
        seq![(ms[0].0@, model_of(ms[0].1))] + seq_member_models(ms.drop_first())
    }
}

#[via_fn]
proof fn seq_member_models_decreases(ms: Seq<(Vec<char>, JsonValue)>) {
    broadcast use vstd::seq::axiom_seq_subrange_decreases;

    if ms.len() != 0 {
        assert(decreases_to!(ms => ms[0]));
        assert(decreases_to!(ms[0] => ms[0].1));
        assert(ms.drop_first() == ms.subrange(1, ms.len() as int));
        assert(ms.subrange(1, ms.len() as int).len() < ms.len());
    }
}

// ---------------------------------------------------------------------------
// Character classes
// ---------------------------------------------------------------------------

/// JSON whitespace.
pub open spec fn is_ws(c: char) -> bool {
    c == ' ' || c == '\t' || c == '\n' || c == '\r'
}

/// A decimal digit.
pub open spec fn is_digit(c: char) -> bool {
    ('0' as u32) <= (c as u32) && (c as u32) <= ('9' as u32)
}

/// The value of a decimal digit.
pub open spec fn digit_val(c: char) -> int {
    (c as u32) as int - ('0' as u32) as int
}

/// A hexadecimal digit.
pub open spec fn is_hex(c: char) -> bool {
    ||| is_digit(c)
    ||| ('a' as u32) <= (c as u32) && (c as u32) <= ('f' as u32)
    ||| ('A' as u32) <= (c as u32) && (c as u32) <= ('F' as u32)
}

/// The value of a hexadecimal digit.
pub open spec fn hex_val(c: char) -> int {
    if is_digit(c) {
        digit_val(c)
    } else if ('a' as u32) <= (c as u32) && (c as u32) <= ('f' as u32) {
        (c as u32) as int - ('a' as u32) as int + 10
    } else {
        (c as u32) as int - ('A' as u32) as int + 10
    }
}

/// What a single-character escape after a backslash stands for.
pub open spec fn esc_char(c: char) -> Option<char> {
    if c == '"' {
        Some('"')
    } else if c == '\\' {
        Some('\\')
    } else if c == '/' {
        Some('/')
    } else if c == 'b' {
        Some('\u{0008}')
    } else if c == 'f' {
        Some('\u{000C}')
    } else if c == 'n' {
        Some('\n')
    } else if c == 'r' {
        Some('\r')
    } else if c == 't' {
        Some('\t')
    } else {
        None
    }
}

/// Four hexadecimal digits at `i`; callers have checked `i + 4 <= s.len()`.
pub open spec fn is_hex4(s: Seq<char>, i: int) -> bool {
    is_hex(s[i]) && is_hex(s[i + 1]) && is_hex(s[i + 2]) && is_hex(s[i + 3])
}

/// The value of the four hexadecimal digits at `i`.
pub open spec fn hex4_val(s: Seq<char>, i: int) -> int {
    hex_val(s[i]) * 0x1000 + hex_val(s[i + 1]) * 0x100 + hex_val(s[i + 2]) * 0x10 + hex_val(
        s[i + 3],
    )
}

// ---------------------------------------------------------------------------
// Whitespace and numbers
// ---------------------------------------------------------------------------

/// The first position at or after `i` that does not hold whitespace.
pub open spec fn skip_ws(s: Seq<char>, i: int) -> int
    decreases s.len() - i when 0 <= i <= s.len()
{
    if i < s.len() && is_ws(s[i]) {
        skip_ws(s, i + 1)
    } else {
        i
    }
}

/// The first position at or after `i` that does not hold a digit.
pub open spec fn scan_digits(s: Seq<char>, i: int) -> int
    decreases s.len() - i when 0 <= i <= s.len()
{
    if i < s.len() && is_digit(s[i]) {
        scan_digits(s, i + 1)
    } else {
        i
    }
}

/// The number written by the digits in `s[i..j)`.
pub open spec fn digits_value(s: Seq<char>, i: int, j: int) -> int
    decreases j - i when i <= j
{
    if i < j {
        digits_value(s, i, j - 1) * 10 + digit_val(s[j - 1])
    } else {
        0
    }
}

/// The end of an optional fraction part starting at `i`; `None` when a
/// decimal point is not followed by a digit.
pub open spec fn frac_end(s: Seq<char>, i: int) -> Option<int> {
    if i < s.len() && s[i] == '.' {
        if i + 1 < s.len() && is_digit(s[i + 1]) {
            Some(scan_digits(s, i + 1))
        } else {
            None
        }
    } else {
        Some(i)
    }
}

/// The end of an optional exponent part starting at `i`; `None` when an
/// exponent marker is not followed by digits.
pub open spec fn exp_end(s: Seq<char>, i: int) -> Option<int> {
    if i < s.len() && (s[i] == 'e' || s[i] == 'E') {
        let j = if i + 1 < s.len() && (s[i + 1] == '+' || s[i + 1] == '-') {
            i + 2
        } else {
            i + 1
        };
        if j < s.len() && is_digit(s[j]) {
            Some(scan_digits(s, j))
        } else {
            None
        }
    } else {
        Some(i)
    }
}

/// A JSON number starting at `i` (which holds `-` or a digit).  A number
/// without fraction and exponent is an integer and must fit `i64`; any
/// other number parses to the opaque `NonInt`.
pub open spec fn spec_parse_number(s: Seq<char>, i: int) -> Option<(JsonModel, int)> {
    let (neg, i1): (bool, int) = if i < s.len() && s[i] == '-' {
        (true, i + 1)
    } else {
        (false, i)
    };
    if i1 < s.len() && is_digit(s[i1]) {
        let int_end = if s[i1] == '0' {
            i1 + 1
        } else {
            scan_digits(s, i1)
        };
        match frac_end(s, int_end) {
            Option::None => Option::None,
            Option::Some(e1) => match exp_end(s, e1) {
                Option::None => Option::None,
                Option::Some(e2) => {
                    if e2 == int_end {
                        let m = digits_value(s, i1, int_end);
                        let v: int = if neg {
                            -m
                        } else {
                            m
                        };
                        if i64::MIN <= v <= i64::MAX {
                            Option::Some((JsonModel::Int(v as i64), int_end))
                        } else {
                            Option::None
                        }
                    } else {
                        Option::Some((JsonModel::NonInt, e2))
                    }
                },
            },
        }
    } else {
        Option::None
    }
}

// ---------------------------------------------------------------------------
// Strings
// ---------------------------------------------------------------------------

/// The contents of a JSON string from position `i` (just after the opening
/// quote) to its closing quote: characters and escapes, with `\u` escapes
/// decoding surrogate pairs; unescaped control characters, lone
/// surrogates, bad escapes and an unterminated string all fail.
pub open spec fn spec_str_chars(s: Seq<char>, i: int) -> Option<(Seq<char>, int)>
    decreases s.len() - i when 0 <= i <= s.len()
{
    if i >= s.len() {
        Option::None
    } else if s[i] == '"' {
        Option::Some((Seq::empty(), i + 1))
    } else if s[i] == '\\' {
        if i + 1 >= s.len() {
            Option::None
        } else if s[i + 1] == 'u' {
            if i + 6 <= s.len() && is_hex4(s, i + 2) {
                let c1 = hex4_val(s, i + 2);
                if 0xD800 <= c1 < 0xDC00 {
                    if i + 12 <= s.len() && s[i + 6] == '\\' && s[i + 7] == 'u' && is_hex4(
                        s,
                        i + 8,
                    ) {
                        let c2 = hex4_val(s, i + 8);
                        if 0xDC00 <= c2 < 0xE000 {
                            let code = 0x10000 + (c1 - 0xD800) * 0x400 + (c2 - 0xDC00);
                            match spec_str_chars(s, i + 12) {
                                Option::Some((rest, j)) => Option::Some(
                                    (seq![(code as u32) as char] + rest, j),
                                ),
                                Option::None => Option::None,
                            }
                        } else {
                            Option::None
                        }
                    } else {
                        Option::None
                    }
                } else if 0xDC00 <= c1 < 0xE000 {
                    Option::None
                } else {
                    match spec_str_chars(s, i + 6) {
                        Option::Some((rest, j)) => Option::Some(
                            (seq![(c1 as u32) as char] + rest, j),
                        ),
                        Option::None => Option::None,
                    }
                }
            } else {
                Option::None
            }
        } else {
            match esc_char(s[i + 1]) {
                Option::Some(c) => match spec_str_chars(s, i + 2) {
                    Option::Some((rest, j)) => Option::Some((seq![c] + rest, j)),
                    Option::None => Option::None,
                },
                Option::None => Option::None,
            }
        }
    } else if (s[i] as u32) < 0x20 {
        Option::None
    } else {
        match spec_str_chars(s, i + 1) {
            Option::Some((rest, j)) => Option::Some((seq![s[i]] + rest, j)),
            Option::None => Option::None,
        }
    }
}

// ---------------------------------------------------------------------------
// Values, arrays and objects
// ---------------------------------------------------------------------------
//
// The five functions below are mutually recursive.  The measure is
// lexicographic: the nesting budget `d`, then the characters left, then a
// rank that orders the functions called at one position.  Positions
// returned by nested parses are checked against the current position
// before the recursion continues; the checks always pass (a parse
// consumes at least one character) and give the termination argument its
// footing.

/// A JSON value at `i`, after any leading whitespace.  `d` is the nesting
/// budget left for arrays and objects.
pub open spec fn spec_parse_value(s: Seq<char>, i: int, d: nat) -> Option<(JsonModel, int)>
    decreases d, s.len() - i, 1int when 0 <= i <= s.len()
{
    if i >= s.len() {
        Option::None
    } else if is_ws(s[i]) {
        spec_parse_value(s, i + 1, d)
    } else if s[i] == 'n' {
        if i + 4 <= s.len() && s[i + 1] == 'u' && s[i + 2] == 'l' && s[i + 3] == 'l' {
            Option::Some((JsonModel::Null, i + 4))
        } else {
            Option::None
        }
    } else if s[i] == 't' {
        if i + 4 <= s.len() && s[i + 1] == 'r' && s[i + 2] == 'u' && s[i + 3] == 'e' {
            Option::Some((JsonModel::Bool(true), i + 4))
        } else {
            Option::None
        }
    } else if s[i] == 'f' {
        if i + 5 <= s.len() && s[i + 1] == 'a' && s[i + 2] == 'l' && s[i + 3] == 's' && s[i + 4]
            == 'e' {
            Option::Some((JsonModel::Bool(false), i + 5))
        } else {
            Option::None
        }
    } else if s[i] == '"' {
        match spec_str_chars(s, i + 1) {
            Option::Some((cs, j)) => Option::Some((JsonModel::Str(cs), j)),
            Option::None => Option::None,
        }
    } else if s[i] == '-' || is_digit(s[i]) {
        spec_parse_number(s, i)
    } else if s[i] == '[' {
        if d > 0 {
            match spec_arr_items(s, i + 1, (d - 1) as nat, true) {
                Option::Some((xs, j)) => Option::Some((JsonModel::Arr(xs), j)),
                Option::None => Option::None,
            }
        } else {
            Option::None
        }
    } else if s[i] == '{' {
        if d > 0 {
            match spec_obj_items(s, i + 1, (d - 1) as nat, true) {
                Option::Some((ms, j)) => Option::Some((JsonModel::Obj(ms), j)),
                Option::None => Option::None,
            }
        } else {
            Option::None
        }
    } else {
        Option::None
    }
}

/// The elements of an array from `i` (just after `[` or a comma).  A
/// closing bracket is accepted here only directly after `[`.
pub open spec fn spec_arr_items(s: Seq<char>, i: int, d: nat, first: bool) -> Option<
    (Seq<JsonModel>, int),
>
    decreases d, s.len() - i, 2int when 0 <= i <= s.len()
{
    if i >= s.len() {
        Option::None
    } else if is_ws(s[i]) {
        spec_arr_items(s, i + 1, d, first)
    } else if s[i] == ']' && first {
        Option::Some((Seq::empty(), i + 1))
    } else {
        match spec_parse_value(s, i, d) {
            Option::Some((v, j)) => {
                if i < j <= s.len() {
                    match spec_arr_tail(s, j, d) {
                        Option::Some((rest, e)) => Option::Some((seq![v] + rest, e)),
                        Option::None => Option::None,
                    }
                } else {
                    Option::None
                }
            },
            Option::None => Option::None,
        }
    }
}

/// After an array element: either a comma and further elements, or the
/// closing bracket.
pub open spec fn spec_arr_tail(s: Seq<char>, i: int, d: nat) -> Option<(Seq<JsonModel>, int)>
    decreases d, s.len() - i, 0int when 0 <= i <= s.len()
{
    if i >= s.len() {
        Option::None
    } else if is_ws(s[i]) {
        spec_arr_tail(s, i + 1, d)
    } else if s[i] == ']' {
        Option::Some((Seq::empty(), i + 1))
    } else if s[i] == ',' {
        spec_arr_items(s, i + 1, d, false)
    } else {
        Option::None
    }
}

/// The members of an object from `i` (just after `{` or a comma).  A
/// closing brace is accepted here only directly after `{`.
pub open spec fn spec_obj_items(s: Seq<char>, i: int, d: nat, first: bool) -> Option<
    (Seq<(Seq<char>, JsonModel)>, int),
>
    decreases d, s.len() - i, 2int when 0 <= i <= s.len()
{
    if i >= s.len() {
        Option::None
    } else if is_ws(s[i]) {
        spec_obj_items(s, i + 1, d, first)
    } else if s[i] == '}' && first {
        Option::Some((Seq::empty(), i + 1))
    } else if s[i] == '"' {
        match spec_str_chars(s, i + 1) {
            Option::Some((key, j)) => {
                if i < j <= s.len() {
                    spec_obj_colon(s, j, key, d)
                } else {
                    Option::None
                }
            },
            Option::None => Option::None,
        }
    } else {
        Option::None
    }
}

/// After an object key: the colon, the member's value, and the rest of
/// the members.
pub open spec fn spec_obj_colon(s: Seq<char>, i: int, key: Seq<char>, d: nat) -> Option<
    (Seq<(Seq<char>, JsonModel)>, int),
>
    decreases d, s.len() - i, 0int when 0 <= i <= s.len()
{
    if i >= s.len() {
        Option::None
    } else if is_ws(s[i]) {
        spec_obj_colon(s, i + 1, key, d)
    } else if s[i] == ':' {
        match spec_parse_value(s, i + 1, d) {
            Option::Some((v, j)) => {
                if i < j <= s.len() {
                    match spec_obj_tail(s, j, d) {
                        Option::Some((rest, e)) => Option::Some((seq![(key, v)] + rest, e)),
                        Option::None => Option::None,
                    }
                } else {
                    Option::None
                }
            },
            Option::None => Option::None,
        }
    } else {
        Option::None
    }
}

/// After an object member: either a comma and further members, or the
/// closing brace.
pub open spec fn spec_obj_tail(s: Seq<char>, i: int, d: nat) -> Option<
    (Seq<(Seq<char>, JsonModel)>, int),
>
    decreases d, s.len() - i, 0int when 0 <= i <= s.len()
{
    if i >= s.len() {
        Option::None
    } else if is_ws(s[i]) {
        spec_obj_tail(s, i + 1, d)
    } else if s[i] == '}' {
        Option::Some((Seq::empty(), i + 1))
    } else if s[i] == ',' {
        spec_obj_items(s, i + 1, d, false)
    } else {
        Option::None
    }
}

// ---------------------------------------------------------------------------
// Model lemmas
// ---------------------------------------------------------------------------

/// Taking models commutes with appending one value.
proof fn lemma_seq_models_push(xs: Seq<JsonValue>, v: JsonValue)
    ensures
        seq_models(xs.push(v)) == seq_models(xs) + seq![model_of(v)],
    decreases xs.len(),
{
    if xs.len() == 0 {
        assert(xs.push(v) =~= seq![v]);
        assert(seq![v].drop_first() =~= Seq::<JsonValue>::empty());
        assert(seq_models(Seq::<JsonValue>::empty()) =~= Seq::<JsonModel>::empty());
        assert(seq_models(xs) + seq![model_of(v)] =~= seq![model_of(v)]);
        assert(seq![v][0] == v);
        assert(seq_models(seq![v]) == seq![model_of(v)] + seq_models(Seq::<JsonValue>::empty()));
        assert(seq![model_of(v)] + Seq::<JsonModel>::empty() =~= seq![model_of(v)]);
    } else {
        assert(xs.push(v).drop_first() =~= xs.drop_first().push(v));
        lemma_seq_models_push(xs.drop_first(), v);
        assert(seq![model_of(xs[0])] + (seq_models(xs.drop_first()) + seq![model_of(v)]) =~= (
        seq![model_of(xs[0])] + seq_models(xs.drop_first())) + seq![model_of(v)]);
    }
}

/// Taking member models commutes with appending one member.
proof fn lemma_member_models_push(ms: Seq<(Vec<char>, JsonValue)>, m: (Vec<char>, JsonValue))
    ensures
        seq_member_models(ms.push(m)) == seq_member_models(ms) + seq![(m.0@, model_of(m.1))],
    decreases ms.len(),
{
    if ms.len() == 0 {
        assert(ms.push(m) =~= seq![m]);
        assert(seq![m].drop_first() =~= Seq::<(Vec<char>, JsonValue)>::empty());
        assert(seq_member_models(Seq::<(Vec<char>, JsonValue)>::empty()) =~= Seq::<(
            Seq<char>,
            JsonModel,
        )>::empty());
        assert(seq_member_models(ms) + seq![(m.0@, model_of(m.1))] =~= seq![(m.0@, model_of(m.1))]);
        assert(seq![m][0] == m);
        assert(seq_member_models(seq![m]) == seq![(m.0@, model_of(m.1))] + seq_member_models(
            Seq::<(Vec<char>, JsonValue)>::empty(),
        ));
        assert(seq![(m.0@, model_of(m.1))] + Seq::<(Seq<char>, JsonModel)>::empty() =~= seq![
            (m.0@, model_of(m.1)),
        ]);
    } else {
        assert(ms.push(m).drop_first() =~= ms.drop_first().push(m));
        lemma_member_models_push(ms.drop_first(), m);
        assert(seq![(ms[0].0@, model_of(ms[0].1))] + (seq_member_models(ms.drop_first()) + seq![
            (m.0@, model_of(m.1)),
        ]) =~= (seq![(ms[0].0@, model_of(ms[0].1))] + seq_member_models(ms.drop_first())) + seq![
            (m.0@, model_of(m.1)),
        ]);
    }
}

/// The digits of a digit run never write a negative number.
proof fn lemma_digits_nonneg(s: Seq<char>, i: int, j: int)
    requires
        i <= j,
        forall|k: int| i <= k < j ==> is_digit(s[k]),
    ensures
        digits_value(s, i, j) >= 0,
    decreases j - i,
{
    if i < j {
        lemma_digits_nonneg(s, i, j - 1);
    }
}

/// A whole document: one value, surrounded by whitespace, spanning the
/// entire input.
pub open spec fn spec_parse_json(s: Seq<char>) -> Option<JsonModel> {
    match spec_parse_value(s, 0, MAX_DEPTH as nat) {
        Option::Some((v, j)) => {
            if 0 <= j <= s.len() && skip_ws(s, j) == s.len() {
                Option::Some(v)
            } else {
                Option::None
            }
        },
        Option::None => Option::None,
    }
}

// ---------------------------------------------------------------------------
// The executable parser
// ---------------------------------------------------------------------------

/// Whether `c` is JSON whitespace.
fn ws_char(c: char) -> (r: bool)
    ensures
        r == is_ws(c),
{
    c == ' ' || c == '\t' || c == '\n' || c == '\r'
}

/// Whether `c` is a decimal digit.
fn digit_char(c: char) -> (r: bool)
    ensures
        r == is_digit(c),
{
    let u = c as u32;
    48 <= u && u <= 57
}

/// The value of a hexadecimal digit, if `c` is one.
fn hex_digit(c: char) -> (r: Option<u32>)
    ensures
        r is Some <==> is_hex(c),
        r matches Some(v) ==> v == hex_val(c) && v < 16,
{
    let u = c as u32;
    if 48 <= u && u <= 57 {
        Some(u - 48)
    } else if 97 <= u && u <= 102 {
        Some(u - 87)
    } else if 65 <= u && u <= 70 {
        Some(u - 55)
    } else {
        None
    }
}

/// The value of the four hexadecimal digits at `i`, if they are ones.
fn read_hex4(s: &Vec<char>, i: usize) -> (r: Option<u32>)
    requires
        i + 4 <= s@.len(),
    ensures
        r is Some <==> is_hex4(s@, i as int),
        r matches Some(v) ==> v == hex4_val(s@, i as int) && v < 0x10000,
{
    let n = s.len();
    let d0 = match hex_digit(s[i]) {
        Some(v) => v,
        None => {
            return None;
        },
    };
    let d1 = match hex_digit(s[i + 1]) {
        Some(v) => v,
        None => {
            return None;
        },
    };
    let d2 = match hex_digit(s[i + 2]) {
        Some(v) => v,
        None => {
            return None;
        },
    };
    let d3 = match hex_digit(s[i + 3]) {
        Some(v) => v,
        None => {
            return None;
        },
    };
    Some(d0 * 0x1000 + d1 * 0x100 + d2 * 0x10 + d3)
}

/// What a single-character escape stands for, if anything.
fn unescape(c: char) -> (r: Option<char>)
    ensures
        r == esc_char(c),
{
    match c {
        '"' => Some('"'),
        '\\' => Some('\\'),
        '/' => Some('/'),
        'b' => Some('\u{0008}'),
        'f' => Some('\u{000C}'),
        'n' => Some('\n'),
        'r' => Some('\r'),
        't' => Some('\t'),
        _ => None,
    }
}

/// Turns a Unicode scalar value into the character it denotes.
///
/// Relies on `char::from_u32`, which its documentation says returns `None`
/// exactly for surrogate values and values above the greatest code point —
/// the values `requires` rules out.
#[verifier::external_body]
fn scalar_to_char(x: u32) -> (r: char)
    requires
        is_scalar(x),
    ensures
        r as u32 == x,
{
    char::from_u32(x).unwrap()
}

/// The contents of a JSON string, read from just after the opening quote.
fn parse_string_body(s: &Vec<char>, i: usize) -> (r: Option<(Vec<char>, usize)>)
    requires
        i <= s@.len(),
    ensures
        (match r {
            Option::Some((cs, j)) => spec_str_chars(s@, i as int) == Option::Some(
                (cs@, j as int),
            ) && i < j <= s@.len(),
            Option::None => spec_str_chars(s@, i as int) is None,
        }),
{
    let n = s.len();
    let mut out: Vec<char> = Vec::new();
    let mut cur: usize = i;
    loop
        invariant
            i <= cur <= n,
            n == s@.len(),
            (match spec_str_chars(s@, cur as int) {
                Option::Some((rest, e)) => spec_str_chars(s@, i as int) == Option::Some(
                    (out@ + rest, e),
                ),
                Option::None => spec_str_chars(s@, i as int) is None,
            }),
        decreases n - cur,
    {
        if cur >= n {
            return None;
        }
        let c = s[cur];
        if c == '"' {
            proof {
                assert(out@ + Seq::<char>::empty() =~= out@);
            }
            return Some((out, cur + 1));
        } else if c == '\\' {
            if cur + 1 >= n {
                return None;
            }
            let e = s[cur + 1];
            if e == 'u' {
                if n - cur < 6 {
                    return None;
                }
                let c1 = match read_hex4(s, cur + 2) {
                    Some(v) => v,
                    None => {
                        return None;
                    },
                };
                if 0xD800 <= c1 && c1 < 0xDC00 {
                    if n - cur < 12 || s[cur + 6] != '\\' || s[cur + 7] != 'u' {
                        return None;
                    }
                    let c2 = match read_hex4(s, cur + 8) {
                        Some(v) => v,
                        None => {
                            return None;
                        },
                    };
                    if !(0xDC00 <= c2 && c2 < 0xE000) {
                        return None;
                    }
                    let code: u32 = 0x10000 + (c1 - 0xD800) * 0x400 + (c2 - 0xDC00);
                    assert(is_scalar(code));
                    let ch = scalar_to_char(code);
                    proof {
                        char_u32_cast(ch, code);
                        let ghost old_out = out@;
                        assert(match spec_str_chars(s@, cur + 12) {
                            Option::Some((rest2, e2)) => old_out + (seq![ch] + rest2) =~= (old_out
                                + seq![ch]) + rest2,
                            Option::None => true,
                        });
                    }
                    out.push(ch);
                    cur = cur + 12;
                } else if 0xDC00 <= c1 && c1 < 0xE000 {
                    return None;
                } else {
                    assert(is_scalar(c1));
                    let ch = scalar_to_char(c1);
                    proof {
                        char_u32_cast(ch, c1);
                        let ghost old_out = out@;
                        assert(match spec_str_chars(s@, cur + 6) {
                            Option::Some((rest2, e2)) => old_out + (seq![ch] + rest2) =~= (old_out
                                + seq![ch]) + rest2,
                            Option::None => true,
                        });
                    }
                    out.push(ch);
                    cur = cur + 6;
                }
            } else {
                let ch = match unescape(e) {
                    Some(v) => v,
                    None => {
                        return None;
                    },
                };
                proof {
                    let ghost old_out = out@;
                    assert(match spec_str_chars(s@, cur + 2) {
                        Option::Some((rest2, e2)) => old_out + (seq![ch] + rest2) =~= (old_out
                            + seq![ch]) + rest2,
                        Option::None => true,
                    });
                }
                out.push(ch);
                cur = cur + 2;
            }
        } else if (c as u32) < 0x20 {
            return None;
        } else {
            proof {
                let ghost old_out = out@;
                assert(match spec_str_chars(s@, cur + 1) {
                    Option::Some((rest2, e2)) => old_out + (seq![c] + rest2) =~= (old_out
                        + seq![c]) + rest2,
                    Option::None => true,
                });
            }
            out.push(c);
            cur = cur + 1;
        }
    }
}

/// A JSON number, read from `i`, which holds `-` or a digit.
fn parse_number(s: &Vec<char>, i: usize) -> (r: Option<(JsonValue, usize)>)
    requires
        i < s@.len(),
    ensures
        (match r {
            Option::Some((v, j)) => spec_parse_number(s@, i as int) == Option::Some(
                (model_of(v), j as int),
            ) && i < j <= s@.len(),
            Option::None => spec_parse_number(s@, i as int) is None,
        }),
{
    let n = s.len();
    let neg = s[i] == '-';
    let i1: usize = if neg {
        i + 1
    } else {
        i
    };
    if i1 >= n || !digit_char(s[i1]) {
        return None;
    }
    // Scan the integer part, accumulating its value while it stays small
    // enough to matter.
    let mut int_end: usize = i1;
    let mut acc: u128 = 0;
    let mut overflow = false;
    if s[i1] == '0' {
        int_end = i1 + 1;
        proof {
            assert(digits_value(s@, i1 as int, i1 as int) == 0);
            assert(digits_value(s@, i1 as int, i1 + 1) == digit_val(s@[i1 as int]));
        }
        acc = 0;
    } else {
        while int_end < n && digit_char(s[int_end])
            invariant
                i1 <= int_end <= n,
                n == s@.len(),
                i1 < s@.len(),
                is_digit(s@[i1 as int]),
                forall|k: int| i1 <= k < int_end ==> is_digit(s@[k]),
                scan_digits(s@, i1 as int) == scan_digits(s@, int_end as int),
                !overflow ==> acc == digits_value(s@, i1 as int, int_end as int) && acc
                    <= 0x8000_0000_0000_0000u128,
                overflow ==> digits_value(s@, i1 as int, int_end as int)
                    > 0x8000_0000_0000_0000u128,
            decreases n - int_end,
        {
            let d: u32 = (s[int_end] as u32) - 48;
            proof {
                assert(digits_value(s@, i1 as int, int_end + 1) == digits_value(
                    s@,
                    i1 as int,
                    int_end as int,
                ) * 10 + digit_val(s@[int_end as int]));
                lemma_digits_nonneg(s@, i1 as int, int_end as int);
            }
            if !overflow {
                let t: u128 = acc * 10 + (d as u128);
                if t > 0x8000_0000_0000_0000u128 {
                    overflow = true;
                } else {
                    acc = t;
                }
            } else {
                proof {
                    assert(digits_value(s@, i1 as int, int_end + 1) >= digits_value(
                        s@,
                        i1 as int,
                        int_end as int,
                    ));
                }
            }
            int_end = int_end + 1;
        }
        assert(scan_digits(s@, int_end as int) == int_end);
    }
    // Fraction part.
    let mut e1: usize = int_end;
    if int_end < n && s[int_end] == '.' {
        if int_end + 1 < n && digit_char(s[int_end + 1]) {
            e1 = int_end + 1;
            while e1 < n && digit_char(s[e1])
                invariant
                    int_end + 1 <= e1 <= n,
                    n == s@.len(),
                    scan_digits(s@, int_end + 1) == scan_digits(s@, e1 as int),
                decreases n - e1,
            {
                e1 = e1 + 1;
            }
            assert(scan_digits(s@, e1 as int) == e1);
            assert(frac_end(s@, int_end as int) == Option::Some(e1 as int));
        } else {
            assert(frac_end(s@, int_end as int) is None);
            return None;
        }
    } else {
        assert(frac_end(s@, int_end as int) == Option::Some(e1 as int));
    }
    // Exponent part.
    let mut e2: usize = e1;
    if e1 < n && (s[e1] == 'e' || s[e1] == 'E') {
        let j: usize = if e1 + 1 < n && (s[e1 + 1] == '+' || s[e1 + 1] == '-') {
            e1 + 2
        } else {
            e1 + 1
        };
        if j < n && digit_char(s[j]) {
            e2 = j;
            while e2 < n && digit_char(s[e2])
                invariant
                    j <= e2 <= n,
                    n == s@.len(),
                    scan_digits(s@, j as int) == scan_digits(s@, e2 as int),
                decreases n - e2,
            {
                e2 = e2 + 1;
            }
            assert(scan_digits(s@, e2 as int) == e2);
            assert(exp_end(s@, e1 as int) == Option::Some(e2 as int));
        } else {
            assert(exp_end(s@, e1 as int) is None);
            return None;
        }
    } else {
        assert(exp_end(s@, e1 as int) == Option::Some(e2 as int));
    }
    if e2 == int_end {
        // A plain integer: it must fit `i64`.
        if overflow {
            return None;
        }
        if neg {
            let v: i128 = -(acc as i128);
            assert(i64::MIN <= v <= i64::MAX);
            return Some((JsonValue::Int(v as i64), int_end));
        } else {
            if acc > 0x7fff_ffff_ffff_ffffu128 {
                return None;
            }
            return Some((JsonValue::Int(acc as i64), int_end));
        }
    } else {
        return Some((JsonValue::NonInt, e2));
    }
}

/// A JSON value, read from `i`; `d` is the nesting budget left.
pub fn parse_value(s: &Vec<char>, i: usize, d: u32) -> (r: Option<(JsonValue, usize)>)
    requires
        i <= s@.len(),
    ensures
        (match r {
            Option::Some((v, j)) => spec_parse_value(s@, i as int, d as nat) == Option::Some(
                (model_of(v), j as int),
            ) && i < j <= s@.len(),
            Option::None => spec_parse_value(s@, i as int, d as nat) is None,
        }),
    decreases d,
{
    let n = s.len();
    let mut cur: usize = i;
    while cur < n && ws_char(s[cur])
        invariant
            i <= cur <= n,
            n == s@.len(),
            spec_parse_value(s@, i as int, d as nat) == spec_parse_value(s@, cur as int, d as nat),
        decreases n - cur,
    {
        cur = cur + 1;
    }
    if cur >= n {
        return None;
    }
    let c = s[cur];
    if c == 'n' {
        if n - cur >= 4 && s[cur + 1] == 'u' && s[cur + 2] == 'l' && s[cur + 3] == 'l' {
            Some((JsonValue::Null, cur + 4))
        } else {
            None
        }
    } else if c == 't' {
        if n - cur >= 4 && s[cur + 1] == 'r' && s[cur + 2] == 'u' && s[cur + 3] == 'e' {
            Some((JsonValue::Bool(true), cur + 4))
        } else {
            None
        }
    } else if c == 'f' {
        if n - cur >= 5 && s[cur + 1] == 'a' && s[cur + 2] == 'l' && s[cur + 3] == 's' && s[cur
            + 4] == 'e' {
            Some((JsonValue::Bool(false), cur + 5))
        } else {
            None
        }
    } else if c == '"' {
        match parse_string_body(s, cur + 1) {
            Some((cs, j)) => Some((JsonValue::Str(cs), j)),
            None => None,
        }
    } else if c == '-' || digit_char(c) {
        parse_number(s, cur)
    } else if c == '[' {
        if d == 0 {
            return None;
        }
        let mut items: Vec<JsonValue> = Vec::new();
        let mut pos: usize = cur + 1;
        let mut first: bool = true;
        loop
            invariant
                cur < pos <= n,
                i <= cur < n,
                n == s@.len(),
                1 <= d,
                s@[cur as int] == '[',
                spec_parse_value(s@, i as int, d as nat) == spec_parse_value(
                    s@,
                    cur as int,
                    d as nat,
                ),
                (match spec_arr_items(s@, pos as int, (d - 1) as nat, first) {
                    Option::Some((rest, e)) => spec_arr_items(
                        s@,
                        cur + 1,
                        (d - 1) as nat,
                        true,
                    ) == Option::Some((seq_models(items@) + rest, e)),
                    Option::None => spec_arr_items(s@, cur + 1, (d - 1) as nat, true) is None,
                }),
            decreases n - pos,
        {
            if pos >= n {
                return None;
            }
            let c2 = s[pos];
            if ws_char(c2) {
                pos = pos + 1;
                continue;
            }
            if first && c2 == ']' {
                proof {
                    assert(seq_models(items@) + Seq::<JsonModel>::empty() =~= seq_models(items@));
                }
                return Some((JsonValue::Arr(items), pos + 1));
            }
            match parse_value(s, pos, d - 1) {
                None => {
                    return None;
                },
                Some((v, j2)) => {
                    let ghost old_items = items@;
                    proof {
                        lemma_seq_models_push(items@, v);
                    }
                    items.push(v);
                    let mut t: usize = j2;
                    while t < n && ws_char(s[t])
                        invariant
                            j2 <= t <= n,
                            n == s@.len(),
                            spec_arr_tail(s@, j2 as int, (d - 1) as nat) == spec_arr_tail(
                                s@,
                                t as int,
                                (d - 1) as nat,
                            ),
                        decreases n - t,
                    {
                        t = t + 1;
                    }
                    if t >= n {
                        return None;
                    }
                    let c3 = s[t];
                    if c3 == ']' {
                        proof {
                            assert(seq![model_of(v)] + Seq::<JsonModel>::empty() =~= seq![
                                model_of(v),
                            ]);
                            assert(seq_models(old_items) + seq![model_of(v)] =~= seq_models(
                                items@,
                            ));
                        }
                        return Some((JsonValue::Arr(items), t + 1));
                    } else if c3 == ',' {
                        proof {
                            assert(match spec_arr_items(s@, t + 1, (d - 1) as nat, false) {
                                Option::Some((rest2, e2)) => (seq_models(old_items) + (seq![
                                    model_of(v),
                                ] + rest2)) =~= (seq_models(items@) + rest2),
                                Option::None => true,
                            });
                        }
                        pos = t + 1;
                        first = false;
                    } else {
                        return None;
                    }
                },
            }
        }
    } else if c == '{' {
        if d == 0 {
            return None;
        }
        let mut members: Vec<(Vec<char>, JsonValue)> = Vec::new();
        let mut pos: usize = cur + 1;
        let mut first: bool = true;
        loop
            invariant
                cur < pos <= n,
                i <= cur < n,
                n == s@.len(),
                1 <= d,
                s@[cur as int] == '{',
                spec_parse_value(s@, i as int, d as nat) == spec_parse_value(
                    s@,
                    cur as int,
                    d as nat,
                ),
                (match spec_obj_items(s@, pos as int, (d - 1) as nat, first) {
                    Option::Some((rest, e)) => spec_obj_items(
                        s@,
                        cur + 1,
                        (d - 1) as nat,
                        true,
                    ) == Option::Some((seq_member_models(members@) + rest, e)),
                    Option::None => spec_obj_items(s@, cur + 1, (d - 1) as nat, true) is None,
                }),
            decreases n - pos,
        {
            if pos >= n {
                return None;
            }
            let c2 = s[pos];
            if ws_char(c2) {
                pos = pos + 1;
                continue;
            }
            if first && c2 == '}' {
                proof {
                    assert(seq_member_models(members@) + Seq::<(Seq<char>, JsonModel)>::empty()
                        =~= seq_member_models(members@));
                }
                return Some((JsonValue::Obj(members), pos + 1));
            }
            if c2 != '"' {
                return None;
            }
            match parse_string_body(s, pos + 1) {
                None => {
                    return None;
                },
                Some((key, jk)) => {
                    let ghost gkey = key@;
                    let mut t: usize = jk;
                    while t < n && ws_char(s[t])
                        invariant
                            jk <= t <= n,
                            n == s@.len(),
                            spec_obj_colon(s@, jk as int, gkey, (d - 1) as nat) == spec_obj_colon(
                                s@,
                                t as int,
                                gkey,
                                (d - 1) as nat,
                            ),
                        decreases n - t,
                    {
                        t = t + 1;
                    }
                    if t >= n {
                        return None;
                    }
                    if s[t] != ':' {
                        return None;
                    }
                    match parse_value(s, t + 1, d - 1) {
                        None => {
                            return None;
                        },
                        Some((v, j2)) => {
                            let ghost old_members = members@;
                            proof {
                                lemma_member_models_push(members@, (key, v));
                            }
                            members.push((key, v));
                            let mut u: usize = j2;
                            while u < n && ws_char(s[u])
                                invariant
                                    j2 <= u <= n,
                                    n == s@.len(),
                                    spec_obj_tail(s@, j2 as int, (d - 1) as nat) == spec_obj_tail(
                                        s@,
                                        u as int,
                                        (d - 1) as nat,
                                    ),
                                decreases n - u,
                            {
                                u = u + 1;
                            }
                            if u >= n {
                                return None;
                            }
                            let c4 = s[u];
                            if c4 == '}' {
                                proof {
                                    assert(seq![(gkey, model_of(v))] + Seq::<(
                                        Seq<char>,
                                        JsonModel,
                                    )>::empty() =~= seq![(gkey, model_of(v))]);
                                    assert(seq_member_models(old_members) + seq![
                                        (gkey, model_of(v)),
                                    ] =~= seq_member_models(members@));
                                }
                                return Some((JsonValue::Obj(members), u + 1));
                            } else if c4 == ',' {
                                proof {
                                    assert(match spec_obj_items(s@, u + 1, (d - 1) as nat, false) {
                                        Option::Some((rest2, e2)) => (seq_member_models(
                                            old_members,
                                        ) + (seq![(gkey, model_of(v))] + rest2)) =~= (
                                        seq_member_models(members@) + rest2),
                                        Option::None => true,
                                    });
                                }
                                pos = u + 1;
                                first = false;
                            } else {
                                return None;
                            }
                        },
                    }
                },
            }
        }
    } else {
        None
    }
}

/// A whole JSON document: returns its value exactly when `spec_parse_json`
/// accepts the characters.
pub fn parse_json(s: &Vec<char>) -> (r: Option<JsonValue>)
    ensures
        (match r {
            Option::Some(v) => spec_parse_json(s@) == Option::Some(model_of(v)),
            Option::None => spec_parse_json(s@) is None,
        }),
{
    match parse_value(s, 0, MAX_DEPTH) {
        None => None,
        Some((v, j)) => {
            let n = s.len();
            let mut cur: usize = j;
            while cur < n && ws_char(s[cur])
                invariant
                    j <= cur <= n,
                    n == s@.len(),
                    skip_ws(s@, j as int) == skip_ws(s@, cur as int),
                decreases n - cur,
            {
                cur = cur + 1;
            }
            assert(skip_ws(s@, cur as int) == cur);
            if cur == n {
                Some(v)
            } else {
                None
            }
        },
    }
}

} // verus!
