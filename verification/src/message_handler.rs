//! Decoding of client messages: a text frame holds a JSON envelope with an
//! `action` discriminator (`Keyboard` or `Mouse`) and the fields of the
//! request, all optional.  A malformed frame fails by itself — the
//! connection lives on — and a decoded request is turned into the action
//! the input executor should perform by `handle_command`.

use vstd::prelude::*;
use vstd::string::StrSliceExecFns;
use crate::input_types::{
    Action, Button, ClickRequest, InputRequest, InputRequestV, KeyboardRequest, KeyboardRequestV,
    Modifiers, MouseCommand, MouseRequest, MoveRequest, ScrollDirection, ScrollRequest,
    spec_default_click, spec_default_modifiers, spec_default_move, spec_default_scroll,
};
use crate::json::{
    model_of, parse_json, seq_member_models, spec_parse_json, JsonModel, JsonValue,
};

verus! {

/// Why a frame was rejected: it was not JSON, or it was JSON but not a
/// valid envelope.
#[derive(Clone, Copy, Debug, PartialEq, Eq, Structural)]
pub enum DecodeError {
    Syntax,
    Envelope,
}

// ---------------------------------------------------------------------------
// Field lookup and extraction, specified
// ---------------------------------------------------------------------------

/// The value under `key` in an object's member list; the first occurrence
/// wins, later duplicates are ignored.
pub open spec fn obj_lookup(ms: Seq<(Seq<char>, JsonModel)>, key: Seq<char>) -> Option<JsonModel>
    decreases ms.len(),
{
    if ms.len() == 0 {
        Option::None
    } else if ms[0].0 == key {
        Option::Some(ms[0].1)
    } else {
        obj_lookup(ms.drop_first(), key)
    }
}

/// A boolean field: absent means `false`, any non-boolean value is an
/// error (`None`).
pub open spec fn field_bool(ms: Seq<(Seq<char>, JsonModel)>, key: Seq<char>) -> Option<bool> {
    match obj_lookup(ms, key) {
        Option::None => Option::Some(false),
        Option::Some(JsonModel::Bool(b)) => Option::Some(b),
        Option::Some(_) => Option::None,
    }
}

/// A 32-bit integer field: absent means `0`; a non-integer or one out of
/// range is an error.
pub open spec fn field_i32(ms: Seq<(Seq<char>, JsonModel)>, key: Seq<char>) -> Option<i32> {
    match obj_lookup(ms, key) {
        Option::None => Option::Some(0),
        Option::Some(JsonModel::Int(n)) => if i32::MIN <= n <= i32::MAX {
            Option::Some(n as i32)
        } else {
            Option::None
        },
        Option::Some(_) => Option::None,
    }
}

/// A string field: absent means the empty string; a non-string is an
/// error.
pub open spec fn field_str(ms: Seq<(Seq<char>, JsonModel)>, key: Seq<char>) -> Option<Seq<char>> {
    match obj_lookup(ms, key) {
        Option::None => Option::Some(Seq::empty()),
        Option::Some(JsonModel::Str(cs)) => Option::Some(cs),
        Option::Some(_) => Option::None,
    }
}

/// Which mouse command a string names.
pub open spec fn mouse_command_of(cs: Seq<char>) -> Option<MouseCommand> {
    if cs == "Move"@ {
        Option::Some(MouseCommand::Move)
    } else if cs == "Click"@ {
        Option::Some(MouseCommand::Click)
    } else if cs == "Scroll"@ {
        Option::Some(MouseCommand::Scroll)
    } else if cs == "StopMove"@ {
        Option::Some(MouseCommand::StopMove)
    } else {
        Option::None
    }
}

/// Which button a string names.
pub open spec fn button_of(cs: Seq<char>) -> Option<Button> {
    if cs == "Left"@ {
        Option::Some(Button::Left)
    } else if cs == "Middle"@ {
        Option::Some(Button::Middle)
    } else if cs == "Right"@ {
        Option::Some(Button::Right)
    } else if cs == "Forward"@ {
        Option::Some(Button::Forward)
    } else if cs == "Back"@ {
        Option::Some(Button::Back)
    } else {
        Option::None
    }
}

/// Which click action a string names.
pub open spec fn action_of(cs: Seq<char>) -> Option<Action> {
    if cs == "Click"@ {
        Option::Some(Action::Click)
    } else if cs == "Up"@ {
        Option::Some(Action::Up)
    } else if cs == "Down"@ {
        Option::Some(Action::Down)
    } else {
        Option::None
    }
}

/// Which scroll axis a string names.
pub open spec fn scroll_direction_of(cs: Seq<char>) -> Option<ScrollDirection> {
    if cs == "X"@ {
        Option::Some(ScrollDirection::X)
    } else if cs == "Y"@ {
        Option::Some(ScrollDirection::Y)
    } else {
        Option::None
    }
}

/// The modifiers sub-object.
pub open spec fn spec_decode_modifiers(ms: Seq<(Seq<char>, JsonModel)>) -> Option<Modifiers> {
    match (field_bool(ms, "alt"@), field_bool(ms, "ctrl"@), field_bool(ms, "meta"@), field_bool(
        ms,
        "shift"@,
    )) {
        (Option::Some(alt), Option::Some(ctrl), Option::Some(meta), Option::Some(shift)) =>
            Option::Some(Modifiers { alt, ctrl, meta, shift }),
        _ => Option::None,
    }
}

/// The movement sub-object.
pub open spec fn spec_decode_move(ms: Seq<(Seq<char>, JsonModel)>) -> Option<MoveRequest> {
    match (field_i32(ms, "x"@), field_i32(ms, "y"@)) {
        (Option::Some(x), Option::Some(y)) => Option::Some(MoveRequest { x, y }),
        _ => Option::None,
    }
}

/// The click sub-object.
pub open spec fn spec_decode_click(ms: Seq<(Seq<char>, JsonModel)>) -> Option<ClickRequest> {
    let button = match obj_lookup(ms, "button"@) {
        Option::None => Option::Some(Button::Left),
        Option::Some(JsonModel::Str(cs)) => button_of(cs),
        Option::Some(_) => Option::None,
    };
    let action = match obj_lookup(ms, "action"@) {
        Option::None => Option::Some(Action::Click),
        Option::Some(JsonModel::Str(cs)) => action_of(cs),
        Option::Some(_) => Option::None,
    };
    match (button, action) {
        (Option::Some(b), Option::Some(a)) => Option::Some(ClickRequest { button: b, action: a }),
        _ => Option::None,
    }
}

/// The scroll sub-object.
pub open spec fn spec_decode_scroll(ms: Seq<(Seq<char>, JsonModel)>) -> Option<ScrollRequest> {
    let direction = match obj_lookup(ms, "direction"@) {
        Option::None => Option::Some(ScrollDirection::X),
        Option::Some(JsonModel::Str(cs)) => scroll_direction_of(cs),
        Option::Some(_) => Option::None,
    };
    match (direction, field_i32(ms, "delta"@)) {
        (Option::Some(d), Option::Some(delta)) => Option::Some(
            ScrollRequest { direction: d, delta },
        ),
        _ => Option::None,
    }
}

/// A keyboard envelope, from the members of the top-level object.
pub open spec fn spec_decode_keyboard(ms: Seq<(Seq<char>, JsonModel)>) -> Option<
    KeyboardRequestV,
> {
    let modifiers = match obj_lookup(ms, "modifiers"@) {
        Option::None => Option::Some(spec_default_modifiers()),
        Option::Some(JsonModel::Obj(sub)) => spec_decode_modifiers(sub),
        Option::Some(_) => Option::None,
    };
    match (field_str(ms, "key"@), modifiers) {
        (Option::Some(key), Option::Some(m)) => Option::Some(
            KeyboardRequestV { key, modifiers: m },
        ),
        _ => Option::None,
    }
}

/// A mouse envelope, from the members of the top-level object.
pub open spec fn spec_decode_mouse(ms: Seq<(Seq<char>, JsonModel)>) -> Option<MouseRequest> {
    let command = match obj_lookup(ms, "command"@) {
        Option::None => Option::Some(MouseCommand::Move),
        Option::Some(JsonModel::Str(cs)) => mouse_command_of(cs),
        Option::Some(_) => Option::None,
    };
    let click = match obj_lookup(ms, "click"@) {
        Option::None => Option::Some(spec_default_click()),
        Option::Some(JsonModel::Obj(sub)) => spec_decode_click(sub),
        Option::Some(_) => Option::None,
    };
    let mv = match obj_lookup(ms, "move_direction"@) {
        Option::None => Option::Some(spec_default_move()),
        Option::Some(JsonModel::Obj(sub)) => spec_decode_move(sub),
        Option::Some(_) => Option::None,
    };
    let scroll = match obj_lookup(ms, "scroll"@) {
        Option::None => Option::Some(spec_default_scroll()),
        Option::Some(JsonModel::Obj(sub)) => spec_decode_scroll(sub),
        Option::Some(_) => Option::None,
    };
    match (command, click, mv, scroll) {
        (Option::Some(c), Option::Some(k), Option::Some(m), Option::Some(s)) => Option::Some(
            MouseRequest { command: c, click: k, move_direction: m, scroll: s },
        ),
        _ => Option::None,
    }
}

/// What a whole text frame decodes to: `Syntax` when it is not a JSON
/// document, `Envelope` when the document is not an object, carries no
/// known `action` string, or has a field of the wrong shape; otherwise
/// the request, with absent fields filled by their defaults.
pub open spec fn spec_decode_input(s: Seq<char>) -> Result<InputRequestV, DecodeError> {
    match spec_parse_json(s) {
        Option::None => Result::Err(DecodeError::Syntax),
        Option::Some(JsonModel::Obj(ms)) => match obj_lookup(ms, "action"@) {
            Option::Some(JsonModel::Str(tag)) => if tag == "Keyboard"@ {
                match spec_decode_keyboard(ms) {
                    Option::Some(k) => Result::Ok(InputRequestV::Keyboard(k)),
                    Option::None => Result::Err(DecodeError::Envelope),
                }
            } else if tag == "Mouse"@ {
                match spec_decode_mouse(ms) {
                    Option::Some(m) => Result::Ok(InputRequestV::Mouse(m)),
                    Option::None => Result::Err(DecodeError::Envelope),
                }
            } else {
                Result::Err(DecodeError::Envelope)
            },
            _ => Result::Err(DecodeError::Envelope),
        },
        Option::Some(_) => Result::Err(DecodeError::Envelope),
    }
}

// ---------------------------------------------------------------------------
// Executable helpers
// ---------------------------------------------------------------------------

/// Element `k` of a member list's model is the model of element `k`.
proof fn lemma_member_models_index(ms: Seq<(Vec<char>, JsonValue)>)
    ensures
        seq_member_models(ms).len() == ms.len(),
        forall|k: int|
            0 <= k < ms.len() ==> seq_member_models(ms)[k] == (ms[k].0@, model_of(ms[k].1)),
    decreases ms.len(),
{
    if ms.len() > 0 {
        lemma_member_models_index(ms.drop_first());
        assert forall|k: int|
            0 <= k < ms.len() implies seq_member_models(ms)[k] == (
            ms[k].0@,
            model_of(ms[k].1),
        ) by {
            if k > 0 {
                assert(ms.drop_first()[k - 1] == ms[k]);
            }
        }
    }
}

/// Whether a character vector spells the same text as a string slice.
fn chars_eq_str(v: &Vec<char>, s: &str) -> (r: bool)
    ensures
        r == (v@ == s@),
{
    let n = s.unicode_len();
    if v.len() != n {
        return false;
    }
    let mut k: usize = 0;
    while k < n
        invariant
            0 <= k <= n,
            n == s@.len(),
            v@.len() == n,
            forall|j: int| 0 <= j < k ==> v@[j] == s@[j],
        decreases n - k,
    {
        if v[k] != s.get_char(k) {
            proof {
                assert(v@[k as int] != s@[k as int]);
            }
            return false;
        }
        k = k + 1;
    }
    proof {
        assert(v@ =~= s@);
    }
    true
}

/// The characters of a string slice, as a vector.
fn str_chars(s: &str) -> (r: Vec<char>)
    ensures
        r@ == s@,
{
    let n = s.unicode_len();
    let mut out: Vec<char> = Vec::new();
    let mut k: usize = 0;
    while k < n
        invariant
            0 <= k <= n,
            n == s@.len(),
            out@.len() == k,
            forall|j: int| 0 <= j < k ==> out@[j] == s@[j],
        decreases n - k,
    {
        out.push(s.get_char(k));
        k = k + 1;
    }
    proof {
        assert(out@ =~= s@);
    }
    out
}

/// Appends one character to a string.
///
/// Relies on `String::push`, which its documentation says appends the
/// given character to the end of the string.
#[verifier::external_body]
fn string_push(s: &mut String, c: char)
    ensures
        final(s)@ == old(s)@.push(c),
{
    s.push(c);
}

/// The string holding exactly the given characters.
fn chars_to_string(v: &Vec<char>) -> (r: String)
    ensures
        r@ == v@,
{
    let n = v.len();
    let mut out = String::new();
    let mut k: usize = 0;
    while k < n
        invariant
            0 <= k <= n,
            n == v@.len(),
            out@ == v@.subrange(0, k as int),
        decreases n - k,
    {
        proof {
            assert(v@.subrange(0, k as int).push(v@[k as int]) =~= v@.subrange(0, k + 1));
        }
        string_push(&mut out, v[k]);
        k = k + 1;
    }
    proof {
        assert(v@.subrange(0, n as int) =~= v@);
    }
    out
}

/// The value under `key` in an object's members, if any.
fn obj_get<'a>(ms: &'a Vec<(Vec<char>, JsonValue)>, key: &str) -> (r: Option<&'a JsonValue>)
    ensures
        (match r {
            Option::Some(v) => obj_lookup(seq_member_models(ms@), key@) == Option::Some(
                model_of(*v),
            ),
            Option::None => obj_lookup(seq_member_models(ms@), key@) is None,
        }),
{
    proof {
        lemma_member_models_index(ms@);
        assert(seq_member_models(ms@).skip(0) =~= seq_member_models(ms@));
    }
    let n = ms.len();
    let mut k: usize = 0;
    while k < n
        invariant
            0 <= k <= n,
            n == ms@.len(),
            seq_member_models(ms@).len() == ms@.len(),
            forall|j: int|
                0 <= j < ms@.len() ==> seq_member_models(ms@)[j] == (
                    ms@[j].0@,
                    model_of(ms@[j].1),
                ),
            obj_lookup(seq_member_models(ms@), key@) == obj_lookup(
                seq_member_models(ms@).skip(k as int),
                key@,
            ),
        decreases n - k,
    {
        let entry = &ms[k];
        let ghost mm = seq_member_models(ms@);
        proof {
            assert(mm.skip(k as int).len() == mm.len() - k);
            assert(mm.skip(k as int)[0] == mm[k as int]);
        }
        if chars_eq_str(&entry.0, key) {
            return Some(&entry.1);
        }
        proof {
            assert(mm.skip(k as int).drop_first() =~= mm.skip(k + 1));
        }
        k = k + 1;
    }
    proof {
        assert(seq_member_models(ms@).skip(n as int) =~= Seq::<(Seq<char>, JsonModel)>::empty());
    }
    None
}

/// A boolean field of an object, per `field_bool`.
fn field_bool_exec(ms: &Vec<(Vec<char>, JsonValue)>, key: &str) -> (r: Option<bool>)
    ensures
        r == field_bool(seq_member_models(ms@), key@),
{
    match obj_get(ms, key) {
        Option::None => Some(false),
        Option::Some(v) => match v {
            JsonValue::Bool(b) => Some(*b),
            _ => None,
        },
    }
}

/// A 32-bit integer field of an object, per `field_i32`.
fn field_i32_exec(ms: &Vec<(Vec<char>, JsonValue)>, key: &str) -> (r: Option<i32>)
    ensures
        r == field_i32(seq_member_models(ms@), key@),
{
    match obj_get(ms, key) {
        Option::None => Some(0),
        Option::Some(v) => match v {
            JsonValue::Int(n) => {
                if -0x8000_0000i64 <= *n && *n <= 0x7fff_ffffi64 {
                    Some(*n as i32)
                } else {
                    None
                }
            },
            _ => None,
        },
    }
}

/// The button a string names, per `button_of`.
fn button_from_chars(cs: &Vec<char>) -> (r: Option<Button>)
    ensures
        r == button_of(cs@),
{
    if chars_eq_str(cs, "Left") {
        Some(Button::Left)
    } else if chars_eq_str(cs, "Middle") {
        Some(Button::Middle)
    } else if chars_eq_str(cs, "Right") {
        Some(Button::Right)
    } else if chars_eq_str(cs, "Forward") {
        Some(Button::Forward)
    } else if chars_eq_str(cs, "Back") {
        Some(Button::Back)
    } else {
        None
    }
}

/// The click action a string names, per `action_of`.
fn action_from_chars(cs: &Vec<char>) -> (r: Option<Action>)
    ensures
        r == action_of(cs@),
{
    if chars_eq_str(cs, "Click") {
        Some(Action::Click)
    } else if chars_eq_str(cs, "Up") {
        Some(Action::Up)
    } else if chars_eq_str(cs, "Down") {
        Some(Action::Down)
    } else {
        None
    }
}

/// The mouse command a string names, per `mouse_command_of`.
fn mouse_command_from_chars(cs: &Vec<char>) -> (r: Option<MouseCommand>)
    ensures
        r == mouse_command_of(cs@),
{
    if chars_eq_str(cs, "Move") {
        Some(MouseCommand::Move)
    } else if chars_eq_str(cs, "Click") {
        Some(MouseCommand::Click)
    } else if chars_eq_str(cs, "Scroll") {
        Some(MouseCommand::Scroll)
    } else if chars_eq_str(cs, "StopMove") {
        Some(MouseCommand::StopMove)
    } else {
        None
    }
}

/// The scroll axis a string names, per `scroll_direction_of`.
fn scroll_direction_from_chars(cs: &Vec<char>) -> (r: Option<ScrollDirection>)
    ensures
        r == scroll_direction_of(cs@),
{
    if chars_eq_str(cs, "X") {
        Some(ScrollDirection::X)
    } else if chars_eq_str(cs, "Y") {
        Some(ScrollDirection::Y)
    } else {
        None
    }
}

/// The modifiers sub-object, per `spec_decode_modifiers`.
fn decode_modifiers(ms: &Vec<(Vec<char>, JsonValue)>) -> (r: Option<Modifiers>)
    ensures
        r == spec_decode_modifiers(seq_member_models(ms@)),
{
    let alt = match field_bool_exec(ms, "alt") {
        Some(b) => b,
        None => {
            return None;
        },
    };
    let ctrl = match field_bool_exec(ms, "ctrl") {
        Some(b) => b,
        None => {
            return None;
        },
    };
    let meta = match field_bool_exec(ms, "meta") {
        Some(b) => b,
        None => {
            return None;
        },
    };
    let shift = match field_bool_exec(ms, "shift") {
        Some(b) => b,
        None => {
            return None;
        },
    };
    Some(Modifiers { alt, ctrl, meta, shift })
}

/// The movement sub-object, per `spec_decode_move`.
fn decode_move(ms: &Vec<(Vec<char>, JsonValue)>) -> (r: Option<MoveRequest>)
    ensures
        r == spec_decode_move(seq_member_models(ms@)),
{
    let x = match field_i32_exec(ms, "x") {
        Some(v) => v,
        None => {
            return None;
        },
    };
    let y = match field_i32_exec(ms, "y") {
        Some(v) => v,
        None => {
            return None;
        },
    };
    Some(MoveRequest { x, y })
}

/// The click sub-object, per `spec_decode_click`.
fn decode_click(ms: &Vec<(Vec<char>, JsonValue)>) -> (r: Option<ClickRequest>)
    ensures
        r == spec_decode_click(seq_member_models(ms@)),
{
    let button = match obj_get(ms, "button") {
        Option::None => Button::Left,
        Option::Some(v) => match v {
            JsonValue::Str(cs) => match button_from_chars(cs) {
                Some(b) => b,
                None => {
                    return None;
                },
            },
            _ => {
                return None;
            },
        },
    };
    let action = match obj_get(ms, "action") {
        Option::None => Action::Click,
        Option::Some(v) => match v {
            JsonValue::Str(cs) => match action_from_chars(cs) {
                Some(a) => a,
                None => {
                    return None;
                },
            },
            _ => {
                return None;
            },
        },
    };
    Some(ClickRequest { button, action })
}

/// The scroll sub-object, per `spec_decode_scroll`.
fn decode_scroll(ms: &Vec<(Vec<char>, JsonValue)>) -> (r: Option<ScrollRequest>)
    ensures
        r == spec_decode_scroll(seq_member_models(ms@)),
{
    let direction = match obj_get(ms, "direction") {
        Option::None => ScrollDirection::X,
        Option::Some(v) => match v {
            JsonValue::Str(cs) => match scroll_direction_from_chars(cs) {
                Some(d) => d,
                None => {
                    return None;
                },
            },
            _ => {
                return None;
            },
        },
    };
    let delta = match field_i32_exec(ms, "delta") {
        Some(v) => v,
        None => {
            return None;
        },
    };
    Some(ScrollRequest { direction, delta })
}

/// The keyboard envelope, per `spec_decode_keyboard`.
fn decode_keyboard(ms: &Vec<(Vec<char>, JsonValue)>) -> (r: Option<KeyboardRequest>)
    ensures
        (match r {
            Option::Some(k) => spec_decode_keyboard(seq_member_models(ms@)) == Option::Some(k@),
            Option::None => spec_decode_keyboard(seq_member_models(ms@)) is None,
        }),
{
    let key: String = match obj_get(ms, "key") {
        Option::None => String::new(),
        Option::Some(v) => match v {
            JsonValue::Str(cs) => chars_to_string(cs),
            _ => {
                return None;
            },
        },
    };
    let modifiers = match obj_get(ms, "modifiers") {
        Option::None => Modifiers::default(),
        Option::Some(v) => match v {
            JsonValue::Obj(sub) => match decode_modifiers(sub) {
                Some(m) => m,
                None => {
                    return None;
                },
            },
            _ => {
                return None;
            },
        },
    };
    Some(KeyboardRequest { key, modifiers })
}

/// The mouse envelope, per `spec_decode_mouse`.
fn decode_mouse(ms: &Vec<(Vec<char>, JsonValue)>) -> (r: Option<MouseRequest>)
    ensures
        r == spec_decode_mouse(seq_member_models(ms@)),
{
    let command = match obj_get(ms, "command") {
        Option::None => MouseCommand::Move,
        Option::Some(v) => match v {
            JsonValue::Str(cs) => match mouse_command_from_chars(cs) {
                Some(c) => c,
                None => {
                    return None;
                },
            },
            _ => {
                return None;
            },
        },
    };
    let click = match obj_get(ms, "click") {
        Option::None => ClickRequest::default(),
        Option::Some(v) => match v {
            JsonValue::Obj(sub) => match decode_click(sub) {
                Some(c) => c,
                None => {
                    return None;
                },
            },
            _ => {
                return None;
            },
        },
    };
    let move_direction = match obj_get(ms, "move_direction") {
        Option::None => MoveRequest::default(),
        Option::Some(v) => match v {
            JsonValue::Obj(sub) => match decode_move(sub) {
                Some(m) => m,
                None => {
                    return None;
                },
            },
            _ => {
                return None;
            },
        },
    };
    let scroll = match obj_get(ms, "scroll") {
        Option::None => ScrollRequest::default(),
        Option::Some(v) => match v {
            JsonValue::Obj(sub) => match decode_scroll(sub) {
                Some(sc) => sc,
                None => {
                    return None;
                },
            },
            _ => {
                return None;
            },
        },
    };
    Some(MouseRequest { command, click, move_direction, scroll })
}

/// Decodes one text frame, given as characters, per `spec_decode_input`.
pub fn decode_input(text: &Vec<char>) -> (r: Result<InputRequest, DecodeError>)
    ensures
        (match r {
            Result::Ok(req) => spec_decode_input(text@) == Result::<InputRequestV, DecodeError>::Ok(
                req@,
            ),
            Result::Err(e) => spec_decode_input(text@) == Result::<
                InputRequestV,
                DecodeError,
            >::Err(e),
        }),
{
    let parsed = match parse_json(text) {
        Some(v) => v,
        None => {
            return Err(DecodeError::Syntax);
        },
    };
    let ms = match parsed {
        JsonValue::Obj(members) => members,
        _ => {
            return Err(DecodeError::Envelope);
        },
    };
    let tag = match obj_get(&ms, "action") {
        Some(v) => v,
        None => {
            return Err(DecodeError::Envelope);
        },
    };
    let tag_cs = match tag {
        JsonValue::Str(cs) => cs,
        _ => {
            return Err(DecodeError::Envelope);
        },
    };
    if chars_eq_str(tag_cs, "Keyboard") {
        match decode_keyboard(&ms) {
            Some(k) => Ok(InputRequest::Keyboard(k)),
            None => Err(DecodeError::Envelope),
        }
    } else if chars_eq_str(tag_cs, "Mouse") {
        match decode_mouse(&ms) {
            Some(m) => Ok(InputRequest::Mouse(m)),
            None => Err(DecodeError::Envelope),
        }
    } else {
        Err(DecodeError::Envelope)
    }
}

/// Decodes one text frame, per `spec_decode_input`.  A failure rejects
/// this frame only; the caller keeps the connection open.
pub fn handle_message(text: &str) -> (r: Result<InputRequest, DecodeError>)
    ensures
        (match r {
            Result::Ok(req) => spec_decode_input(text@) == Result::<InputRequestV, DecodeError>::Ok(
                req@,
            ),
            Result::Err(e) => spec_decode_input(text@) == Result::<
                InputRequestV,
                DecodeError,
            >::Err(e),
        }),
{
    let chars = str_chars(text);
    decode_input(&chars)
}

/// One action for the input executor to perform on the host.
#[derive(Debug)]
pub enum InputAction {
    MoveMouse(MoveRequest),
    ClickMouse(ClickRequest),
    ScrollX(i32),
    ScrollY(i32),
    PressKeys(KeyboardRequest),
}

/// The mathematical form of an executor action.
#[verifier::ext_equal]
pub enum InputActionV {
    MoveMouse(MoveRequest),
    ClickMouse(ClickRequest),
    ScrollX(i32),
    ScrollY(i32),
    PressKeys(KeyboardRequestV),
}

impl View for InputAction {
    type V = InputActionV;

    open spec fn view(&self) -> InputActionV {
        match self {
            InputAction::MoveMouse(m) => InputActionV::MoveMouse(*m),
            InputAction::ClickMouse(c) => InputActionV::ClickMouse(*c),
            InputAction::ScrollX(d) => InputActionV::ScrollX(*d),
            InputAction::ScrollY(d) => InputActionV::ScrollY(*d),
            InputAction::PressKeys(k) => InputActionV::PressKeys(k@),
        }
    }
}

/// What a decoded request makes the worker do, given the current
/// stop-move flag: a movement is suppressed while the flag is set,
/// `StopMove` sets the flag, a performed movement clears it, and every
/// other request leaves it alone.
pub open spec fn spec_handle_command(req: InputRequestV, stop_move: bool) -> (
    Option<InputActionV>,
    bool,
) {
    match req {
        InputRequestV::Mouse(m) => match m.command {
            MouseCommand::Move => if stop_move {
                (Option::None, stop_move)
            } else {
                (Option::Some(InputActionV::MoveMouse(m.move_direction)), false)
            },
            MouseCommand::Click => (Option::Some(InputActionV::ClickMouse(m.click)), stop_move),
            MouseCommand::Scroll => match m.scroll.direction {
                ScrollDirection::X => (
                    Option::Some(InputActionV::ScrollX(m.scroll.delta)),
                    stop_move,
                ),
                ScrollDirection::Y => (
                    Option::Some(InputActionV::ScrollY(m.scroll.delta)),
                    stop_move,
                ),
            },
            MouseCommand::StopMove => (Option::None, true),
        },
        InputRequestV::Keyboard(k) => (Option::Some(InputActionV::PressKeys(k)), stop_move),
    }
}

/// Turns a decoded request into the executor action to run and the new
/// stop-move flag, exactly per `spec_handle_command`.
pub fn handle_command(req: InputRequest, stop_move: bool) -> (r: (Option<InputAction>, bool))
    ensures
        (match r.0 {
            Option::Some(a) => spec_handle_command(req@, stop_move).0 == Option::Some(a@),
            Option::None => spec_handle_command(req@, stop_move).0 is None,
        }),
        r.1 == spec_handle_command(req@, stop_move).1,
{
    match req {
        InputRequest::Mouse(m) => match m.command {
            MouseCommand::Move => {
                if stop_move {
                    (None, stop_move)
                } else {
                    (Some(InputAction::MoveMouse(m.move_direction)), false)
                }
            },
            MouseCommand::Click => (Some(InputAction::ClickMouse(m.click)), stop_move),
            MouseCommand::Scroll => match m.scroll.direction {
                ScrollDirection::X => (Some(InputAction::ScrollX(m.scroll.delta)), stop_move),
                ScrollDirection::Y => (Some(InputAction::ScrollY(m.scroll.delta)), stop_move),
            },
            MouseCommand::StopMove => (None, true),
        },
        InputRequest::Keyboard(k) => (Some(InputAction::PressKeys(k)), stop_move),
    }
}

} // verus!
