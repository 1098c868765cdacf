use remote_input_server::input_types::{
    Action, Button, InputRequest, MouseCommand, ScrollDirection,
};
use remote_input_server::message_handler::{
    handle_command, handle_message, DecodeError, InputAction,
};

#[test]
fn keyboard_envelope_with_all_fields() {
    let text = r#"{"action":"Keyboard","key":"enter","modifiers":{"alt":true,"ctrl":false,"meta":false,"shift":true}}"#;
    match handle_message(text) {
        Ok(InputRequest::Keyboard(k)) => {
            assert_eq!(k.key, "enter");
            assert!(k.modifiers.alt);
            assert!(!k.modifiers.ctrl);
            assert!(!k.modifiers.meta);
            assert!(k.modifiers.shift);
        }
        other => panic!("expected a keyboard request, got {:?}", other),
    }
}

#[test]
fn minimal_envelopes_take_defaults() {
    match handle_message(r#"{"action":"Keyboard"}"#) {
        Ok(InputRequest::Keyboard(k)) => {
            assert_eq!(k.key, "");
            assert!(!k.modifiers.alt && !k.modifiers.ctrl && !k.modifiers.meta && !k.modifiers.shift);
        }
        other => panic!("expected a keyboard request, got {:?}", other),
    }
    match handle_message(r#"{"action":"Mouse"}"#) {
        Ok(InputRequest::Mouse(m)) => {
            assert_eq!(m.command, MouseCommand::Move);
            assert_eq!(m.click.button, Button::Left);
            assert_eq!(m.click.action, Action::Click);
            assert_eq!(m.move_direction.x, 0);
            assert_eq!(m.move_direction.y, 0);
            assert_eq!(m.scroll.direction, ScrollDirection::X);
            assert_eq!(m.scroll.delta, 0);
        }
        other => panic!("expected a mouse request, got {:?}", other),
    }
}

#[test]
fn mouse_envelope_with_payloads() {
    let text = r#"{
        "action": "Mouse",
        "command": "Scroll",
        "scroll": {"direction": "Y", "delta": -3},
        "move_direction": {"x": 10, "y": -20},
        "click": {"button": "Right", "action": "Down"}
    }"#;
    match handle_message(text) {
        Ok(InputRequest::Mouse(m)) => {
            assert_eq!(m.command, MouseCommand::Scroll);
            assert_eq!(m.scroll.direction, ScrollDirection::Y);
            assert_eq!(m.scroll.delta, -3);
            assert_eq!(m.move_direction.x, 10);
            assert_eq!(m.move_direction.y, -20);
            assert_eq!(m.click.button, Button::Right);
            assert_eq!(m.click.action, Action::Down);
        }
        other => panic!("expected a mouse request, got {:?}", other),
    }
}

#[test]
fn malformed_json_is_a_syntax_error() {
    assert_eq!(handle_message("not json at all").unwrap_err(), DecodeError::Syntax);
    assert_eq!(handle_message(r#"{"action":"Mouse""#).unwrap_err(), DecodeError::Syntax);
    assert_eq!(handle_message("").unwrap_err(), DecodeError::Syntax);
    assert_eq!(handle_message(r#"{"a":01}"#).unwrap_err(), DecodeError::Syntax);
}

#[test]
fn wrong_envelopes_are_envelope_errors() {
    // Valid JSON that is not a valid envelope.
    assert_eq!(handle_message("[1, 2, 3]").unwrap_err(), DecodeError::Envelope);
    assert_eq!(handle_message(r#"{"key":"a"}"#).unwrap_err(), DecodeError::Envelope);
    assert_eq!(handle_message(r#"{"action":"Gamepad"}"#).unwrap_err(), DecodeError::Envelope);
    assert_eq!(handle_message(r#"{"action":42}"#).unwrap_err(), DecodeError::Envelope);
    // A known field of the wrong shape fails the message.
    assert_eq!(handle_message(r#"{"action":"Keyboard","key":7}"#).unwrap_err(), DecodeError::Envelope);
    assert_eq!(handle_message(r#"{"action":"Mouse","move_direction":{"x":2147483648}}"#).unwrap_err(), DecodeError::Envelope);
    assert_eq!(handle_message(r#"{"action":"Mouse","scroll":{"delta":1.5}}"#).unwrap_err(), DecodeError::Envelope);
}

#[test]
fn malformed_frame_then_valid_frame() {
    // One bad message is rejected by itself; the next one still decodes.
    assert!(handle_message("{oops").is_err());
    assert!(handle_message(r#"{"action":"Keyboard","key":"a"}"#).is_ok());
}

#[test]
fn unknown_fields_and_whitespace_are_tolerated() {
    let text = " {\t\"action\" : \"Keyboard\" , \"extra\": [ {\"deep\": null}, 1.25e3, true ] , \"key\": \"f1\" } ";
    match handle_message(text) {
        Ok(InputRequest::Keyboard(k)) => assert_eq!(k.key, "f1"),
        other => panic!("expected a keyboard request, got {:?}", other),
    }
}

#[test]
fn string_escapes_decode() {
    let text = r#"{"action":"Keyboard","key":"a\tb\"\\\u0041\u00e9\ud83d\ude00"}"#;
    match handle_message(text) {
        Ok(InputRequest::Keyboard(k)) => {
            assert_eq!(k.key, "a\tb\"\\A\u{e9}\u{1F600}");
        }
        other => panic!("expected a keyboard request, got {:?}", other),
    }
}

#[test]
fn lone_surrogate_is_rejected() {
    assert_eq!(handle_message(r#"{"action":"Keyboard","key":"\ud800"}"#).unwrap_err(), DecodeError::Syntax);
}

#[test]
fn dispatch_move_respects_stop_flag() {
    let req = || handle_message(r#"{"action":"Mouse","command":"Move","move_direction":{"x":5,"y":6}}"#).unwrap();
    // Flag clear: the move happens and the flag stays clear.
    let (action, flag) = handle_command(req(), false);
    match action {
        Some(InputAction::MoveMouse(m)) => {
            assert_eq!(m.x, 5);
            assert_eq!(m.y, 6);
        }
        other => panic!("expected a move, got {:?}", other),
    }
    assert!(!flag);
    // Flag set: the move is suppressed and the flag stays set.
    let (action, flag) = handle_command(req(), true);
    assert!(action.is_none());
    assert!(flag);
}

#[test]
fn dispatch_stop_move_sets_flag() {
    let req = handle_message(r#"{"action":"Mouse","command":"StopMove"}"#).unwrap();
    let (action, flag) = handle_command(req, false);
    assert!(action.is_none());
    assert!(flag);
}

#[test]
fn dispatch_scroll_and_click_and_keys() {
    let req = handle_message(r#"{"action":"Mouse","command":"Scroll","scroll":{"direction":"Y","delta":7}}"#).unwrap();
    let (action, flag) = handle_command(req, true);
    match action {
        Some(InputAction::ScrollY(d)) => assert_eq!(d, 7),
        other => panic!("expected a vertical scroll, got {:?}", other),
    }
    assert!(flag);

    let req = handle_message(r#"{"action":"Mouse","command":"Scroll","scroll":{"direction":"X","delta":-2}}"#).unwrap();
    let (action, _) = handle_command(req, false);
    match action {
        Some(InputAction::ScrollX(d)) => assert_eq!(d, -2),
        other => panic!("expected a horizontal scroll, got {:?}", other),
    }

    let req = handle_message(r#"{"action":"Mouse","command":"Click","click":{"button":"Middle","action":"Up"}}"#).unwrap();
    let (action, _) = handle_command(req, false);
    match action {
        Some(InputAction::ClickMouse(c)) => {
            assert_eq!(c.button, Button::Middle);
            assert_eq!(c.action, Action::Up);
        }
        other => panic!("expected a click, got {:?}", other),
    }

    let req = handle_message(r#"{"action":"Keyboard","key":"esc"}"#).unwrap();
    let (action, flag) = handle_command(req, true);
    match action {
        Some(InputAction::PressKeys(k)) => assert_eq!(k.key, "esc"),
        other => panic!("expected key presses, got {:?}", other),
    }
    assert!(flag);
}

#[test]
fn integer_bounds_in_fields() {
    let req = handle_message(r#"{"action":"Mouse","move_direction":{"x":2147483647,"y":-2147483648}}"#).unwrap();
    match req {
        InputRequest::Mouse(m) => {
            assert_eq!(m.move_direction.x, i32::MAX);
            assert_eq!(m.move_direction.y, i32::MIN);
        }
        other => panic!("expected a mouse request, got {:?}", other),
    }
}

#[test]
fn duplicate_keys_first_occurrence_wins() {
    let req = handle_message(r#"{"action":"Keyboard","key":"a","key":"b"}"#).unwrap();
    match req {
        InputRequest::Keyboard(k) => assert_eq!(k.key, "a"),
        other => panic!("expected a keyboard request, got {:?}", other),
    }
}

#[test]
fn nesting_depth_is_bounded() {
    // Far beyond the depth budget: rejected, not a crash.
    let mut deep = String::new();
    for _ in 0..1000 {
        deep.push('[');
    }
    for _ in 0..1000 {
        deep.push(']');
    }
    assert_eq!(handle_message(&deep).unwrap_err(), DecodeError::Syntax);
}

#[test]
fn top_level_non_objects_are_envelope_errors() {
    assert_eq!(handle_message("null").unwrap_err(), DecodeError::Envelope);
    assert_eq!(handle_message("true").unwrap_err(), DecodeError::Envelope);
    assert_eq!(handle_message("42").unwrap_err(), DecodeError::Envelope);
    assert_eq!(handle_message(r#""text""#).unwrap_err(), DecodeError::Envelope);
    assert_eq!(handle_message("{}").unwrap_err(), DecodeError::Envelope);
}

#[test]
fn number_edges() {
    // A negative zero and numbers in unknown fields are fine.
    assert!(handle_message(r#"{"action":"Keyboard","skew":-0}"#).is_ok());
    assert!(handle_message(r#"{"action":"Keyboard","skew":9223372036854775807}"#).is_ok());
    assert!(handle_message(r#"{"action":"Keyboard","skew":-9223372036854775808}"#).is_ok());
    assert!(handle_message(r#"{"action":"Keyboard","skew":1e3}"#).is_ok());
    // An integer beyond 64 bits is not a number this protocol accepts.
    assert_eq!(
        handle_message(r#"{"action":"Keyboard","skew":9223372036854775808}"#).unwrap_err(),
        DecodeError::Syntax
    );
    // A fractional value where a 32-bit integer is expected fails the message.
    assert_eq!(
        handle_message(r#"{"action":"Mouse","move_direction":{"x":1.5}}"#).unwrap_err(),
        DecodeError::Envelope
    );
}

#[test]
fn control_characters_must_be_escaped() {
    let raw = "{\"action\":\"Keyboard\",\"key\":\"a\u{0007}b\"}";
    assert_eq!(handle_message(raw).unwrap_err(), DecodeError::Syntax);
}
