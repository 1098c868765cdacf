//! The command envelopes of the wire protocol: what a client may ask the
//! input executor to do.  Every field has a default, so a minimal envelope
//! is valid; the decoder in `message_handler` fills absent fields with the
//! defaults given here.

use vstd::prelude::*;

verus! {

/// A request to press (and release) one key, possibly under modifiers.
#[derive(Debug)]
pub struct KeyboardRequest {
    pub key: String,
    pub modifiers: Modifiers,
}

/// The mathematical form of a keyboard request.
#[verifier::ext_equal]
pub struct KeyboardRequestV {
    pub key: Seq<char>,
    pub modifiers: Modifiers,
}

impl View for KeyboardRequest {
    type V = KeyboardRequestV;

    open spec fn view(&self) -> KeyboardRequestV {
        KeyboardRequestV { key: self.key@, modifiers: self.modifiers }
    }
}

impl Default for KeyboardRequest {
    /// An empty key with no modifiers.
    fn default() -> (r: Self)
        ensures
            r@ == spec_default_keyboard(),
    {
        KeyboardRequest { key: String::new(), modifiers: Modifiers::default() }
    }
}

/// The default keyboard request: the empty key, no modifiers.
pub open spec fn spec_default_keyboard() -> KeyboardRequestV {
    KeyboardRequestV { key: Seq::empty(), modifiers: spec_default_modifiers() }
}

/// The modifier keys held during a keyboard request.
#[derive(Clone, Copy, Debug, PartialEq, Eq, Structural)]
pub struct Modifiers {
    pub alt: bool,
    pub ctrl: bool,
    pub meta: bool,
    pub shift: bool,
}

/// The default modifiers: none held.
pub open spec fn spec_default_modifiers() -> Modifiers {
    Modifiers { alt: false, ctrl: false, meta: false, shift: false }
}

impl Default for Modifiers {
    /// No modifier held.
    fn default() -> (r: Self)
        ensures
            r == spec_default_modifiers(),
    {
        Modifiers { alt: false, ctrl: false, meta: false, shift: false }
    }
}

/// A relative cursor movement.
#[derive(Clone, Copy, Debug, PartialEq, Eq, Structural)]
pub struct MoveRequest {
    pub x: i32,
    pub y: i32,
}

/// The default movement: none.
pub open spec fn spec_default_move() -> MoveRequest {
    MoveRequest { x: 0, y: 0 }
}

impl Default for MoveRequest {
    /// No movement.
    fn default() -> (r: Self)
        ensures
            r == spec_default_move(),
    {
        MoveRequest { x: 0, y: 0 }
    }
}

/// A mouse request: which command to run, with the payloads the commands
/// read.
#[derive(Clone, Copy, Debug, PartialEq, Eq, Structural)]
pub struct MouseRequest {
    pub command: MouseCommand,
    pub click: ClickRequest,
    pub move_direction: MoveRequest,
    pub scroll: ScrollRequest,
}

/// The default mouse request: a movement by nothing.
pub open spec fn spec_default_mouse() -> MouseRequest {
    MouseRequest {
        command: MouseCommand::Move,
        click: spec_default_click(),
        move_direction: spec_default_move(),
        scroll: spec_default_scroll(),
    }
}

impl Default for MouseRequest {
    /// A movement by nothing.
    fn default() -> (r: Self)
        ensures
            r == spec_default_mouse(),
    {
        MouseRequest {
            command: MouseCommand::Move,
            click: ClickRequest::default(),
            move_direction: MoveRequest::default(),
            scroll: ScrollRequest::default(),
        }
    }
}

/// The kinds of mouse command a client can send.
#[derive(Clone, Copy, Debug, PartialEq, Eq, Structural)]
pub enum MouseCommand {
    Move,
    Click,
    Scroll,
    StopMove,
}

impl Default for MouseCommand {
    /// `Move`.
    fn default() -> (r: Self)
        ensures
            r == MouseCommand::Move,
    {
        MouseCommand::Move
    }
}

/// A button press, release, or full click.
#[derive(Clone, Copy, Debug, PartialEq, Eq, Structural)]
pub struct ClickRequest {
    pub button: Button,
    pub action: Action,
}

/// The default click: a full click of the left button.
pub open spec fn spec_default_click() -> ClickRequest {
    ClickRequest { button: Button::Left, action: Action::Click }
}

impl Default for ClickRequest {
    /// A full click of the left button.
    fn default() -> (r: Self)
        ensures
            r == spec_default_click(),
    {
        ClickRequest { button: Button::Left, action: Action::Click }
    }
}

/// What to do with a mouse button.
#[derive(Clone, Copy, Debug, PartialEq, Eq, Structural)]
pub enum Action {
    Click,
    Up,
    Down,
}

impl Default for Action {
    /// `Click`.
    fn default() -> (r: Self)
        ensures
            r == Action::Click,
    {
        Action::Click
    }
}

/// The mouse buttons a client can name.
#[derive(Clone, Copy, Debug, PartialEq, Eq, Structural)]
pub enum Button {
    Left,
    Middle,
    Right,
    Forward,
    Back,
}

impl Default for Button {
    /// `Left`.
    fn default() -> (r: Self)
        ensures
            r == Button::Left,
    {
        Button::Left
    }
}

/// A request to stop a continuous movement, with the client's reason.
#[derive(Debug)]
pub struct StopMoveRequest {
    pub reason: String,
}

impl View for StopMoveRequest {
    type V = Seq<char>;

    open spec fn view(&self) -> Seq<char> {
        self.reason@
    }
}

impl Default for StopMoveRequest {
    /// A stop with the stock reason text.
    fn default() -> (r: Self)
        ensures
            r@ == "No reason provided"@,
    {
        StopMoveRequest { reason: "No reason provided".to_owned() }
    }
}

/// A scroll by some amount along one axis.
#[derive(Clone, Copy, Debug, PartialEq, Eq, Structural)]
pub struct ScrollRequest {
    pub direction: ScrollDirection,
    pub delta: i32,
}

/// The default scroll: nothing, along the horizontal axis.
pub open spec fn spec_default_scroll() -> ScrollRequest {
    ScrollRequest { direction: ScrollDirection::X, delta: 0 }
}

impl Default for ScrollRequest {
    /// No scrolling, along the horizontal axis.
    fn default() -> (r: Self)
        ensures
            r == spec_default_scroll(),
    {
        ScrollRequest { direction: ScrollDirection::X, delta: 0 }
    }
}

/// The axes a scroll can follow.
#[derive(Clone, Copy, Debug, PartialEq, Eq, Structural)]
pub enum ScrollDirection {
    X,
    Y,
}

impl Default for ScrollDirection {
    /// `X`.
    fn default() -> (r: Self)
        ensures
            r == ScrollDirection::X,
    {
        ScrollDirection::X
    }
}

/// One decoded command envelope: keyboard or mouse.
#[derive(Debug)]
pub enum InputRequest {
    Keyboard(KeyboardRequest),
    Mouse(MouseRequest),
}

/// The mathematical form of a command envelope.
#[verifier::ext_equal]
pub enum InputRequestV {
    Keyboard(KeyboardRequestV),
    Mouse(MouseRequest),
}

impl View for InputRequest {
    type V = InputRequestV;

    open spec fn view(&self) -> InputRequestV {
        match self {
            InputRequest::Keyboard(k) => InputRequestV::Keyboard(k@),
            InputRequest::Mouse(m) => InputRequestV::Mouse(*m),
        }
    }
}

} // verus!
