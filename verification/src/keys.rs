//! Keyboard keys, mouse buttons and cursors: those of the windowing system
//! and those of the interface they stand for.
use vstd::prelude::*;

verus! {

/// A physical key code of the keyboard, as the windowing system names it.
/// Codes that stand for no key of the interface are all `Other`.
#[derive(Clone, Copy, PartialEq, Eq, Structural, Debug)]
pub enum KeyCode {
    Tab, ArrowLeft, ArrowRight, ArrowUp, ArrowDown, PageUp, PageDown, Home, End, Insert, Delete,
    Backspace, Space, Enter, Escape, ControlLeft, ShiftLeft, AltLeft, SuperLeft, ControlRight,
    ShiftRight, AltRight, SuperRight, Digit0, Digit1, Digit2, Digit3, Digit4, Digit5, Digit6,
    Digit7, Digit8, Digit9, KeyA, KeyB, KeyC, KeyD, KeyE, KeyF, KeyG, KeyH, KeyI, KeyJ, KeyK, KeyL,
    KeyM, KeyN, KeyO, KeyP, KeyQ, KeyR, KeyS, KeyT, KeyU, KeyV, KeyW, KeyX, KeyY, KeyZ, F1, F2, F3,
    F4, F5, F6, F7, F8, F9, F10, F11, F12, Quote, Comma, Minus, Period, Slash, Semicolon, Equal,
    BracketLeft, Backslash, BracketRight, Backquote, CapsLock, ScrollLock, NumLock, PrintScreen,
    Pause, Numpad0, Numpad1, Numpad2, Numpad3, Numpad4, Numpad5, Numpad6, Numpad7, Numpad8,
    Numpad9, NumpadDecimal, NumpadDivide, NumpadMultiply, NumpadSubtract, NumpadAdd, NumpadEnter,
    NumpadEqual, NumpadBackspace,
    Other,
}

/// A physical key: a known code, or one the windowing system could not
/// identify (with its native scan code).
#[derive(Clone, Copy, PartialEq, Eq, Structural, Debug)]
pub enum PhysicalKey {
    Code(KeyCode),
    Unidentified(u32),
}

/// A key of the interface.
#[derive(Clone, Copy, PartialEq, Eq, Structural, Debug)]
pub enum Key {
    Tab, LeftArrow, RightArrow, UpArrow, DownArrow, PageUp, PageDown, Home, End, Insert, Delete,
    Backspace, Space, Enter, Escape, LeftCtrl, LeftShift, LeftAlt, LeftSuper, RightCtrl,
    RightShift, RightAlt, RightSuper, Num0, Num1, Num2, Num3, Num4, Num5, Num6, Num7, Num8, Num9,
    A, B, C, D, E, F, G, H, I, J, K, L, M, N, O, P, Q, R, S, T, U, V, W, X, Y, Z, F1, F2, F3, F4,
    F5, F6, F7, F8, F9, F10, F11, F12, Apostrophe, Comma, Minus, Period, Slash, Semicolon, Equal,
    LeftBracket, Backslash, RightBracket, GraveAccent, CapsLock, ScrollLock, NumLock, PrintScreen,
    Pause, Keypad0, Keypad1, Keypad2, Keypad3, Keypad4, Keypad5, Keypad6, Keypad7, Keypad8,
    Keypad9, KeypadDecimal, KeypadDivide, KeypadMultiply, KeypadSubtract, KeypadAdd, KeypadEnter,
    KeypadEqual,
}

/// The key of the interface that a key code stands for, if any.
pub open spec fn key_of_code(code: KeyCode) -> Option<Key> {
    match code {
        KeyCode::Tab => Some(Key::Tab),
        KeyCode::ArrowLeft => Some(Key::LeftArrow),
        KeyCode::ArrowRight => Some(Key::RightArrow),
        KeyCode::ArrowUp => Some(Key::UpArrow),
        KeyCode::ArrowDown => Some(Key::DownArrow),
        KeyCode::PageUp => Some(Key::PageUp),
        KeyCode::PageDown => Some(Key::PageDown),
        KeyCode::Home => Some(Key::Home),
        KeyCode::End => Some(Key::End),
        KeyCode::Insert => Some(Key::Insert),
        KeyCode::Delete => Some(Key::Delete),
        KeyCode::Backspace => Some(Key::Backspace),
        KeyCode::Space => Some(Key::Space),
        KeyCode::Enter => Some(Key::Enter),
        KeyCode::Escape => Some(Key::Escape),
        KeyCode::ControlLeft => Some(Key::LeftCtrl),
        KeyCode::ShiftLeft => Some(Key::LeftShift),
        KeyCode::AltLeft => Some(Key::LeftAlt),
        KeyCode::SuperLeft => Some(Key::LeftSuper),
        KeyCode::ControlRight => Some(Key::RightCtrl),
        KeyCode::ShiftRight => Some(Key::RightShift),
        KeyCode::AltRight => Some(Key::RightAlt),
        KeyCode::SuperRight => Some(Key::RightSuper),
        KeyCode::Digit0 => Some(Key::Num0),
        KeyCode::Digit1 => Some(Key::Num1),
        KeyCode::Digit2 => Some(Key::Num2),
        KeyCode::Digit3 => Some(Key::Num3),
        KeyCode::Digit4 => Some(Key::Num4),
        KeyCode::Digit5 => Some(Key::Num5),
        KeyCode::Digit6 => Some(Key::Num6),
        KeyCode::Digit7 => Some(Key::Num7),
        KeyCode::Digit8 => Some(Key::Num8),
        KeyCode::Digit9 => Some(Key::Num9),
        KeyCode::KeyA => Some(Key::A),
        KeyCode::KeyB => Some(Key::B),
        KeyCode::KeyC => Some(Key::C),
        KeyCode::KeyD => Some(Key::D),
        KeyCode::KeyE => Some(Key::E),
        KeyCode::KeyF => Some(Key::F),
        KeyCode::KeyG => Some(Key::G),
        KeyCode::KeyH => Some(Key::H),
        KeyCode::KeyI => Some(Key::I),
        KeyCode::KeyJ => Some(Key::J),
        KeyCode::KeyK => Some(Key::K),
        KeyCode::KeyL => Some(Key::L),
        KeyCode::KeyM => Some(Key::M),
        KeyCode::KeyN => Some(Key::N),
        KeyCode::KeyO => Some(Key::O),
        KeyCode::KeyP => Some(Key::P),
        KeyCode::KeyQ => Some(Key::Q),
        KeyCode::KeyR => Some(Key::R),
        KeyCode::KeyS => Some(Key::S),
        KeyCode::KeyT => Some(Key::T),
        KeyCode::KeyU => Some(Key::U),
        KeyCode::KeyV => Some(Key::V),
        KeyCode::KeyW => Some(Key::W),
        KeyCode::KeyX => Some(Key::X),
        KeyCode::KeyY => Some(Key::Y),
        KeyCode::KeyZ => Some(Key::Z),
        KeyCode::F1 => Some(Key::F1),
        KeyCode::F2 => Some(Key::F2),
        KeyCode::F3 => Some(Key::F3),
        KeyCode::F4 => Some(Key::F4),
        KeyCode::F5 => Some(Key::F5),
        KeyCode::F6 => Some(Key::F6),
        KeyCode::F7 => Some(Key::F7),
        KeyCode::F8 => Some(Key::F8),
        KeyCode::F9 => Some(Key::F9),
        KeyCode::F10 => Some(Key::F10),
        KeyCode::F11 => Some(Key::F11),
        KeyCode::F12 => Some(Key::F12),
        KeyCode::Quote => Some(Key::Apostrophe),
        KeyCode::Comma => Some(Key::Comma),
        KeyCode::Minus => Some(Key::Minus),
        KeyCode::Period => Some(Key::Period),
        KeyCode::Slash => Some(Key::Slash),
        KeyCode::Semicolon => Some(Key::Semicolon),
        KeyCode::Equal => Some(Key::Equal),
        KeyCode::BracketLeft => Some(Key::LeftBracket),
        KeyCode::Backslash => Some(Key::Backslash),
        KeyCode::BracketRight => Some(Key::RightBracket),
        KeyCode::Backquote => Some(Key::GraveAccent),
        KeyCode::CapsLock => Some(Key::CapsLock),
        KeyCode::ScrollLock => Some(Key::ScrollLock),
        KeyCode::NumLock => Some(Key::NumLock),
        KeyCode::PrintScreen => Some(Key::PrintScreen),
        KeyCode::Pause => Some(Key::Pause),
        KeyCode::Numpad0 => Some(Key::Keypad0),
        KeyCode::Numpad1 => Some(Key::Keypad1),
        KeyCode::Numpad2 => Some(Key::Keypad2),
        KeyCode::Numpad3 => Some(Key::Keypad3),
        KeyCode::Numpad4 => Some(Key::Keypad4),
        KeyCode::Numpad5 => Some(Key::Keypad5),
        KeyCode::Numpad6 => Some(Key::Keypad6),
        KeyCode::Numpad7 => Some(Key::Keypad7),
        KeyCode::Numpad8 => Some(Key::Keypad8),
        KeyCode::Numpad9 => Some(Key::Keypad9),
        KeyCode::NumpadDecimal => Some(Key::KeypadDecimal),
        KeyCode::NumpadDivide => Some(Key::KeypadDivide),
        KeyCode::NumpadMultiply => Some(Key::KeypadMultiply),
        KeyCode::NumpadSubtract => Some(Key::KeypadSubtract),
        KeyCode::NumpadAdd => Some(Key::KeypadAdd),
        KeyCode::NumpadEnter => Some(Key::KeypadEnter),
        KeyCode::NumpadEqual => Some(Key::KeypadEqual),
        KeyCode::NumpadBackspace => Some(Key::Backspace),
        KeyCode::Other => None,
    }
}

/// The key of the interface that a physical key stands for, if any.
pub open spec fn spec_key_table(k: PhysicalKey) -> Option<Key> {
    match k {
        PhysicalKey::Code(code) => key_of_code(code),
        PhysicalKey::Unidentified(_) => None,
    }
}

/// The key code that stands for a key of the interface (for `Backspace`,
/// one of the two that do).
pub open spec fn code_of_key(key: Key) -> KeyCode {
    match key {
        Key::Tab => KeyCode::Tab,
        Key::LeftArrow => KeyCode::ArrowLeft,
        Key::RightArrow => KeyCode::ArrowRight,
        Key::UpArrow => KeyCode::ArrowUp,
        Key::DownArrow => KeyCode::ArrowDown,
        Key::PageUp => KeyCode::PageUp,
        Key::PageDown => KeyCode::PageDown,
        Key::Home => KeyCode::Home,
        Key::End => KeyCode::End,
        Key::Insert => KeyCode::Insert,
        Key::Delete => KeyCode::Delete,
        Key::Backspace => KeyCode::Backspace,
        Key::Space => KeyCode::Space,
        Key::Enter => KeyCode::Enter,
        Key::Escape => KeyCode::Escape,
        Key::LeftCtrl => KeyCode::ControlLeft,
        Key::LeftShift => KeyCode::ShiftLeft,
        Key::LeftAlt => KeyCode::AltLeft,
        Key::LeftSuper => KeyCode::SuperLeft,
        Key::RightCtrl => KeyCode::ControlRight,
        Key::RightShift => KeyCode::ShiftRight,
        Key::RightAlt => KeyCode::AltRight,
        Key::RightSuper => KeyCode::SuperRight,
        Key::Num0 => KeyCode::Digit0,
        Key::Num1 => KeyCode::Digit1,
        Key::Num2 => KeyCode::Digit2,
        Key::Num3 => KeyCode::Digit3,
        Key::Num4 => KeyCode::Digit4,
        Key::Num5 => KeyCode::Digit5,
        Key::Num6 => KeyCode::Digit6,
        Key::Num7 => KeyCode::Digit7,
        Key::Num8 => KeyCode::Digit8,
        Key::Num9 => KeyCode::Digit9,
        Key::A => KeyCode::KeyA,
        Key::B => KeyCode::KeyB,
        Key::C => KeyCode::KeyC,
        Key::D => KeyCode::KeyD,
        Key::E => KeyCode::KeyE,
        Key::F => KeyCode::KeyF,
        Key::G => KeyCode::KeyG,
        Key::H => KeyCode::KeyH,
        Key::I => KeyCode::KeyI,
        Key::J => KeyCode::KeyJ,
        Key::K => KeyCode::KeyK,
        Key::L => KeyCode::KeyL,
        Key::M => KeyCode::KeyM,
        Key::N => KeyCode::KeyN,
        Key::O => KeyCode::KeyO,
        Key::P => KeyCode::KeyP,
        Key::Q => KeyCode::KeyQ,
        Key::R => KeyCode::KeyR,
        Key::S => KeyCode::KeyS,
        Key::T => KeyCode::KeyT,
        Key::U => KeyCode::KeyU,
        Key::V => KeyCode::KeyV,
        Key::W => KeyCode::KeyW,
        Key::X => KeyCode::KeyX,
        Key::Y => KeyCode::KeyY,
        Key::Z => KeyCode::KeyZ,
        Key::F1 => KeyCode::F1,
        Key::F2 => KeyCode::F2,
        Key::F3 => KeyCode::F3,
        Key::F4 => KeyCode::F4,
        Key::F5 => KeyCode::F5,
        Key::F6 => KeyCode::F6,
        Key::F7 => KeyCode::F7,
        Key::F8 => KeyCode::F8,
        Key::F9 => KeyCode::F9,
        Key::F10 => KeyCode::F10,
        Key::F11 => KeyCode::F11,
        Key::F12 => KeyCode::F12,
        Key::Apostrophe => KeyCode::Quote,
        Key::Comma => KeyCode::Comma,
        Key::Minus => KeyCode::Minus,
        Key::Period => KeyCode::Period,
        Key::Slash => KeyCode::Slash,
        Key::Semicolon => KeyCode::Semicolon,
        Key::Equal => KeyCode::Equal,
        Key::LeftBracket => KeyCode::BracketLeft,
        Key::Backslash => KeyCode::Backslash,
        Key::RightBracket => KeyCode::BracketRight,
        Key::GraveAccent => KeyCode::Backquote,
        Key::CapsLock => KeyCode::CapsLock,
        Key::ScrollLock => KeyCode::ScrollLock,
        Key::NumLock => KeyCode::NumLock,
        Key::PrintScreen => KeyCode::PrintScreen,
        Key::Pause => KeyCode::Pause,
        Key::Keypad0 => KeyCode::Numpad0,
        Key::Keypad1 => KeyCode::Numpad1,
        Key::Keypad2 => KeyCode::Numpad2,
        Key::Keypad3 => KeyCode::Numpad3,
        Key::Keypad4 => KeyCode::Numpad4,
        Key::Keypad5 => KeyCode::Numpad5,
        Key::Keypad6 => KeyCode::Numpad6,
        Key::Keypad7 => KeyCode::Numpad7,
        Key::Keypad8 => KeyCode::Numpad8,
        Key::Keypad9 => KeyCode::Numpad9,
        Key::KeypadDecimal => KeyCode::NumpadDecimal,
        Key::KeypadDivide => KeyCode::NumpadDivide,
        Key::KeypadMultiply => KeyCode::NumpadMultiply,
        Key::KeypadSubtract => KeyCode::NumpadSubtract,
        Key::KeypadAdd => KeyCode::NumpadAdd,
        Key::KeypadEnter => KeyCode::NumpadEnter,
        Key::KeypadEqual => KeyCode::NumpadEqual,
    }
}

/// Converts a physical key to the key of the interface it stands for.
pub fn to_imgui_key(k: PhysicalKey) -> (r: Option<Key>)
    ensures
        r == spec_key_table(k),
        r is None <==> (k is Unidentified || k == PhysicalKey::Code(KeyCode::Other)),
        r matches Some(key) ==> k == PhysicalKey::Code(code_of_key(key)) || (k == PhysicalKey::Code(
            KeyCode::NumpadBackspace,
        ) && key == Key::Backspace),
{
    let code = match k {
        PhysicalKey::Code(code) => code,
        PhysicalKey::Unidentified(_) => return None,
    };
    let key = match code {
        KeyCode::Tab => Key::Tab,
        KeyCode::ArrowLeft => Key::LeftArrow,
        KeyCode::ArrowRight => Key::RightArrow,
        KeyCode::ArrowUp => Key::UpArrow,
        KeyCode::ArrowDown => Key::DownArrow,
        KeyCode::PageUp => Key::PageUp,
        KeyCode::PageDown => Key::PageDown,
        KeyCode::Home => Key::Home,
        KeyCode::End => Key::End,
        KeyCode::Insert => Key::Insert,
        KeyCode::Delete => Key::Delete,
        KeyCode::Backspace => Key::Backspace,
        KeyCode::Space => Key::Space,
        KeyCode::Enter => Key::Enter,
        KeyCode::Escape => Key::Escape,
        KeyCode::ControlLeft => Key::LeftCtrl,
        KeyCode::ShiftLeft => Key::LeftShift,
        KeyCode::AltLeft => Key::LeftAlt,
        KeyCode::SuperLeft => Key::LeftSuper,
        KeyCode::ControlRight => Key::RightCtrl,
        KeyCode::ShiftRight => Key::RightShift,
        KeyCode::AltRight => Key::RightAlt,
        KeyCode::SuperRight => Key::RightSuper,
        KeyCode::Digit0 => Key::Num0,
        KeyCode::Digit1 => Key::Num1,
        KeyCode::Digit2 => Key::Num2,
        KeyCode::Digit3 => Key::Num3,
        KeyCode::Digit4 => Key::Num4,
        KeyCode::Digit5 => Key::Num5,
        KeyCode::Digit6 => Key::Num6,
        KeyCode::Digit7 => Key::Num7,
        KeyCode::Digit8 => Key::Num8,
        KeyCode::Digit9 => Key::Num9,
        KeyCode::KeyA => Key::A,
        KeyCode::KeyB => Key::B,
        KeyCode::KeyC => Key::C,
        KeyCode::KeyD => Key::D,
        KeyCode::KeyE => Key::E,
        KeyCode::KeyF => Key::F,
        KeyCode::KeyG => Key::G,
        KeyCode::KeyH => Key::H,
        KeyCode::KeyI => Key::I,
        KeyCode::KeyJ => Key::J,
        KeyCode::KeyK => Key::K,
        KeyCode::KeyL => Key::L,
        KeyCode::KeyM => Key::M,
        KeyCode::KeyN => Key::N,
        KeyCode::KeyO => Key::O,
        KeyCode::KeyP => Key::P,
        KeyCode::KeyQ => Key::Q,
        KeyCode::KeyR => Key::R,
        KeyCode::KeyS => Key::S,
        KeyCode::KeyT => Key::T,
        KeyCode::KeyU => Key::U,
        KeyCode::KeyV => Key::V,
        KeyCode::KeyW => Key::W,
        KeyCode::KeyX => Key::X,
        KeyCode::KeyY => Key::Y,
        KeyCode::KeyZ => Key::Z,
        KeyCode::F1 => Key::F1,
        KeyCode::F2 => Key::F2,
        KeyCode::F3 => Key::F3,
        KeyCode::F4 => Key::F4,
        KeyCode::F5 => Key::F5,
        KeyCode::F6 => Key::F6,
        KeyCode::F7 => Key::F7,
        KeyCode::F8 => Key::F8,
        KeyCode::F9 => Key::F9,
        KeyCode::F10 => Key::F10,
        KeyCode::F11 => Key::F11,
        KeyCode::F12 => Key::F12,
        KeyCode::Quote => Key::Apostrophe,
        KeyCode::Comma => Key::Comma,
        KeyCode::Minus => Key::Minus,
        KeyCode::Period => Key::Period,
        KeyCode::Slash => Key::Slash,
        KeyCode::Semicolon => Key::Semicolon,
        KeyCode::Equal => Key::Equal,
        KeyCode::BracketLeft => Key::LeftBracket,
        KeyCode::Backslash => Key::Backslash,
        KeyCode::BracketRight => Key::RightBracket,
        KeyCode::Backquote => Key::GraveAccent,
        KeyCode::CapsLock => Key::CapsLock,
        KeyCode::ScrollLock => Key::ScrollLock,
        KeyCode::NumLock => Key::NumLock,
        KeyCode::PrintScreen => Key::PrintScreen,
        KeyCode::Pause => Key::Pause,
        KeyCode::Numpad0 => Key::Keypad0,
        KeyCode::Numpad1 => Key::Keypad1,
        KeyCode::Numpad2 => Key::Keypad2,
        KeyCode::Numpad3 => Key::Keypad3,
        KeyCode::Numpad4 => Key::Keypad4,
        KeyCode::Numpad5 => Key::Keypad5,
        KeyCode::Numpad6 => Key::Keypad6,
        KeyCode::Numpad7 => Key::Keypad7,
        KeyCode::Numpad8 => Key::Keypad8,
        KeyCode::Numpad9 => Key::Keypad9,
        KeyCode::NumpadDecimal => Key::KeypadDecimal,
        KeyCode::NumpadDivide => Key::KeypadDivide,
        KeyCode::NumpadMultiply => Key::KeypadMultiply,
        KeyCode::NumpadSubtract => Key::KeypadSubtract,
        KeyCode::NumpadAdd => Key::KeypadAdd,
        KeyCode::NumpadEnter => Key::KeypadEnter,
        KeyCode::NumpadEqual => Key::KeypadEqual,
        KeyCode::NumpadBackspace => Key::Backspace,
        KeyCode::Other => return None,
    };
    Some(key)
}

/// Each key of the interface comes from one key code, save `Backspace`,
/// which comes from both `Backspace` and `NumpadBackspace`.
pub proof fn lemma_key_from_one_code(code: KeyCode, key: Key)
    requires
        key_of_code(code) == Some(key),
    ensures
        code == code_of_key(key) || (code == KeyCode::NumpadBackspace && key == Key::Backspace),
{
}

/// Two key codes that stand for the same key of the interface are the same
/// code, or `Backspace` and `NumpadBackspace`.
pub proof fn lemma_key_table_shared(a: KeyCode, b: KeyCode)
    requires
        key_of_code(a) is Some,
        key_of_code(a) == key_of_code(b),
    ensures
        a == b || (key_of_code(a) == Some(Key::Backspace) && (a == KeyCode::Backspace || a
            == KeyCode::NumpadBackspace) && (b == KeyCode::Backspace || b == KeyCode::NumpadBackspace)),
{
    lemma_key_from_one_code(a, key_of_code(a)->0);
    lemma_key_from_one_code(b, key_of_code(b)->0);
}

/// Every key code but `Other` stands for a key of the interface, and every
/// key of the interface is given back by the code that stands for it: no
/// key is dropped, and none is given for another.
pub proof fn lemma_every_key_reachable(code: KeyCode, key: Key)
    ensures
        (key_of_code(code) is None) == (code == KeyCode::Other),
        key_of_code(code_of_key(key)) == Some(key),
        code_of_key(key) != KeyCode::Other,
{
}

/// A key code stands for a key exactly when the key's code is that code (or,
/// for `Backspace`, the keypad's backspace).
pub proof fn lemma_key_code_correspondence(code: KeyCode, key: Key)
    ensures
        (key_of_code(code) == Some(key)) == (code == code_of_key(key) || (code
            == KeyCode::NumpadBackspace && key == Key::Backspace)),
{
}

/// A mouse button, as the windowing system names it.
#[derive(Clone, Copy, PartialEq, Eq, Structural, Debug)]
pub enum MouseButton {
    Left,
    Right,
    Middle,
    Back,
    Forward,
    Other(u16),
}

/// A mouse button of the interface.
#[derive(Clone, Copy, PartialEq, Eq, Structural, Debug)]
pub enum ImMouseButton {
    Left,
    Right,
    Middle,
    Other(u16),
}

/// How many mouse buttons the interface knows.
pub const MOUSE_BUTTON_COUNT: u16 = 5;

/// The button of the interface that a mouse button stands for, if any.
pub open spec fn spec_button_table(b: MouseButton) -> Option<ImMouseButton> {
    match b {
        MouseButton::Left => Some(ImMouseButton::Left),
        MouseButton::Right => Some(ImMouseButton::Right),
        MouseButton::Middle => Some(ImMouseButton::Middle),
        MouseButton::Other(x) => if x < MOUSE_BUTTON_COUNT {
            Some(ImMouseButton::Other(x))
        } else {
            None
        },
        _ => None,
    }
}

/// The mouse button of the windowing system with the same name as a button
/// of the interface.
pub open spec fn button_of_im(b: ImMouseButton) -> MouseButton {
    match b {
        ImMouseButton::Left => MouseButton::Left,
        ImMouseButton::Right => MouseButton::Right,
        ImMouseButton::Middle => MouseButton::Middle,
        ImMouseButton::Other(x) => MouseButton::Other(x),
    }
}

/// Each button is given as the button of the interface of the same name,
/// and every button of the interface (numbered ones below the count) is
/// given for the button of its name; the back and forward buttons, and
/// numbered ones past the count, give none.
pub proof fn lemma_button_names(b: MouseButton, ib: ImMouseButton)
    ensures
        spec_button_table(b) == Some(ib) ==> button_of_im(ib) == b,
        (ib matches ImMouseButton::Other(x) ==> x < MOUSE_BUTTON_COUNT) ==> spec_button_table(
            button_of_im(ib),
        ) == Some(ib),
        (spec_button_table(b) is None) == (b == MouseButton::Back || b == MouseButton::Forward || (
        b matches MouseButton::Other(x) && x >= MOUSE_BUTTON_COUNT)),
{
}

/// Converts a mouse button to the button of the interface it stands for.
pub fn to_imgui_button(b: MouseButton) -> (r: Option<ImMouseButton>)
    ensures
        r == spec_button_table(b),
        r matches Some(ib) ==> button_of_im(ib) == b,
{
    match b {
        MouseButton::Left => Some(ImMouseButton::Left),
        MouseButton::Right => Some(ImMouseButton::Right),
        MouseButton::Middle => Some(ImMouseButton::Middle),
        MouseButton::Other(x) => if x < MOUSE_BUTTON_COUNT {
            Some(ImMouseButton::Other(x))
        } else {
            None
        },
        _ => None,
    }
}

/// A mouse cursor that the interface asks for; `Hidden` asks for none.
#[derive(Clone, Copy, PartialEq, Eq, Structural, Debug)]
pub enum MouseCursor {
    Arrow,
    TextInput,
    ResizeAll,
    ResizeNS,
    ResizeEW,
    ResizeNESW,
    ResizeNWSE,
    Hand,
    NotAllowed,
    Hidden,
}

/// A cursor icon of the windowing system.
#[derive(Clone, Copy, PartialEq, Eq, Structural, Debug)]
pub enum CursorIcon {
    Default,
    Text,
    Move,
    NsResize,
    EwResize,
    NeswResize,
    NwseResize,
    Pointer,
    NotAllowed,
}

/// The icon shown for a cursor of the interface; none for `Hidden`.
pub open spec fn spec_cursor_table(c: MouseCursor) -> Option<CursorIcon> {
    match c {
        MouseCursor::Arrow => Some(CursorIcon::Default),
        MouseCursor::TextInput => Some(CursorIcon::Text),
        MouseCursor::ResizeAll => Some(CursorIcon::Move),
        MouseCursor::ResizeNS => Some(CursorIcon::NsResize),
        MouseCursor::ResizeEW => Some(CursorIcon::EwResize),
        MouseCursor::ResizeNESW => Some(CursorIcon::NeswResize),
        MouseCursor::ResizeNWSE => Some(CursorIcon::NwseResize),
        MouseCursor::Hand => Some(CursorIcon::Pointer),
        MouseCursor::NotAllowed => Some(CursorIcon::NotAllowed),
        MouseCursor::Hidden => None,
    }
}

/// The cursor of the interface that an icon is shown for.
pub open spec fn cursor_of_icon(i: CursorIcon) -> MouseCursor {
    match i {
        CursorIcon::Default => MouseCursor::Arrow,
        CursorIcon::Text => MouseCursor::TextInput,
        CursorIcon::Move => MouseCursor::ResizeAll,
        CursorIcon::NsResize => MouseCursor::ResizeNS,
        CursorIcon::EwResize => MouseCursor::ResizeEW,
        CursorIcon::NeswResize => MouseCursor::ResizeNESW,
        CursorIcon::NwseResize => MouseCursor::ResizeNWSE,
        CursorIcon::Pointer => MouseCursor::Hand,
        CursorIcon::NotAllowed => MouseCursor::NotAllowed,
    }
}

/// Each cursor but `Hidden` is shown with its own icon: two different
/// cursors never share an icon, and every icon is shown for its cursor.
/// `Hidden` shows none.
pub proof fn lemma_cursor_icons(c: MouseCursor, d: MouseCursor, i: CursorIcon)
    ensures
        spec_cursor_table(c) == Some(i) ==> cursor_of_icon(i) == c,
        spec_cursor_table(cursor_of_icon(i)) == Some(i),
        (spec_cursor_table(c) is None) == (c == MouseCursor::Hidden),
        spec_cursor_table(c) is Some && spec_cursor_table(c) == spec_cursor_table(d) ==> c == d,
{
}

/// Converts a cursor of the interface to the icon shown for it.
pub fn from_imgui_cursor(c: MouseCursor) -> (r: Option<CursorIcon>)
    ensures
        r == spec_cursor_table(c),
        r matches Some(i) ==> cursor_of_icon(i) == c,
        r is None <==> c == MouseCursor::Hidden,
{
    match c {
        MouseCursor::Arrow => Some(CursorIcon::Default),
        MouseCursor::TextInput => Some(CursorIcon::Text),
        MouseCursor::ResizeAll => Some(CursorIcon::Move),
        MouseCursor::ResizeNS => Some(CursorIcon::NsResize),
        MouseCursor::ResizeEW => Some(CursorIcon::EwResize),
        MouseCursor::ResizeNESW => Some(CursorIcon::NeswResize),
        MouseCursor::ResizeNWSE => Some(CursorIcon::NwseResize),
        MouseCursor::Hand => Some(CursorIcon::Pointer),
        MouseCursor::NotAllowed => Some(CursorIcon::NotAllowed),
        MouseCursor::Hidden => None,
    }
}

} // verus!
