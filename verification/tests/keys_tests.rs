use easy_imgui_core::keys::{
    from_imgui_cursor, to_imgui_button, to_imgui_key, CursorIcon, ImMouseButton, Key, KeyCode, MouseButton,
    MouseCursor, PhysicalKey,
};

#[test]
fn keys_map_to_interface_keys() {
    assert_eq!(to_imgui_key(PhysicalKey::Code(KeyCode::KeyA)), Some(Key::A));
    assert_eq!(to_imgui_key(PhysicalKey::Code(KeyCode::Digit7)), Some(Key::Num7));
    assert_eq!(to_imgui_key(PhysicalKey::Code(KeyCode::Quote)), Some(Key::Apostrophe));
    assert_eq!(to_imgui_key(PhysicalKey::Code(KeyCode::NumpadEnter)), Some(Key::KeypadEnter));
    assert_eq!(to_imgui_key(PhysicalKey::Code(KeyCode::Backspace)), Some(Key::Backspace));
    assert_eq!(to_imgui_key(PhysicalKey::Code(KeyCode::NumpadBackspace)), Some(Key::Backspace));
    assert_eq!(to_imgui_key(PhysicalKey::Code(KeyCode::Other)), None);
    assert_eq!(to_imgui_key(PhysicalKey::Unidentified(42)), None);
}

#[test]
fn mouse_buttons_and_cursors() {
    assert_eq!(to_imgui_button(MouseButton::Left), Some(ImMouseButton::Left));
    assert_eq!(to_imgui_button(MouseButton::Middle), Some(ImMouseButton::Middle));
    assert_eq!(to_imgui_button(MouseButton::Other(4)), Some(ImMouseButton::Other(4)));
    assert_eq!(to_imgui_button(MouseButton::Other(5)), None);
    assert_eq!(to_imgui_button(MouseButton::Back), None);
    assert_eq!(from_imgui_cursor(MouseCursor::Hand), Some(CursorIcon::Pointer));
    assert_eq!(from_imgui_cursor(MouseCursor::ResizeAll), Some(CursorIcon::Move));
    assert_eq!(from_imgui_cursor(MouseCursor::Hidden), None);
}
