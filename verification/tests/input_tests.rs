use rnk::event_loop::{frame_millis, handle_event, is_ctrl_c, should_render, EventAction, LoopEvent};
use rnk::focus::{FocusIds, FocusManager, UseFocusOptions};
use rnk::input::{Key, KeyCode, KeyPress};
use rnk::mouse::{Mouse, MouseAction, MouseButton};
use rnk::text_input::{TextInputDisplay, TextInputOptions, TextInputState};

fn press(code: KeyCode) -> KeyPress {
    KeyPress { code, ctrl: false, shift: false, alt: false }
}

#[test]
fn test_text_input_state_basic() {
    let mut state = TextInputState::default();
    assert_eq!(state.value(), "");
    assert_eq!(state.cursor, 0);

    state.insert('H');
    state.insert('e');
    state.insert('l');
    state.insert('l');
    state.insert('o');
    assert_eq!(state.value(), "Hello");
    assert_eq!(state.cursor, 5);
}

#[test]
fn test_text_input_state_backspace() {
    let mut state = TextInputState::default();
    state.set_value("Hello");
    state.backspace();
    assert_eq!(state.value(), "Hell");
    assert_eq!(state.cursor, 4);
}

#[test]
fn test_text_input_state_cursor_movement() {
    let mut state = TextInputState::default();
    state.set_value("Hello");
    assert_eq!(state.cursor, 5);

    state.move_left();
    assert_eq!(state.cursor, 4);

    state.move_to_start();
    assert_eq!(state.cursor, 0);

    state.move_right();
    assert_eq!(state.cursor, 1);

    state.move_to_end();
    assert_eq!(state.cursor, 5);
}

#[test]
fn test_text_input_state_insert_middle() {
    let mut state = TextInputState::default();
    state.set_value("Hllo");
    state.cursor = 1;
    state.insert('e');
    assert_eq!(state.value(), "Hello");
    assert_eq!(state.cursor, 2);
}

#[test]
fn test_text_input_state_delete() {
    let mut state = TextInputState::default();
    state.set_value("Hello");
    state.cursor = 0;
    state.delete();
    assert_eq!(state.value(), "ello");
}

#[test]
fn test_text_input_state_unicode() {
    let mut state = TextInputState::default();
    state.insert('你');
    state.insert('好');
    assert_eq!(state.value(), "你好");
    assert_eq!(state.cursor, 2);

    state.backspace();
    assert_eq!(state.value(), "你");
    assert_eq!(state.cursor, 1);
}

#[test]
fn backspace_undoes_insert() {
    let mut state = TextInputState::default();
    state.set_value("abc");
    state.cursor = 1;
    state.insert('x');
    assert_eq!(state.value(), "axbc");
    state.backspace();
    assert_eq!(state.value(), "abc");
    assert_eq!(state.cursor, 1);
}

#[test]
fn cursor_past_end_edits() {
    let mut state = TextInputState::default();
    state.set_value("ab");
    state.cursor = 5;
    state.insert('c');
    assert_eq!(state.value(), "abc");
    assert_eq!(state.cursor, 6);
    state.backspace();
    assert_eq!(state.value(), "ab");
    assert_eq!(state.cursor, 5);
    state.insert_str("xy");
    assert_eq!(state.value(), "abxy");
    state.clear();
    assert_eq!(state.value(), "");
    assert_eq!(state.cursor, 0);
}

#[test]
fn key_handling_of_a_focused_input() {
    let mut state = TextInputState::default();
    let plain = Key::default();
    assert!(state.apply_key("h", &plain, 0));
    assert!(state.apply_key("i", &plain, 0));
    assert_eq!(state.value(), "hi");
    let left = Key::from_press(&press(KeyCode::Left));
    assert!(state.apply_key("", &left, 0));
    assert_eq!(state.cursor, 1);
    let mut ctrl_a = Key::default();
    ctrl_a.ctrl = true;
    assert!(state.apply_key("a", &ctrl_a, 0));
    assert_eq!(state.cursor, 0);
    let mut ctrl_x = Key::default();
    ctrl_x.ctrl = true;
    assert!(!state.apply_key("x", &ctrl_x, 0));
    assert!(state.apply_key("z", &plain, 2));
    assert_eq!(state.value(), "hi");
    assert!(!state.apply_key("", &plain, 0));
    let enter = Key::from_press(&press(KeyCode::Enter));
    assert!(!state.apply_key("", &enter, 0));
}

#[test]
fn input_display() {
    let mut state = TextInputState::default();
    let options = TextInputOptions::new().placeholder("type here");
    match state.display(&options, true) {
        TextInputDisplay::Placeholder(p) => assert_eq!(p, "type here"),
        _ => panic!("expected the placeholder"),
    }
    state.set_value("abc");
    state.cursor = 1;
    match state.display(&options, true) {
        TextInputDisplay::WithCursor { before, cursor, after } => {
            assert_eq!(before, "a");
            assert_eq!(cursor, 'b');
            assert_eq!(after, "c");
        },
        _ => panic!("expected the text with a cursor"),
    }
    let masked = TextInputOptions::new().mask();
    match state.display(&masked, false) {
        TextInputDisplay::Plain(t) => assert_eq!(t, "***"),
        _ => panic!("expected plain text"),
    }
    state.move_to_end();
    match state.display(&TextInputOptions::new(), true) {
        TextInputDisplay::WithCursor { before, cursor, after } => {
            assert_eq!(before, "abc");
            assert_eq!(cursor, ' ');
            assert_eq!(after, "");
        },
        _ => panic!("expected the text with a cursor"),
    }
}

#[test]
fn key_flags_from_press() {
    let k = Key::from_press(&KeyPress { code: KeyCode::Up, ctrl: true, shift: false, alt: true });
    assert!(k.up_arrow && k.ctrl && k.alt && !k.shift && !k.down_arrow);
    assert_eq!(Key::char_from_press(&press(KeyCode::Char('q'))), "q");
    assert_eq!(Key::char_from_press(&press(KeyCode::Tab)), "");
}

#[test]
fn test_focus_manager_auto_focus() {
    let mut fm = FocusManager::new();
    let mut ids = FocusIds::new();
    let id1 = fm.register(&mut ids, None, true, true);
    let _id2 = fm.register(&mut ids, None, true, false);
    assert!(fm.is_focused(id1));
}

#[test]
fn test_focus_navigation() {
    let mut fm = FocusManager::new();
    let mut ids = FocusIds::new();
    let id1 = fm.register(&mut ids, None, true, true);
    let id2 = fm.register(&mut ids, None, true, false);
    let id3 = fm.register(&mut ids, None, true, false);

    assert!(fm.is_focused(id1));

    fm.focus_next();
    assert!(fm.is_focused(id2));

    fm.focus_next();
    assert!(fm.is_focused(id3));

    fm.focus_next();
    assert!(fm.is_focused(id1));

    fm.focus_previous();
    assert!(fm.is_focused(id3));
}

#[test]
fn test_focus_by_id() {
    let mut fm = FocusManager::new();
    let mut ids = FocusIds::new();
    let _id1 = fm.register(&mut ids, Some("first".to_string()), true, true);
    let id2 = fm.register(&mut ids, Some("second".to_string()), true, false);

    fm.focus("second");
    assert!(fm.is_focused(id2));
}

#[test]
fn test_inactive_elements_skipped() {
    let mut fm = FocusManager::new();
    let mut ids = FocusIds::new();
    let id1 = fm.register(&mut ids, None, true, true);
    let _id2 = fm.register(&mut ids, None, false, false);
    let id3 = fm.register(&mut ids, None, true, false);

    assert!(fm.is_focused(id1));

    fm.focus_next();
    assert!(fm.is_focused(id3));
}

#[test]
fn focus_next_then_previous_returns() {
    let mut fm = FocusManager::new();
    let mut ids = FocusIds::new();
    let a = fm.register(&mut ids, None, true, false);
    let b = fm.register(&mut ids, None, false, false);
    let c = fm.register(&mut ids, None, true, true);
    assert!(fm.is_focused(c));
    fm.focus_next();
    assert!(fm.is_focused(a));
    fm.focus_previous();
    assert!(fm.is_focused(c));
    fm.enable_focus(b, true);
    fm.focus_previous();
    assert!(fm.is_focused(b));
    fm.unregister(b);
    assert!(!fm.is_focused(b));
    fm.focus("missing");
    fm.clear();
    assert!(!fm.is_focused(a));
}

#[test]
fn focus_options_builders() {
    let o = UseFocusOptions::new().auto_focus().is_active(false).id("name");
    assert!(o.auto_focus);
    assert!(!o.is_active);
    assert_eq!(o.id, Some("name".to_string()));
    let d = UseFocusOptions::default();
    assert!(d.is_active);
    assert!(!d.auto_focus);
    assert!(UseFocusOptions::new().is_active);
}

#[test]
fn test_mouse_action_from_event() {
    let _left = MouseButton::Left;
    let _right = MouseButton::Right;
    let _action = MouseAction::Press(MouseButton::Left);
}

#[test]
fn test_mouse_is_click() {
    let mouse = Mouse {
        x: 10,
        y: 5,
        action: MouseAction::Press(MouseButton::Left),
        ctrl: false,
        shift: false,
        alt: false,
    };
    assert!(mouse.is_click());
    assert!(mouse.is_left_click());
    assert!(!mouse.is_right_click());
}

#[test]
fn test_mouse_scroll_delta() {
    let scroll_up = Mouse { x: 0, y: 0, action: MouseAction::ScrollUp, ctrl: false, shift: false, alt: false };
    assert_eq!(scroll_up.scroll_delta(), (0, -1));

    let scroll_down = Mouse { x: 0, y: 0, action: MouseAction::ScrollDown, ctrl: false, shift: false, alt: false };
    assert_eq!(scroll_down.scroll_delta(), (0, 1));
}

#[test]
fn mouse_scroll_sideways_and_moves() {
    let left = Mouse { x: 0, y: 0, action: MouseAction::ScrollLeft, ctrl: false, shift: false, alt: false };
    assert_eq!(left.scroll_delta(), (-1, 0));
    assert!(left.is_scroll());
    let moved = Mouse { x: 0, y: 0, action: MouseAction::Move, ctrl: false, shift: false, alt: false };
    assert_eq!(moved.scroll_delta(), (0, 0));
    assert!(!moved.is_click());
}

#[test]
fn event_loop_decisions() {
    let ctrl_c = KeyPress { code: KeyCode::Char('c'), ctrl: true, shift: false, alt: false };
    assert!(is_ctrl_c(&ctrl_c));
    assert_eq!(handle_event(true, &LoopEvent::Key(ctrl_c)), EventAction::Exit);
    assert_eq!(handle_event(false, &LoopEvent::Key(ctrl_c)), EventAction::DispatchKey);
    assert_eq!(handle_event(true, &LoopEvent::Key(press(KeyCode::Char('c')))), EventAction::DispatchKey);
    assert_eq!(handle_event(true, &LoopEvent::Mouse), EventAction::DispatchMouse);
    assert_eq!(handle_event(true, &LoopEvent::Resize), EventAction::Render);
    assert_eq!(handle_event(true, &LoopEvent::Other), EventAction::Ignore);
    assert_eq!(frame_millis(60), 16);
    assert!(should_render(true, 16_000_000, 16));
    assert!(!should_render(true, 15_999_999, 16));
    assert!(!should_render(false, 99_000_000, 16));
}

#[test]
fn test_key_from_event() {
    let key = Key::from_press(&press(KeyCode::Up));
    assert!(key.up_arrow);
    assert!(!key.down_arrow);
    assert!(!key.ctrl);
}

#[test]
fn test_key_with_modifiers() {
    let key = Key::from_press(&KeyPress { code: KeyCode::Char('c'), ctrl: true, shift: false, alt: false });
    assert!(key.ctrl);
    assert!(!key.shift);
}

#[test]
fn test_char_from_event() {
    assert_eq!(Key::char_from_press(&press(KeyCode::Char('a'))), "a");
    assert_eq!(Key::char_from_press(&press(KeyCode::Enter)), "");
}

#[test]
fn focus_ids_count_from_zero() {
    let mut manager = FocusManager::new();
    let mut ids = FocusIds::new();
    assert_eq!(manager.register(&mut ids, None, true, false), 0);
    assert_eq!(manager.register(&mut ids, Some("b".to_string()), true, false), 1);
}

#[test]
fn text_input_options_are_focusable_by_default() {
    let o = TextInputOptions::new();
    assert_eq!(o.mask_char, '*');
    assert!(o.focus.is_active);
    assert!(!o.focus.auto_focus);
    assert!(!o.mask);
    assert_eq!(o.max_length, 0);
    assert!(o.placeholder.is_none());
    assert!(TextInputOptions::default().focus.is_active);
}

#[test]
fn test_focus_manager_registration() {
    let mut fm = FocusManager::new();
    let mut ids = FocusIds::new();
    let id1 = fm.register(&mut ids, None, true, false);
    let id2 = fm.register(&mut ids, None, true, false);
    assert!(id1 != id2);
    assert_eq!(fm.len(), 2);
}

#[test]
fn registered_ids_stay_fresh_across_unregistration() {
    let mut fm = FocusManager::new();
    let mut ids = FocusIds::new();
    let a = fm.register(&mut ids, None, true, false);
    let b = fm.register(&mut ids, None, true, false);
    fm.unregister(a);
    let c = fm.register(&mut ids, None, true, false);
    assert!(c != a && c != b);
    assert_eq!(fm.len(), 2);
}
