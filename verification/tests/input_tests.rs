use walrust::input::{InputAction, InputState, WindowEvent};
use walrust::keyboard::Keyboard;
use walrust::mouse::Mouse;

const KEY_A: i32 = 65;
const KEY_B: i32 = 66;
const BUTTON_LEFT: i32 = 0;

#[test]
fn press_shows_edge_before_update() {
    let mut kb = Keyboard::new();
    kb.process_event(&WindowEvent::Key(KEY_A, InputAction::Press));
    assert!(kb.get_key(KEY_A));
    assert!(kb.get_key_down(KEY_A));
    assert!(!kb.get_key_up(KEY_A));
}

#[test]
fn edge_clears_after_update() {
    let mut kb = Keyboard::new();
    kb.process_event(&WindowEvent::Key(KEY_A, InputAction::Press));
    kb.update();
    assert!(kb.get_key(KEY_A));
    assert!(!kb.get_key_down(KEY_A));
    assert!(!kb.get_key_up(KEY_A));
}

#[test]
fn release_shows_up_edge() {
    let mut kb = Keyboard::new();
    kb.process_event(&WindowEvent::Key(KEY_A, InputAction::Press));
    kb.update();
    kb.process_event(&WindowEvent::Key(KEY_A, InputAction::Release));
    assert!(!kb.get_key(KEY_A));
    assert!(kb.get_key_up(KEY_A));
    assert!(!kb.get_key_down(KEY_A));
}

#[test]
fn repeated_presses_in_one_frame_collapse_to_one_edge() {
    let mut kb = Keyboard::new();
    kb.process_event(&WindowEvent::Key(KEY_A, InputAction::Press));
    kb.process_event(&WindowEvent::Key(KEY_A, InputAction::Repeat));
    kb.process_event(&WindowEvent::Key(KEY_A, InputAction::Press));
    assert!(kb.get_key_down(KEY_A));
    kb.update();
    assert!(!kb.get_key_down(KEY_A));
    assert!(kb.get_key(KEY_A));
}

#[test]
fn repeat_counts_as_held() {
    let mut kb = Keyboard::new();
    kb.process_event(&WindowEvent::Key(KEY_A, InputAction::Repeat));
    assert!(kb.get_key(KEY_A));
    assert!(kb.get_key_down(KEY_A));
}

#[test]
fn full_press_cycle_scenario() {
    let mut kb = Keyboard::new();
    kb.process_event(&WindowEvent::Key(KEY_A, InputAction::Press));
    assert!(kb.get_key(KEY_A));
    assert!(kb.get_key_down(KEY_A));
    kb.update();
    assert!(kb.get_key(KEY_A));
    assert!(!kb.get_key_down(KEY_A));
    kb.process_event(&WindowEvent::Key(KEY_A, InputAction::Release));
    assert!(!kb.get_key(KEY_A));
    assert!(kb.get_key_up(KEY_A));
}

#[test]
fn down_and_up_are_never_both_true() {
    let mut kb = Keyboard::new();
    let actions = [
        InputAction::Press,
        InputAction::Repeat,
        InputAction::Release,
        InputAction::Press,
        InputAction::Release,
    ];
    for (i, a) in actions.iter().enumerate() {
        kb.process_event(&WindowEvent::Key(KEY_A, *a));
        assert!(!(kb.get_key_down(KEY_A) && kb.get_key_up(KEY_A)));
        if i % 2 == 0 {
            kb.update();
            assert!(!(kb.get_key_down(KEY_A) && kb.get_key_up(KEY_A)));
        }
    }
}

#[test]
fn unobserved_identifier_answers_false() {
    let mut kb = Keyboard::new();
    kb.process_event(&WindowEvent::Key(KEY_A, InputAction::Press));
    kb.process_event(&WindowEvent::MouseButton(KEY_B, InputAction::Press));
    kb.update();
    assert!(!kb.get_key(KEY_B));
    assert!(!kb.get_key_down(KEY_B));
    assert!(!kb.get_key_up(KEY_B));
}

#[test]
fn update_twice_is_idempotent() {
    let mut kb = Keyboard::new();
    kb.process_event(&WindowEvent::Key(KEY_A, InputAction::Press));
    kb.process_event(&WindowEvent::Key(KEY_B, InputAction::Release));
    kb.update();
    let before = (
        kb.get_key(KEY_A),
        kb.get_key_down(KEY_A),
        kb.get_key_up(KEY_A),
        kb.get_key(KEY_B),
        kb.get_key_down(KEY_B),
        kb.get_key_up(KEY_B),
    );
    kb.update();
    let after = (
        kb.get_key(KEY_A),
        kb.get_key_down(KEY_A),
        kb.get_key_up(KEY_A),
        kb.get_key(KEY_B),
        kb.get_key_down(KEY_B),
        kb.get_key_up(KEY_B),
    );
    assert_eq!(before, after);
}

#[test]
fn keyboard_first_press_is_an_edge() {
    let mut kb = Keyboard::new();
    kb.process_event(&WindowEvent::Key(KEY_A, InputAction::Press));
    assert!(kb.get_key_down(KEY_A));
}

#[test]
fn mouse_first_press_is_not_an_edge() {
    let mut m = Mouse::new();
    m.process_event(&WindowEvent::MouseButton(BUTTON_LEFT, InputAction::Press));
    assert!(m.get_button(BUTTON_LEFT));
    assert!(!m.get_button_down(BUTTON_LEFT));
}

#[test]
fn mouse_second_press_after_release_is_an_edge() {
    let mut m = Mouse::new();
    m.process_event(&WindowEvent::MouseButton(BUTTON_LEFT, InputAction::Press));
    m.update();
    m.process_event(&WindowEvent::MouseButton(BUTTON_LEFT, InputAction::Release));
    m.update();
    m.process_event(&WindowEvent::MouseButton(BUTTON_LEFT, InputAction::Press));
    assert!(m.get_button_down(BUTTON_LEFT));
}

#[test]
fn mouse_release_shows_up_edge() {
    let mut m = Mouse::new();
    m.process_event(&WindowEvent::MouseButton(BUTTON_LEFT, InputAction::Press));
    m.update();
    m.process_event(&WindowEvent::MouseButton(BUTTON_LEFT, InputAction::Release));
    assert!(m.get_button_up(BUTTON_LEFT));
    assert!(!m.get_button(BUTTON_LEFT));
}

#[test]
fn cursor_moves_overwrite_position_wholesale() {
    let mut m = Mouse::new();
    assert_eq!(m.position(), (0, 0));
    m.process_event(&WindowEvent::CursorPos(100, 200));
    assert_eq!(m.position(), (100, 200));
    m.process_event(&WindowEvent::CursorPos(7, 9));
    assert_eq!(m.position(), (7, 9));
}

#[test]
fn cursor_moves_do_not_touch_buttons() {
    let mut m = Mouse::new();
    m.process_event(&WindowEvent::MouseButton(BUTTON_LEFT, InputAction::Press));
    m.update();
    m.process_event(&WindowEvent::CursorPos(3, 4));
    assert!(m.get_button(BUTTON_LEFT));
    assert!(!m.get_button_down(BUTTON_LEFT));
    assert!(!m.get_button_up(BUTTON_LEFT));
}

#[test]
fn button_events_do_not_touch_position() {
    let mut m = Mouse::new();
    m.process_event(&WindowEvent::CursorPos(11, 12));
    m.process_event(&WindowEvent::MouseButton(BUTTON_LEFT, InputAction::Press));
    assert_eq!(m.position(), (11, 12));
}

#[test]
fn unknown_events_are_ignored() {
    let mut kb = Keyboard::new();
    let mut m = Mouse::new();
    kb.process_event(&WindowEvent::Other);
    m.process_event(&WindowEvent::Other);
    assert!(!kb.get_key(KEY_A));
    assert!(!m.get_button(BUTTON_LEFT));
    assert_eq!(m.position(), (0, 0));
}

#[test]
fn tracker_core_seeds_previous_as_asked() {
    let mut s = InputState::new();
    s.set_state(5, true, false);
    assert!(s.get(5));
    assert!(s.get_down(5));
    let mut t = InputState::new();
    t.set_state(5, true, true);
    assert!(t.get(5));
    assert!(!t.get_down(5));
}

#[test]
fn tracker_core_overwrites_current_only() {
    let mut s = InputState::new();
    s.set_state(5, true, false);
    s.advance();
    s.set_state(5, false, false);
    assert!(!s.get(5));
    assert!(s.get_up(5));
    s.set_state(5, true, false);
    assert!(s.get(5));
    assert!(!s.get_down(5));
}
