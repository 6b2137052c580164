use game_of_life::input::{handle_input, InputEvent, InputHandler, PlayerActions};

const KEY_R: u32 = 114;
const KEY_N: u32 = 110;
const MOUSE_LEFT: u32 = 0;
const MOUSE_RIGHT: u32 = 1;

fn mapped_handler() -> InputHandler {
    let mut h = InputHandler::new();
    h.add_mapping(KEY_R, PlayerActions::RunSimulation);
    h.add_mapping(KEY_N, PlayerActions::NextStep);
    h.add_click_mapping(MOUSE_LEFT, PlayerActions::ToggleTile);
    h.add_click_mapping(MOUSE_RIGHT, PlayerActions::CountNeightbours);
    h
}

#[test]
fn unmapped_codes_are_idle() {
    let h = InputHandler::new();
    assert_eq!(h.handle_keyboard(KEY_R), PlayerActions::Idle);
    assert_eq!(h.handle_mouse(MOUSE_LEFT), PlayerActions::Idle);
}

#[test]
fn keyboard_mappings_answer_lookups() {
    let h = mapped_handler();
    assert_eq!(h.handle_keyboard(KEY_R), PlayerActions::RunSimulation);
    assert_eq!(h.handle_keyboard(KEY_N), PlayerActions::NextStep);
    assert_eq!(h.handle_keyboard(7), PlayerActions::Idle);
}

#[test]
fn mouse_mappings_answer_lookups() {
    let h = mapped_handler();
    assert_eq!(h.handle_mouse(MOUSE_LEFT), PlayerActions::ToggleTile);
    assert_eq!(h.handle_mouse(MOUSE_RIGHT), PlayerActions::CountNeightbours);
    assert_eq!(h.handle_mouse(2), PlayerActions::Idle);
}

#[test]
fn tables_are_independent() {
    let h = mapped_handler();
    // A key code that doubles as a button code hits only its own table.
    assert_eq!(h.handle_keyboard(MOUSE_LEFT), PlayerActions::Idle);
    assert_eq!(h.handle_mouse(KEY_R), PlayerActions::Idle);
}

#[test]
fn later_mapping_overrides_earlier() {
    let mut h = mapped_handler();
    h.add_mapping(KEY_R, PlayerActions::ToggleTile);
    assert_eq!(h.handle_keyboard(KEY_R), PlayerActions::ToggleTile);
    assert_eq!(h.handle_keyboard(KEY_N), PlayerActions::NextStep);
}

#[test]
fn handle_input_dispatches_by_event_kind() {
    let h = mapped_handler();
    assert_eq!(
        handle_input(&h, InputEvent::Keyboard(KEY_N)),
        PlayerActions::NextStep
    );
    assert_eq!(
        handle_input(&h, InputEvent::Mouse(MOUSE_RIGHT)),
        PlayerActions::CountNeightbours
    );
    assert_eq!(handle_input(&h, InputEvent::Other), PlayerActions::Idle);
}
