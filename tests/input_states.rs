use fennec_gfx::input::{Input, INPUT_LEFT, INPUT_RIGHT, INPUT_SHOOT1};

const KEY_LEFT: i32 = 263;
const KEY_RIGHT: i32 = 262;
const KEY_Z: i32 = 90;

fn bound_input() -> Input {
    let mut input = Input::new(11);
    input.bind_key(INPUT_LEFT, Some(KEY_LEFT));
    input.bind_key(INPUT_RIGHT, Some(KEY_RIGHT));
    input.bind_key(INPUT_SHOOT1, Some(KEY_Z));
    input
}

#[test]
fn new_input_is_released() {
    let input = Input::new(3);
    assert_eq!(input.state_count(), 3);
    for idx in 0..3 {
        assert!(!input.state(idx));
        assert!(!input.previous_state(idx));
        assert!(!input.state_changed(idx));
    }
}

#[test]
fn key_sets_every_bound_state() {
    let mut input = bound_input();
    input.bind_key(7, Some(KEY_Z));
    input.set_key_state(KEY_Z, true);
    assert!(input.state(INPUT_SHOOT1));
    assert!(input.state(7));
    assert!(!input.state(INPUT_LEFT));
    input.set_key_state(12345, true);
    assert!(!input.state(INPUT_RIGHT));
}

#[test]
fn unbound_key_changes_nothing() {
    let mut input = bound_input();
    input.bind_key(INPUT_LEFT, None);
    input.set_key_state(KEY_LEFT, true);
    assert!(!input.state(INPUT_LEFT));
}

#[test]
fn press_and_release_are_seen_once() {
    let mut input = bound_input();
    input.set_key_state(KEY_LEFT, true);
    assert!(input.just_pressed(INPUT_LEFT));
    assert!(!input.just_released(INPUT_LEFT));
    input.copy_state_to_previous();
    assert!(input.previous_state(INPUT_LEFT));
    assert!(!input.just_pressed(INPUT_LEFT));
    input.set_key_state(KEY_LEFT, false);
    assert!(input.just_released(INPUT_LEFT));
    assert!(input.state_changed(INPUT_LEFT));
}

#[test]
fn axis_of_two_states() {
    let mut input = bound_input();
    assert_eq!(input.axis_state(INPUT_RIGHT, INPUT_LEFT), 0);
    input.set_state(INPUT_RIGHT, true);
    assert_eq!(input.axis_state(INPUT_RIGHT, INPUT_LEFT), 1);
    input.set_state(INPUT_LEFT, true);
    assert_eq!(input.axis_state(INPUT_RIGHT, INPUT_LEFT), 0);
    input.set_state(INPUT_RIGHT, false);
    assert_eq!(input.axis_state(INPUT_RIGHT, INPUT_LEFT), -1);
}
