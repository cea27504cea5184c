use road_intersection::compass::Direction;
use road_intersection::input::{InputAction, Key, KeyEvent, KeyboardState};

fn down(key: Key) -> KeyEvent {
    KeyEvent::KeyDown { key, repeat: false }
}

#[test]
fn starts_idle() {
    let s = KeyboardState::new();
    assert!(!s.is_continuous_spawn());
    assert!(!s.is_debug_mode());
    assert!(!s.is_grid_shown());
    assert!(!s.is_any_movement_key_pressed());
    assert!(s.get_pressed_keys().is_empty());
}

#[test]
fn arrows_spawn_when_allowed() {
    let mut s = KeyboardState::new();
    assert_eq!(s.process_event(&down(Key::Up), true), InputAction::SpawnVehicle(Direction::North));
    assert_eq!(s.process_event(&down(Key::Left), false), InputAction::NoAction);
    assert_eq!(s.get_direction(), Direction::East);
    assert_eq!(s.process_event(&down(Key::Right), true), InputAction::SpawnVehicle(Direction::West));
    assert_eq!(s.process_event(&down(Key::Down), true), InputAction::SpawnVehicle(Direction::South));
    assert!(s.is_any_movement_key_pressed());
    assert_eq!(
        s.get_pressed_keys(),
        vec![Direction::North, Direction::South, Direction::East, Direction::West]
    );
    assert_eq!(s.process_event(&KeyEvent::KeyUp { key: Key::Up }, true), InputAction::NoAction);
    assert_eq!(s.get_pressed_keys(), vec![Direction::South, Direction::East, Direction::West]);
}

#[test]
fn repeats_are_ignored() {
    let mut s = KeyboardState::new();
    let before = s;
    let e = KeyEvent::KeyDown { key: Key::Up, repeat: true };
    assert_eq!(s.process_event(&e, true), InputAction::NoAction);
    assert_eq!(s, before);
}

#[test]
fn toggles_report_their_new_value() {
    let mut s = KeyboardState::new();
    assert_eq!(s.process_event(&down(Key::R), true), InputAction::ToggleContinuousSpawn(true));
    assert!(s.is_continuous_spawn());
    assert_eq!(s.process_event(&down(Key::R), true), InputAction::ToggleContinuousSpawn(false));
    assert_eq!(s.process_event(&down(Key::D), true), InputAction::ToggleDebugMode(true));
    assert!(s.is_debug_mode());
    assert_eq!(s.process_event(&down(Key::G), true), InputAction::ToggleGrid(true));
    assert_eq!(s.process_event(&down(Key::G), true), InputAction::ToggleGrid(false));
    assert!(!s.is_grid_shown());
}

#[test]
fn other_keys() {
    let mut s = KeyboardState::new();
    assert_eq!(s.process_event(&down(Key::Space), true), InputAction::ShowStatistics);
    assert_eq!(s.process_event(&down(Key::Escape), true), InputAction::Exit);
    assert_eq!(s.process_event(&down(Key::H), true), InputAction::ShowHelp);
    assert_eq!(s.process_event(&down(Key::P), true), InputAction::TogglePause);
    assert_eq!(s.process_event(&down(Key::Other), true), InputAction::NoAction);
    assert_eq!(s.process_event(&KeyEvent::Other, true), InputAction::NoAction);
    assert_eq!(s, KeyboardState::new());
}

#[test]
fn random_direction_without_an_arrow() {
    let s = KeyboardState::new();
    let mut seen = Vec::new();
    for _ in 0..400 {
        let d = s.get_direction();
        if !seen.contains(&d) {
            seen.push(d);
        }
    }
    assert_eq!(seen.len(), 4);
}
