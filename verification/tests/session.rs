use road_intersection::direction::Direction;
use road_intersection::input::Key;
use road_intersection::simulation::session::{Session, SessionAction};

#[test]
fn arrows_spawn_and_r_toggles_random_spawning() {
    let mut s = Session::new();
    assert_eq!(s.on_key(Key::Up), SessionAction::Spawn(Direction::Up));
    assert_eq!(s.on_key(Key::Left), SessionAction::Spawn(Direction::Left));
    assert_eq!(s.on_key(Key::R), SessionAction::Nothing);
    assert!(s.random_generation);
    assert_eq!(s.on_key(Key::R), SessionAction::Nothing);
    assert!(!s.random_generation);
    assert_eq!(s.on_key(Key::D), SessionAction::Nothing);
    assert_eq!(s, Session::new());
}

#[test]
fn escape_shows_statistics_then_quits() {
    let mut s = Session::new();
    s.on_key(Key::R);
    assert_eq!(s.on_key(Key::Escape), SessionAction::ShowStatistics);
    assert_eq!(s, Session { show_stats: true, random_generation: false });
    // While the statistics are shown other keys do nothing.
    assert_eq!(s.on_key(Key::Up), SessionAction::Nothing);
    assert_eq!(s.on_key(Key::R), SessionAction::Nothing);
    assert!(!s.random_generation);
    assert_eq!(s.on_key(Key::Escape), SessionAction::Quit);
}
