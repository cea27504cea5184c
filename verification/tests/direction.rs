use road_intersection::direction::{Direction, TurnDirection};
use road_intersection::geometry::position::Position;

const SIDES: [Direction; 4] = [Direction::Up, Direction::Down, Direction::Left, Direction::Right];

#[test]
fn opposite_pairs() {
    assert_eq!(Direction::Up.opposite(), Direction::Down);
    assert_eq!(Direction::Down.opposite(), Direction::Up);
    assert_eq!(Direction::Left.opposite(), Direction::Right);
    assert_eq!(Direction::Right.opposite(), Direction::Left);
    for d in SIDES {
        assert_eq!(d.opposite().opposite(), d);
        assert_ne!(d.opposite(), d);
    }
}

#[test]
fn turn_directions() {
    assert_eq!(Direction::turn_direction(Direction::Up, Direction::Left), TurnDirection::Right);
    assert_eq!(Direction::turn_direction(Direction::Up, Direction::Right), TurnDirection::Left);
    assert_eq!(Direction::turn_direction(Direction::Up, Direction::Down), TurnDirection::Straight);
    assert_eq!(Direction::turn_direction(Direction::Left, Direction::Down), TurnDirection::Right);
    assert_eq!(Direction::turn_direction(Direction::Left, Direction::Up), TurnDirection::Left);
    assert_eq!(Direction::turn_direction(Direction::Down, Direction::Right), TurnDirection::Right);
    assert_eq!(Direction::turn_direction(Direction::Right, Direction::Up), TurnDirection::Right);
    assert_eq!(Direction::turn_direction(Direction::Right, Direction::Down), TurnDirection::Left);
    assert_eq!(Direction::turn_direction(Direction::Right, Direction::Right), TurnDirection::Straight);
}

#[test]
fn turn_direction_is_mirrored_by_swapping_sides() {
    for a in SIDES {
        for b in SIDES {
            let there = Direction::turn_direction(a, b);
            let back = Direction::turn_direction(b, a);
            match there {
                TurnDirection::Left => assert_eq!(back, TurnDirection::Right),
                TurnDirection::Right => assert_eq!(back, TurnDirection::Left),
                TurnDirection::Straight => assert_eq!(back, TurnDirection::Straight),
            }
        }
    }
}

#[test]
fn update_direction_on_turning_line() {
    let mut d = Direction::Down;
    d.update_direction(&Direction::Right, &Position { x: 300, y: 399 }, &(None, Some(400)));
    assert_eq!(d, Direction::Down);
    d.update_direction(&Direction::Right, &Position { x: 300, y: 400 }, &(None, Some(400)));
    assert_eq!(d, Direction::Right);
    let mut e = Direction::Right;
    e.update_direction(&Direction::Up, &Position { x: 400, y: 7 }, &(Some(400), None));
    assert_eq!(e, Direction::Up);
    let mut f = Direction::Left;
    f.update_direction(&Direction::Up, &Position { x: 400, y: 7 }, &(None, None));
    assert_eq!(f, Direction::Left);
}

#[test]
fn pick_skips_the_excluded_side() {
    assert_eq!(Direction::pick(None, 0), Direction::Up);
    assert_eq!(Direction::pick(None, 1), Direction::Left);
    assert_eq!(Direction::pick(None, 2), Direction::Down);
    assert_eq!(Direction::pick(None, 3), Direction::Right);
    assert_eq!(Direction::pick(Some(Direction::Left), 0), Direction::Up);
    assert_eq!(Direction::pick(Some(Direction::Left), 1), Direction::Down);
    assert_eq!(Direction::pick(Some(Direction::Left), 2), Direction::Right);
    for e in SIDES {
        let mut seen = Vec::new();
        for i in 0..3 {
            let d = Direction::pick(Some(e), i);
            assert_ne!(d, e);
            assert!(!seen.contains(&d));
            seen.push(d);
        }
    }
}

#[test]
fn random_side_never_the_excluded_one() {
    for e in SIDES {
        let mut seen = Vec::new();
        for _ in 0..300 {
            let d = Direction::new(Some(e));
            assert_ne!(d, e);
            if !seen.contains(&d) {
                seen.push(d);
            }
        }
        // Every other side comes up.
        assert_eq!(seen.len(), 3);
    }
    let mut seen = Vec::new();
    for _ in 0..400 {
        let d = Direction::new(None);
        if !seen.contains(&d) {
            seen.push(d);
        }
    }
    assert_eq!(seen.len(), 4);
}

