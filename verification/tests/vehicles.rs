use road_intersection::direction::{Direction, TurnDirection};
use road_intersection::geometry::position::{Position, TimedPosition};
use road_intersection::geometry::rect::Rect;
use road_intersection::geometry::rect_extensions::RectExtensions;
use road_intersection::vehicles::collision_detector::{index_of_time, CollisionDetector};
use road_intersection::vehicles::collision_resolver::CollisionResolver;
use road_intersection::vehicles::path_calculator::PathCalculator;
use road_intersection::vehicles::vehicle_data::{Color, Vehicle};

fn pos(x: i32, y: i32) -> Position {
    Position { x, y }
}

fn alone(initial: Direction, target: Direction, id: usize) -> Vehicle {
    Vehicle::new(initial, target, 50, &Vec::new(), id).expect("a path on an empty road")
}

fn assert_consecutive_ticks(path: &[TimedPosition], first: u64) {
    for (i, tp) in path.iter().enumerate() {
        assert_eq!(tp.time, first + i as u64);
    }
}

#[test]
fn straight_path_on_empty_road() {
    let v = alone(Direction::Up, Direction::Down, 0);
    assert_eq!(v.id, 0);
    assert_eq!((v.rect.x(), v.rect.y()), (300, -50));
    assert_eq!((v.rect.width(), v.rect.height()), (50, 50));
    assert_eq!(v.start_direction, Direction::Down);
    assert_eq!(v.turn_direction, TurnDirection::Straight);
    assert_eq!(v.turn_position, (None, None));
    assert_eq!(v.rotation, 0);
    assert!(v.texture_index < 3);
    assert_eq!(v.color.a, 255);
    assert!((1..=3).contains(&v.get_velocity_type()));
    // Two pixels a tick down to the outgoing lanes at y = 550, then three.
    assert_eq!(v.path.len(), 383);
    assert_eq!(v.path[0], TimedPosition { position: pos(300, -46), time: 1 });
    assert_eq!(v.path[298].position, pos(300, 550));
    assert_eq!(v.path[299].position, pos(300, 553));
    assert_eq!(v.path[382], TimedPosition { position: pos(300, 802), time: 383 });
    assert_consecutive_ticks(&v.path, 1);
}

#[test]
fn turning_path_on_empty_road() {
    let v = alone(Direction::Up, Direction::Right, 3);
    assert_eq!(v.turn_direction, TurnDirection::Left);
    assert_eq!(v.turn_position, (None, Some(400)));
    assert_eq!((v.rect.x(), v.rect.y()), (350, -50));
    assert_eq!(v.path[223].position, pos(350, 400));
    assert_eq!(v.path[224].position, pos(352, 400));
    assert_eq!(v.path[323].position, pos(550, 400));
    assert_eq!(v.path[324].position, pos(553, 400));
    assert_eq!(v.path.len(), 408);
    assert_eq!(v.path[407].position, pos(802, 400));
    assert_consecutive_ticks(&v.path, 1);
}

#[test]
fn every_route_leaves_the_window() {
    let sides = [Direction::Up, Direction::Down, Direction::Left, Direction::Right];
    for a in sides {
        for b in sides {
            if a == b {
                continue;
            }
            let v = alone(a, b, 1);
            let last = v.path.last().unwrap().position;
            let r = Rect::new(last.x, last.y, 50, 50);
            assert!(!r.is_in_bounds(800));
            assert_consecutive_ticks(&v.path, 1);
        }
    }
}

#[test]
fn second_vehicle_on_the_same_lane_waits() {
    let first = alone(Direction::Left, Direction::Right, 0);
    let others = vec![first];
    let second = Vehicle::new(Direction::Left, Direction::Right, 50, &others, 1).unwrap();
    assert_eq!(second.path[0].time, others[0].path[0].time);
    assert_consecutive_ticks(&second.path, 1);
    assert!(second.path.len() > others[0].path.len());
    // It waits on its first position; once it moves it never overlaps the first vehicle
    // at the same tick.
    assert_eq!(second.path[1].position, second.path[0].position);
    for tp in second.path.iter().filter(|tp| tp.position != second.path[0].position) {
        if let Some(k) = index_of_time(&others[0].path, tp.time) {
            let a = Rect::new(tp.position.x, tp.position.y, 50, 50);
            let o = others[0].path[k].position;
            assert!(!a.has_intersection(Rect::new(o.x, o.y, 50, 50)));
        }
    }
}

#[test]
fn update_position_follows_the_path() {
    let mut v = alone(Direction::Right, Direction::Left, 2);
    assert_eq!(v.rotation, 90);
    let n = v.path.len();
    let next = v.path[0].position;
    v.update_position();
    assert_eq!(v.path.len(), n - 1);
    assert_eq!((v.rect.x(), v.rect.y()), (next.x, next.y));
    // It moved left.
    assert_eq!(v.rotation, 270);
    assert!(v.is_in_bounds(800));
}

#[test]
fn update_position_at_end_of_path_stays() {
    let mut v = alone(Direction::Down, Direction::Up, 4);
    while !v.path.is_empty() {
        v.update_position();
    }
    let (x, y, rot) = (v.rect.x(), v.rect.y(), v.rotation);
    v.update_position();
    assert_eq!((v.rect.x(), v.rect.y(), v.rotation), (x, y, rot));
    assert_eq!(rot, 0);
    assert!(!v.is_in_bounds(800));
}

#[test]
fn color_rgb_is_opaque() {
    let c = Color::RGB(1, 2, 3);
    assert_eq!((c.r, c.g, c.b, c.a), (1, 2, 3, 255));
}

#[test]
fn index_of_time_finds_first_entry() {
    let path = vec![
        TimedPosition { position: pos(0, 0), time: 4 },
        TimedPosition { position: pos(1, 0), time: 5 },
        TimedPosition { position: pos(2, 0), time: 5 },
    ];
    assert_eq!(index_of_time(&path, 5), Some(1));
    assert_eq!(index_of_time(&path, 4), Some(0));
    assert_eq!(index_of_time(&path, 6), None);
    assert_eq!(index_of_time(&Vec::new(), 1), None);
}

#[test]
fn relevance_rules() {
    let a = alone(Direction::Up, Direction::Down, 0);
    let same_lane = alone(Direction::Up, Direction::Down, 1);
    let right_turn = alone(Direction::Left, Direction::Down, 2);
    let facing_straight = alone(Direction::Down, Direction::Up, 3);
    let crossing = alone(Direction::Left, Direction::Right, 4);
    let inside = pos(300, 300);
    let outside = pos(300, 0);
    // Same lane: relevant wherever, as long as the other has an entry at that tick.
    assert!(CollisionDetector::is_relevant_for_collision(&a, &same_lane, &outside, &10));
    assert!(!CollisionDetector::is_relevant_for_collision(&a, &same_lane, &outside, &100000));
    // Right turns keep to their lane.
    assert!(!CollisionDetector::is_relevant_for_collision(&a, &right_turn, &inside, &10));
    // Straight routes from facing sides never cross.
    assert!(!CollisionDetector::is_relevant_for_collision(&a, &facing_straight, &inside, &10));
    // Crossing routes matter only inside the intersection.
    assert!(CollisionDetector::is_relevant_for_collision(&a, &crossing, &inside, &10));
    assert!(!CollisionDetector::is_relevant_for_collision(&a, &crossing, &outside, &10));
}

#[test]
fn path_calculator_on_empty_road_matches_vehicle_new() {
    let v = alone(Direction::Down, Direction::Left, 5);
    let start = pos(v.rect.x(), v.rect.y());
    let p = PathCalculator::calculate_path(&v, &start, &Vec::new()).unwrap();
    assert_eq!(p, v.path);
}

#[test]
fn resolve_collision_keeps_ticks() {
    let v = alone(Direction::Up, Direction::Down, 0);
    let mut path: Vec<TimedPosition> = v.path[..250].to_vec();
    let current = path[249].position;
    let blocker = Rect::new(current.x, current.y + 10, 50, 50);
    let before: Vec<u64> = path.iter().map(|tp| tp.time).collect();
    let r = CollisionResolver::resolve_collision(&v, &mut path, &current, &blocker);
    let after: Vec<u64> = path.iter().map(|tp| tp.time).collect();
    assert_eq!(before, after);
    if let Ok(t) = r {
        assert!(path.iter().any(|tp| tp.time == t));
        let last = path.last().unwrap().position;
        assert!(!Rect::new(last.x, last.y, 50, 50).has_intersection(blocker));
    }
}

fn timed(ys: &[i32], first_tick: u64) -> Vec<TimedPosition> {
    ys.iter()
        .enumerate()
        .map(|(i, &y)| TimedPosition { position: pos(300, y), time: first_tick + i as u64 })
        .collect()
}

fn ys_of(path: &[TimedPosition]) -> Vec<i32> {
    path.iter().map(|tp| tp.position.y).collect()
}

#[test]
fn resolve_collision_replays_one_pixel_a_tick() {
    // Two pixels a tick give enough slack: no waiting, the path is replayed one pixel a
    // tick up to the last clear position.
    let v = alone(Direction::Up, Direction::Down, 0);
    let mut path = timed(&[0, 2, 4, 6, 8], 1);
    let blocker = Rect::new(300, 55, 50, 50);
    let r = CollisionResolver::resolve_collision(&v, &mut path, &pos(300, 8), &blocker);
    assert_eq!(r, Ok(5));
    assert_eq!(ys_of(&path), vec![0, 1, 2, 3, 4]);
    assert_consecutive_ticks(&path, 1);
}

#[test]
fn resolve_collision_waits_then_replays() {
    // One pixel a tick leaves no slack: the vehicle waits at its first position for the
    // missing steps, then replays its path.
    let v = alone(Direction::Up, Direction::Down, 0);
    let mut path = timed(&[0, 1, 2, 3, 4], 1);
    let blocker = Rect::new(300, 52, 50, 50);
    let r = CollisionResolver::resolve_collision(&v, &mut path, &pos(300, 4), &blocker);
    assert_eq!(r, Ok(5));
    assert_eq!(ys_of(&path), vec![0, 0, 0, 1, 2]);
    assert_consecutive_ticks(&path, 1);
}

#[test]
fn resolve_collision_returns_last_replayed_tick_in_the_intersection() {
    let v = alone(Direction::Up, Direction::Down, 0);
    let mut path = timed(&[200, 201, 202, 203, 204], 10);
    let blocker = Rect::new(300, 252, 50, 50);
    let r = CollisionResolver::resolve_collision(&v, &mut path, &pos(300, 204), &blocker);
    assert_eq!(r, Ok(13));
    assert_eq!(ys_of(&path), vec![200, 200, 200, 201, 202]);
    assert_consecutive_ticks(&path, 10);
}

