use road_intersection::constants::{LINE_SPACING, VEHICLE_SIZE, WINDOW_SIZE};
use road_intersection::direction::Direction;
use road_intersection::geometry::position::{Position, TimedPosition};
use road_intersection::geometry::rect::{Rect, MAX_INT_VALUE, MIN_INT_VALUE};
use road_intersection::geometry::rect_extensions::RectExtensions;
use road_intersection::geometry::spawn::get_spawn_position;
use road_intersection::intersection::turning::get_turning_position;
use road_intersection::intersection::IntersectionBounds;

fn pos(x: i32, y: i32) -> Position {
    Position { x, y }
}

#[test]
fn move_in_each_direction() {
    let p = pos(100, 200);
    assert_eq!(p.move_in_direction(&Direction::Up, 3), pos(100, 197));
    assert_eq!(p.move_in_direction(&Direction::Down, 3), pos(100, 203));
    assert_eq!(p.move_in_direction(&Direction::Left, 3), pos(97, 200));
    assert_eq!(p.move_in_direction(&Direction::Right, 3), pos(103, 200));
}

#[test]
fn move_then_back_returns_to_start() {
    let p = pos(-7, 42);
    for d in [Direction::Up, Direction::Down, Direction::Left, Direction::Right] {
        let q = p.move_in_direction(&d, 5);
        assert_ne!(q, p);
        assert_eq!(q.move_in_direction(&d.opposite(), 5), p);
    }
}

#[test]
fn steps_are_manhattan_distance() {
    let a = pos(10, 20);
    let b = pos(-5, 60);
    assert_eq!(a.calculate_steps_to(&b), 55);
    assert_eq!(b.calculate_steps_to(&a), 55);
    assert_eq!(a.calculate_steps_to(&a), 0);
    let far = pos(i32::MIN, i32::MIN);
    let other = pos(i32::MAX, i32::MAX);
    assert_eq!(far.calculate_steps_to(&other), 2 * (u32::MAX as u64));
}

#[test]
fn steps_after_a_move_equal_the_speed() {
    let p = pos(300, 300);
    let q = p.move_in_direction(&Direction::Left, 7);
    assert_eq!(p.calculate_steps_to(&q), 7);
}

#[test]
fn intersection_square_edges() {
    // The square spans 250..550; a 50-pixel vehicle touching it only by an edge is outside.
    assert!(!pos(200, 300).is_in_intersection());
    assert!(pos(201, 300).is_in_intersection());
    assert!(pos(549, 549).is_in_intersection());
    assert!(!pos(550, 300).is_in_intersection());
    assert!(!pos(300, 200).is_in_intersection());
    assert!(IntersectionBounds::is_position_in_intersection(&pos(400, 400)));
}

#[test]
fn outgoing_lanes() {
    assert!(pos(200, 250).is_out_of_intersection());
    assert!(pos(200, 350).is_out_of_intersection());
    assert!(!pos(200, 400).is_out_of_intersection());
    assert!(pos(550, 400).is_out_of_intersection());
    assert!(!pos(549, 400).is_out_of_intersection());
    assert!(pos(450, 100).is_out_of_intersection());
    assert!(pos(300, 600).is_out_of_intersection());
    assert!(!pos(450, 600).is_out_of_intersection());
    assert!(IntersectionBounds::is_position_out_of_intersection(&pos(250, 550)));
}

#[test]
fn after_turn_matches_column_or_row() {
    assert!(pos(400, 10).is_after_turn(&(Some(400), None)));
    assert!(!pos(399, 10).is_after_turn(&(Some(400), None)));
    assert!(pos(5, 250).is_after_turn(&(None, Some(250))));
    assert!(!pos(5, 250).is_after_turn(&(None, None)));
}

#[test]
fn spawn_positions_per_route() {
    assert_eq!(get_spawn_position(Direction::Up, Direction::Right), pos(350, -50));
    assert_eq!(get_spawn_position(Direction::Up, Direction::Down), pos(300, -50));
    assert_eq!(get_spawn_position(Direction::Up, Direction::Left), pos(250, -50));
    assert_eq!(get_spawn_position(Direction::Left, Direction::Right), pos(-50, 450));
    assert_eq!(get_spawn_position(Direction::Left, Direction::Up), pos(-50, 400));
    assert_eq!(get_spawn_position(Direction::Left, Direction::Down), pos(-50, 500));
    assert_eq!(get_spawn_position(Direction::Down, Direction::Right), pos(500, 800));
    assert_eq!(get_spawn_position(Direction::Down, Direction::Up), pos(450, 800));
    assert_eq!(get_spawn_position(Direction::Down, Direction::Left), pos(400, 800));
    assert_eq!(get_spawn_position(Direction::Right, Direction::Up), pos(800, 250));
    assert_eq!(get_spawn_position(Direction::Right, Direction::Left), pos(800, 300));
    assert_eq!(get_spawn_position(Direction::Right, Direction::Down), pos(800, 350));
}

#[test]
fn spawn_is_just_outside_the_window() {
    let sides = [Direction::Up, Direction::Down, Direction::Left, Direction::Right];
    for a in sides {
        for b in sides {
            if a == b {
                continue;
            }
            let p = get_spawn_position(a, b);
            let r = Rect::new(p.x, p.y, VEHICLE_SIZE, VEHICLE_SIZE);
            assert!(!r.is_in_bounds(WINDOW_SIZE));
            let q = p.move_in_direction(&a.opposite(), 1);
            let r = Rect::new(q.x, q.y, VEHICLE_SIZE, VEHICLE_SIZE);
            assert!(r.is_in_bounds(WINDOW_SIZE));
        }
    }
}

#[test]
fn turning_positions() {
    assert_eq!(get_turning_position(Direction::Up, Direction::Right), (None, Some(400)));
    assert_eq!(get_turning_position(Direction::Up, Direction::Left), (None, Some(250)));
    assert_eq!(get_turning_position(Direction::Left, Direction::Up), (Some(400), None));
    assert_eq!(get_turning_position(Direction::Left, Direction::Down), (Some(250), None));
    assert_eq!(get_turning_position(Direction::Down, Direction::Left), (None, Some(350)));
    assert_eq!(get_turning_position(Direction::Down, Direction::Right), (None, Some(500)));
    assert_eq!(get_turning_position(Direction::Right, Direction::Down), (Some(350), None));
    assert_eq!(get_turning_position(Direction::Right, Direction::Up), (Some(500), None));
}

#[test]
fn straight_routes_have_no_turning_line() {
    assert_eq!(get_turning_position(Direction::Up, Direction::Down), (None, None));
    assert_eq!(get_turning_position(Direction::Down, Direction::Up), (None, None));
    assert_eq!(get_turning_position(Direction::Left, Direction::Right), (None, None));
    assert_eq!(get_turning_position(Direction::Right, Direction::Left), (None, None));
}

#[test]
fn rect_new_clamps() {
    let r = Rect::new(10, 20, 30, 40);
    assert_eq!((r.x(), r.y(), r.width(), r.height()), (10, 20, 30, 40));
    let r = Rect::new(i32::MAX, i32::MIN, 0, u32::MAX);
    assert_eq!(r.x(), MAX_INT_VALUE as i32);
    assert_eq!(r.y(), MIN_INT_VALUE);
    assert_eq!(r.width(), 1);
    assert_eq!(r.height(), MAX_INT_VALUE);
}

#[test]
fn rect_set_position_clamps() {
    let mut r = Rect::new(0, 0, 5, 5);
    r.set_x(-3);
    r.set_y(i32::MAX);
    assert_eq!(r.x(), -3);
    assert_eq!(r.y(), MAX_INT_VALUE as i32);
}

#[test]
fn rect_intersections() {
    let a = Rect::new(0, 0, 10, 10);
    assert!(a.has_intersection(Rect::new(5, 5, 10, 10)));
    assert!(a.has_intersection(a));
    // Sharing an edge is no intersection.
    assert!(!a.has_intersection(Rect::new(10, 0, 10, 10)));
    assert!(!a.has_intersection(Rect::new(0, 10, 10, 10)));
    assert!(!a.has_intersection(Rect::new(20, 20, 1, 1)));
    assert!(Rect::new(5, 5, 10, 10).has_intersection(a));
}

#[test]
fn rect_in_bounds() {
    assert!(Rect::new(0, 0, 50, 50).is_in_bounds(800));
    assert!(Rect::new(-49, 799, 50, 50).is_in_bounds(800));
    assert!(!Rect::new(-50, 0, 50, 50).is_in_bounds(800));
    assert!(!Rect::new(0, 800, 50, 50).is_in_bounds(800));
}

#[test]
fn timed_position_holds_its_fields() {
    let t = TimedPosition { position: pos(1, 2), time: 9 };
    assert_eq!(t.position.x + t.position.y, 3);
    assert_eq!(t.time, 9);
    assert_eq!(LINE_SPACING, 50);
}
