use road_intersection::compass::{Direction, Route};
use road_intersection::smart_algorithm::reservations::SmartIntersectionManager;
use road_intersection::smart_algorithm::{GridCoord, IntersectionGrid, IntersectionZone};

fn gc(x: i32, y: i32) -> GridCoord {
    GridCoord { x, y }
}

#[test]
fn grid_over_the_window() {
    let g = IntersectionGrid::new(800, 600);
    assert_eq!((g.grid_width, g.grid_height), (25, 18));
    assert_eq!(g.intersection_center, gc(12, 9));
    assert_eq!(g.intersection_radius, 6);
    assert_eq!(g.pixel_to_grid(100, 70), gc(3, 2));
    assert_eq!(g.pixel_to_grid(-40, -1), gc(-1, 0));
}

#[test]
fn distance_is_rounded_down() {
    let g = IntersectionGrid::new(800, 800);
    assert_eq!(g.distance_to_intersection_center(gc(12, 12)), 0);
    assert_eq!(g.distance_to_intersection_center(gc(15, 16)), 5);
    assert_eq!(g.distance_to_intersection_center(gc(13, 13)), 1);
    assert_eq!(g.distance_to_intersection_center(gc(0, 0)), 16);
}

#[test]
fn zones() {
    let g = IntersectionGrid::new(800, 800);
    let c = g.intersection_center;
    assert_eq!(g.get_intersection_zone(c, &Direction::North), IntersectionZone::Clear);
    assert_eq!(g.get_intersection_zone(gc(12, 14), &Direction::North), IntersectionZone::Exit);
    assert_eq!(g.get_intersection_zone(gc(12, 17), &Direction::North), IntersectionZone::Core);
    assert_eq!(g.get_intersection_zone(gc(12, 20), &Direction::North), IntersectionZone::Core);
    assert_eq!(g.get_intersection_zone(gc(12, 21), &Direction::North), IntersectionZone::Entry);
    assert_eq!(g.get_intersection_zone(gc(12, 13), &Direction::North), IntersectionZone::Clear);
    // Beyond the entry ring, a cell is approached when it lies up to 8 cells before the
    // edge measured by the heading: for north, the row of the disc's bottom edge, 18.
    assert_eq!(g.get_intersection_zone(gc(0, 12), &Direction::North), IntersectionZone::Approach);
    assert_eq!(g.get_intersection_zone(gc(0, 9), &Direction::North), IntersectionZone::Clear);
    assert_eq!(g.get_intersection_zone(gc(12, 24), &Direction::North), IntersectionZone::Clear);
    assert_eq!(g.get_intersection_zone(gc(12, 24), &Direction::South), IntersectionZone::Clear);
    assert_eq!(g.get_intersection_zone(gc(24, 12), &Direction::West), IntersectionZone::Clear);
    assert_eq!(g.get_intersection_zone(gc(0, 12), &Direction::East), IntersectionZone::Clear);
}

#[test]
fn lanes_and_next_cells() {
    let g = IntersectionGrid::new(800, 800);
    assert_eq!(g.get_lane_x_for_direction(Direction::North, 1), 10);
    assert_eq!(g.get_lane_x_for_direction(Direction::South, 1), 14);
    assert_eq!(g.get_lane_x_for_direction(Direction::East, 1), 12);
    assert_eq!(g.get_lane_y_for_direction(Direction::East, 2), 11);
    assert_eq!(g.get_lane_y_for_direction(Direction::West, 2), 13);
    assert_eq!(
        g.get_next_coordinates((64, 64), Direction::East, 3),
        vec![gc(3, 2), gc(4, 2), gc(5, 2)]
    );
    assert_eq!(g.get_next_coordinates((64, 64), Direction::North, 2), vec![gc(2, 1), gc(2, 0)]);
}

#[test]
fn vehicle_paths() {
    let g = IntersectionGrid::new(800, 800);
    let p = g.calculate_vehicle_path(Direction::North, Route::Straight, 0);
    assert_eq!(p.len(), 13);
    assert_eq!(p[0], gc(9, 6));
    assert_eq!(p[12], gc(9, 18));
    let p = g.calculate_vehicle_path(Direction::West, Route::Straight, 1);
    assert_eq!(p.len(), 13);
    assert_eq!(p[0], gc(6, 14));
    let p = g.calculate_vehicle_path(Direction::North, Route::Right, 2);
    // Up the column from two cells above the center, then along the exit row.
    assert_eq!(p.len(), 9 + 8);
    assert_eq!(p[0], gc(11, 10));
    assert_eq!(p[8], gc(11, 18));
    assert_eq!(p[9], gc(11, 11));
    assert_eq!(p[16], gc(18, 11));
    assert_eq!(g.calculate_vehicle_path(Direction::South, Route::Left, 0), vec![gc(12, 12)]);
}

#[test]
fn reservations_granted_by_priority() {
    let mut m = SmartIntersectionManager::new(800, 800);
    assert_eq!(m.get_statistics(), (0, 0, 0));
    // Two vehicles crossing the same center cell: the higher priority goes first.
    m.request_intersection_passage(1, Direction::South, Route::Left, 0, 2000, 10);
    m.request_intersection_passage(2, Direction::East, Route::Left, 0, 2000, 50);
    assert_eq!(m.get_statistics(), (0, 0, 2));
    let granted = m.process_reservation_requests();
    assert_eq!(granted, 1);
    assert_eq!(m.reservation_of(gc(12, 12)), Some((2, 3000)));
    assert!(m.has_reservation(2));
    assert!(!m.has_reservation(1));
    assert_eq!(m.get_statistics(), (0, 1, 1));
    assert!(m.has_valid_reservation(2, gc(12, 12)));
    assert!(!m.has_valid_reservation(1, gc(12, 12)));
    // Vehicle 1 asks again after its retry delay; cell still held until 3000.
    assert_eq!(m.update(400), 0);
    assert_eq!(m.get_statistics(), (0, 1, 1));
    // Once the reservation ends it is released and vehicle 1 gets the cell, for the times
    // of its last retry (asked at 400).
    assert_eq!(m.update(2600), 1);
    assert_eq!(m.reservation_of(gc(12, 12)), Some((1, 400 + 500 + 320)));
    assert_eq!(m.get_statistics(), (0, 1, 0));
}

#[test]
fn equal_priorities_keep_their_order() {
    let mut m = SmartIntersectionManager::new(800, 800);
    m.request_intersection_passage(4, Direction::South, Route::Left, 0, 100, 7);
    m.request_intersection_passage(5, Direction::North, Route::Left, 0, 100, 7);
    assert_eq!(m.process_reservation_requests(), 1);
    assert!(m.has_reservation(4));
    assert!(!m.has_reservation(5));
}

#[test]
fn own_cells_and_released_cells_are_free() {
    let mut m = SmartIntersectionManager::new(800, 800);
    m.request_intersection_passage(4, Direction::North, Route::Straight, 0, 100, 1);
    assert_eq!(m.process_reservation_requests(), 1);
    m.request_intersection_passage(4, Direction::North, Route::Straight, 0, 100, 1);
    assert_eq!(m.process_reservation_requests(), 1);
    m.clear_vehicle_reservations(4);
    assert!(!m.has_reservation(4));
    assert_eq!(m.get_statistics(), (0, 0, 0));
}

#[test]
fn checks_ahead() {
    let mut m = SmartIntersectionManager::new(800, 800);
    m.request_intersection_passage(9, Direction::South, Route::Left, 0, 100, 1);
    assert_eq!(m.process_reservation_requests(), 1);
    // Vehicle 3 stands two cells below the center, heading north.
    let at = (12 * 32 + 5, 14 * 32 + 5);
    assert!(m.is_intersection_clear_ahead(3, at, Direction::North));
    assert!(m.maintain_following_distance(3, at, Direction::North));
    assert!(!m.can_proceed_to_intersection(3, at, Direction::North));
    assert!(m.can_proceed_to_intersection(9, at, Direction::North));
    assert!(!m.maintain_following_distance(3, at, Direction::South));
    m.cleanup_expired_reservations();
    assert!(m.has_reservation(9));
    assert_eq!(m.update(5000), 0);
    assert!(!m.has_reservation(9));
}
