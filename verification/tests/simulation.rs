use road_intersection::direction::Direction;
use road_intersection::geometry::position::Position;
use road_intersection::simulation::statistics::Statistics;
use road_intersection::simulation::vehicle_manager::VehicleManager;

#[test]
fn statistics_start_empty() {
    let s = Statistics::new();
    assert_eq!(s.vehicles_spawned, vec![0, 0, 0, 0]);
    assert_eq!(s.total_vehicles, 0);
    assert_eq!(s.total_close_calls, 0);
    assert_eq!(s.current_vehicles_in_intersection, 0);
    assert_eq!(s.max_vehicles_in_intersection, 0);
    assert_eq!(s.vehicle_counter, 0);
    assert!(s.can_add_vehicle());
}

#[test]
fn ids_are_given_in_order() {
    let mut s = Statistics::new();
    assert_eq!(s.add_vehicle(Direction::Up), 0);
    assert_eq!(s.add_vehicle(Direction::Up), 1);
    assert_eq!(s.add_vehicle(Direction::Right), 2);
    assert_eq!(s.spawned_from(Direction::Up), 2);
    assert_eq!(s.spawned_from(Direction::Right), 1);
    assert_eq!(s.spawned_from(Direction::Down), 0);
    assert_eq!(s.total_vehicles, 3);
    assert_eq!(s.in_intersection.get(&2), Some(&false));
}

#[test]
fn vehicles_counted_in_and_out_of_the_intersection() {
    let mut s = Statistics::new();
    let a = s.add_vehicle(Direction::Up);
    let b = s.add_vehicle(Direction::Left);
    s.update_vehicle_stats(a, Position { x: 300, y: 300 });
    s.update_vehicle_stats(b, Position { x: 400, y: 400 });
    assert_eq!(s.current_vehicles_in_intersection, 2);
    assert_eq!(s.max_vehicles_in_intersection, 2);
    // Seen again inside: no change.
    s.update_vehicle_stats(a, Position { x: 302, y: 300 });
    assert_eq!(s.current_vehicles_in_intersection, 2);
    s.update_vehicle_stats(a, Position { x: 300, y: 600 });
    assert_eq!(s.current_vehicles_in_intersection, 1);
    assert_eq!(s.max_vehicles_in_intersection, 2);
    s.record_vehicle_exit(b);
    assert_eq!(s.current_vehicles_in_intersection, 0);
    // Unknown ids are ignored.
    s.update_vehicle_stats(99, Position { x: 300, y: 300 });
    assert_eq!(s.current_vehicles_in_intersection, 0);
    s.record_vehicle_exit(a);
    assert_eq!(s.current_vehicles_in_intersection, 0);
}

#[test]
fn close_calls_counted_once_per_pair() {
    let mut s = Statistics::new();
    // 3 and 7 are 30 pixels apart inside the intersection; 9 is far away.
    let positions = vec![(3, (300, 300)), (7, (330, 300)), (9, (700, 700))];
    s.check_close_calls(&positions);
    assert_eq!(s.total_close_calls, 1);
    assert_eq!(s.close_call_pairs, vec![(3, 7)]);
    s.check_close_calls(&positions);
    assert_eq!(s.total_close_calls, 1);
    // The same pair listed the other way round is the same pair.
    s.check_close_calls(&[(7, (330, 300)), (3, (300, 300))]);
    assert_eq!(s.total_close_calls, 1);
}

#[test]
fn close_call_needs_the_intersection_and_the_distance() {
    let mut s = Statistics::new();
    // Exactly 55 pixels apart is safe.
    s.check_close_calls(&[(1, (300, 300)), (2, (355, 300))]);
    assert_eq!(s.total_close_calls, 0);
    s.check_close_calls(&[(1, (300, 300)), (2, (354, 300))]);
    assert_eq!(s.total_close_calls, 1);
    // Both outside the intersection: never a close call.
    s.check_close_calls(&[(4, (0, 0)), (5, (1, 0))]);
    assert_eq!(s.total_close_calls, 1);
    // One of them inside is enough.
    s.check_close_calls(&[(6, (201, 300)), (8, (190, 300))]);
    assert_eq!(s.total_close_calls, 2);
}

#[test]
fn spawn_cooldown_per_side() {
    let mut m = VehicleManager::new();
    assert_eq!(m.try_spawn_vehicle(Direction::Up, 1000), Ok(true));
    assert_eq!(m.get_vehicles().len(), 1);
    assert_eq!(m.try_spawn_vehicle(Direction::Up, 1699), Ok(false));
    assert_eq!(m.get_vehicles().len(), 1);
    // Another side is not held back.
    assert_eq!(m.try_spawn_vehicle(Direction::Down, 1699), Ok(true));
    assert_eq!(m.try_spawn_vehicle(Direction::Up, 1700), Ok(true));
    // A clock that goes back counts as no time elapsed.
    assert_eq!(m.try_spawn_vehicle(Direction::Up, 5), Ok(false));
    let ids: Vec<usize> = m.get_vehicles().iter().map(|v| v.id).collect();
    assert_eq!(ids, vec![0, 1, 2]);
    assert_eq!(m.get_statistics().total_vehicles, 3);
    assert_eq!(m.get_statistics().spawned_from(Direction::Up), 2);
    for v in m.get_vehicles() {
        assert_ne!(v.target_direction, v.initial_position);
    }
}

#[test]
fn vehicles_drive_and_leave() {
    let mut m = VehicleManager::new();
    assert_eq!(m.try_spawn_vehicle(Direction::Left, 0), Ok(true));
    let first = m.get_vehicles()[0].path[0].position;
    let u = m.update_vehicles();
    assert_eq!(u.moves.len(), 1);
    assert_eq!(u.moves[0].0, 0);
    assert_eq!(u.moves[0].1, Position { x: -50, y: m.get_vehicles()[0].rect.y() });
    assert_eq!(u.moves[0].2, first);
    assert!(u.exited.is_empty());
    let mut ticks = 1;
    while !m.get_vehicles().is_empty() {
        assert!(m.can_update_vehicles());
        let u = m.update_vehicles();
        ticks += 1;
        if m.get_vehicles().is_empty() {
            assert_eq!(u.exited, vec![0]);
        }
        assert!(ticks < 1000);
    }
    assert_eq!(m.get_statistics().current_vehicles_in_intersection, 0);
    assert_eq!(m.get_statistics().max_vehicles_in_intersection, 1);
}

#[test]
fn close_calls_grow_by_the_new_pairs_only() {
    let mut s = Statistics::new();
    s.check_close_calls(&[(1, (300, 300)), (2, (310, 300))]);
    assert_eq!(s.total_close_calls, 1);
    let positions = [(1, (300, 300)), (2, (310, 300)), (3, (320, 300))];
    assert!(s.close_calls_fit(&positions));
    s.check_close_calls(&positions);
    // (1, 3) and (2, 3) are new; (1, 2) was counted before.
    assert_eq!(s.total_close_calls, 3);
    assert_eq!(s.close_call_pairs, vec![(1, 2), (1, 3), (2, 3)]);
    s.check_close_calls(&positions);
    assert_eq!(s.total_close_calls, 3);
}

#[test]
fn a_tick_fits_the_close_call_counter() {
    let mut m = VehicleManager::new();
    assert!(m.can_update_vehicles());
    assert_eq!(m.try_spawn_vehicle(Direction::Up, 0), Ok(true));
    assert_eq!(m.try_spawn_vehicle(Direction::Down, 0), Ok(true));
    assert!(m.can_update_vehicles());
}
