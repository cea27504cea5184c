use road_intersection::block_renderer::BlockRenderer;
use road_intersection::block_system::{
    block_key_of, BlockGrid, BlockPosition, BlockType, BlockVehicle, MoveOutcome, VehicleState,
};
use road_intersection::compass::{Direction, Route};

fn bp(x: i32, y: i32) -> BlockPosition {
    BlockPosition { x, y }
}

fn grid() -> BlockGrid {
    BlockGrid::new(800, 800, 32)
}

#[test]
fn layout_of_the_grid() {
    let g = grid();
    assert_eq!((g.grid_width, g.grid_height), (25, 25));
    assert_eq!(g.intersection_center, bp(12, 12));
    assert_eq!(g.intersection_size, 12);
    assert_eq!(g.get_block_type(bp(12, 12)), BlockType::Intersection);
    assert_eq!(g.get_block_type(bp(6, 10)), BlockType::Intersection);
    assert_eq!(g.get_block_type(bp(10, 0)), BlockType::Road);
    assert_eq!(g.get_block_type(bp(24, 14)), BlockType::Road);
    assert_eq!(g.get_block_type(bp(0, 0)), BlockType::Outside);
    assert_eq!(g.get_block_type(bp(7, 7)), BlockType::Outside);
    assert_eq!(g.get_block_type(bp(10, 25)), BlockType::Outside);
    assert_eq!(g.get_block_type(bp(-1, 10)), BlockType::Outside);
}

#[test]
fn pixels_and_blocks() {
    let g = grid();
    assert_eq!(g.pixel_to_block(100, 50), bp(3, 1));
    assert_eq!(g.pixel_to_block(-5, 31), bp(0, 0));
    assert_eq!(g.pixel_to_block(-40, 64), bp(-1, 2));
    assert_eq!(g.block_to_pixel(bp(3, 1)), (112, 48));
    for x in 0..25 {
        let p = bp(x, 24 - x);
        let (px, py) = g.block_to_pixel(p);
        assert_eq!(g.pixel_to_block(px, py), p);
    }
}

#[test]
fn lane_indices_clamp() {
    let g = grid();
    assert_eq!(g.get_lane_index(bp(10, 3), Direction::North), 1);
    assert_eq!(g.get_lane_index(bp(9, 3), Direction::South), 0);
    assert_eq!(g.get_lane_index(bp(30, 3), Direction::North), 5);
    assert_eq!(g.get_lane_index(bp(0, 13), Direction::East), 4);
    assert_eq!(g.get_lane_index(bp(0, -4), Direction::West), 0);
}

#[test]
fn next_positions() {
    let g = grid();
    assert_eq!(g.get_next_positions(bp(10, 20), Direction::North, Route::Straight), vec![bp(10, 19)]);
    assert_eq!(g.get_next_positions(bp(10, 12), Direction::North, Route::Left), vec![bp(9, 12)]);
    assert_eq!(g.get_next_positions(bp(10, 12), Direction::North, Route::Right), vec![bp(11, 12)]);
    // Outside the intersection a turning vehicle goes straight.
    assert_eq!(g.get_next_positions(bp(10, 20), Direction::North, Route::Right), vec![bp(10, 19)]);
    assert!(g.get_next_positions(bp(10, 0), Direction::North, Route::Straight).is_empty());
}

#[test]
fn occupancy() {
    let mut g = grid();
    assert!(g.add_vehicle(1, bp(10, 20)));
    assert!(g.is_block_occupied(bp(10, 20)));
    assert!(!g.can_move_to(bp(10, 20), 2));
    assert!(g.can_move_to(bp(10, 20), 1));
    assert!(!g.add_vehicle(2, bp(10, 20)));
    assert!(!g.add_vehicle(3, bp(0, 0)));
    assert!(!g.can_move_to(bp(0, 0), 3));
    assert!(g.move_vehicle(1, bp(10, 20), bp(10, 19)));
    assert!(g.is_block_occupied(bp(10, 19)));
    assert!(!g.is_block_occupied(bp(10, 20)));
    assert!(!g.move_vehicle(1, bp(10, 19), bp(0, 0)));
    assert!(g.is_block_occupied(bp(10, 19)));
    g.remove_vehicle(2, bp(10, 19));
    assert!(g.is_block_occupied(bp(10, 19)));
    g.remove_vehicle(1, bp(10, 19));
    assert!(!g.is_block_occupied(bp(10, 19)));
}

#[test]
fn add_then_remove_restores() {
    let mut g = grid();
    assert!(g.add_vehicle(5, bp(12, 3)));
    let before = g.occupied_blocks.clone();
    assert!(g.add_vehicle(6, bp(12, 4)));
    g.remove_vehicle(6, bp(12, 4));
    assert_eq!(g.occupied_blocks, before);
}

#[test]
fn block_keys_are_distinct() {
    assert_ne!(block_key_of(bp(1, 2)), block_key_of(bp(2, 1)));
    assert_ne!(block_key_of(bp(-1, 0)), block_key_of(bp(0, -1)));
    assert_eq!(block_key_of(bp(i32::MIN, i32::MIN)), 0);
    assert_eq!(block_key_of(bp(i32::MAX, i32::MAX)), u64::MAX);
}

#[test]
fn vehicle_advances_and_turns() {
    let mut g = grid();
    let mut v = BlockVehicle::new(7, bp(10, 19), Direction::North, Route::Left);
    assert_eq!(v.state, VehicleState::Moving);
    assert!(g.add_vehicle(7, v.block_position));
    // Straight ahead up to the intersection, which starts at row 17.
    assert_eq!(v.advance(&mut g), MoveOutcome::Moved);
    assert_eq!(v.block_position, bp(10, 18));
    assert_eq!(v.direction, Direction::North);
    assert_eq!(v.advance(&mut g), MoveOutcome::Moved);
    assert_eq!(v.block_position, bp(10, 17));
    // Entering the intersection on a left route turns it west.
    assert_eq!(v.direction, Direction::West);
    assert!(g.is_block_occupied(bp(10, 17)));
    assert!(!g.is_block_occupied(bp(10, 19)));
}

#[test]
fn vehicle_waits_behind_another() {
    let mut g = grid();
    assert!(g.add_vehicle(1, bp(10, 18)));
    let mut v = BlockVehicle::new(2, bp(10, 19), Direction::North, Route::Straight);
    assert!(g.add_vehicle(2, v.block_position));
    assert_eq!(v.advance(&mut g), MoveOutcome::Blocked);
    assert_eq!(v.state, VehicleState::Waiting);
    assert_eq!(v.block_position, bp(10, 19));
    assert!(v.blocked_ahead(&g) <= 3);
}

#[test]
fn renderer_spawns_on_free_blocks() {
    let mut r = BlockRenderer::new(800, 800);
    assert_eq!(r.get_statistics(), (0, 0, 0));
    assert!(r.spawn_vehicle_on_route(Direction::North, Route::Straight));
    assert_eq!(r.vehicles[0].block_position, bp(11, 24));
    assert_eq!(r.vehicles[0].id, 0);
    assert!(!r.spawn_vehicle_on_route(Direction::North, Route::Straight));
    // The outer southbound lane lies off the road: nothing is placed, but an id is used.
    assert!(!r.spawn_vehicle_on_route(Direction::South, Route::Left));
    assert_eq!(r.next_vehicle_id, 2);
    assert_eq!(r.vehicles.len(), 1);
    assert!(r.spawn_vehicle_on_route(Direction::South, Route::Straight));
    assert_eq!(r.vehicles[1].block_position, bp(13, 0));
    assert_eq!(r.vehicles[1].id, 2);
    assert!(r.spawn_vehicle_on_route(Direction::East, Route::Right));
    assert_eq!(r.vehicles[2].block_position, bp(0, 13));
    assert!(r.spawn_vehicle_on_route(Direction::West, Route::Straight));
    assert_eq!(r.vehicles[3].block_position, bp(24, 13));
    assert_eq!(r.next_vehicle_id, 5);
    assert_eq!(r.get_statistics(), (4, 4, 0));
    assert!(r.grid.is_block_occupied(bp(24, 13)));
}

#[test]
fn renderer_random_spawn() {
    let mut r = BlockRenderer::new(800, 800);
    assert!(r.spawn_vehicle(Direction::East));
    assert_eq!(r.vehicles.len(), 1);
    let p = r.vehicles[0].block_position;
    assert_eq!(p.x, 0);
    assert!([9, 11, 13].contains(&p.y));
    assert_eq!(r.vehicles[0].direction, Direction::East);
}

#[test]
fn pixel_to_block_with_huge_block_size() {
    // A block size beyond i32::MAX divides as the negative i32 it wraps to.
    let g = BlockGrid::new(800, 800, 3_000_000_000);
    assert_eq!(g.pixel_to_block(-2_000_000_000, 5), bp(1, 0));
    assert_eq!(g.pixel_to_block(2_000_000_000, -1_300_000_000), bp(-1, 1));
    let h = BlockGrid::new(800, 800, u32::MAX);
    assert_eq!(h.pixel_to_block(7, -9), bp(-7, 9));
}

#[test]
fn completed_vehicle_stays_off_the_map() {
    let mut g = grid();
    let mut v = BlockVehicle::new(3, bp(10, 19), Direction::North, Route::Straight);
    v.state = VehicleState::Completed;
    assert_eq!(v.advance(&mut g), MoveOutcome::LeftMap);
    assert_eq!(v.block_position, bp(10, 19));
    assert_eq!(v.state, VehicleState::Completed);
    assert!(!g.is_block_occupied(bp(10, 18)));
}

#[test]
fn only_road_blocks_are_held() {
    let g = grid();
    assert_eq!(g.blocks.get(&block_key_of(bp(0, 0))), None);
    assert_eq!(g.blocks.get(&block_key_of(bp(-1, 10))), None);
    assert_eq!(g.blocks.get(&block_key_of(bp(10, 25))), None);
    assert_eq!(g.blocks.get(&block_key_of(bp(10, 0))), Some(&BlockType::Road));
    assert_eq!(g.blocks.get(&block_key_of(bp(12, 12))), Some(&BlockType::Intersection));
    // Two roads six blocks wide across a 25 by 25 grid, crossing on 6 by 6 blocks.
    assert_eq!(g.blocks.len(), 2 * 6 * 25 - 36);
}

#[test]
fn vehicle_on_a_built_grid_never_completes() {
    let mut g = grid();
    let mut v = BlockVehicle::new(5, bp(10, 24), Direction::North, Route::Straight);
    assert!(g.add_vehicle(5, v.block_position));
    for _ in 0..100 {
        assert_ne!(v.advance(&mut g), MoveOutcome::LeftMap);
        assert_ne!(v.state, VehicleState::Completed);
    }
    assert_eq!(v.block_position, bp(10, 0));
}
