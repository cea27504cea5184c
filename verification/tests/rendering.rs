use road_intersection::compass::{Direction, Route};
use road_intersection::intersection::flow::TrafficFlowAnalyzer;
use road_intersection::intersection::lanes::{
    calculate_lane_center_position, validate_intersection_geometry, IntersectionZone, LaneGeometry,
};
use road_intersection::rendering::road_renderer::RoadRenderer;
use road_intersection::trees::Tree;

#[test]
fn road_surface() {
    let (v, h) = RoadRenderer::road_surface_rects();
    assert_eq!((v.x(), v.y(), v.width(), v.height()), (250, 0, 300, 800));
    assert_eq!((h.x(), h.y(), h.width(), h.height()), (0, 249, 800, 300));
}

#[test]
fn lane_markers() {
    let lines = RoadRenderer::lane_marker_lines();
    assert_eq!(lines.len(), 28);
    assert_eq!(lines[0], ((250, 0), (250, 250)));
    assert_eq!(lines[1], ((250, 550), (250, 800)));
    assert_eq!(lines[2], ((0, 250), (250, 250)));
    assert_eq!(lines[3], ((550, 250), (800, 250)));
    assert_eq!(lines[27], ((550, 550), (800, 550)));
}

#[test]
fn tree_shapes() {
    let t = Tree::new(100, 200, 40);
    let trunk = t.trunk_rect();
    assert_eq!((trunk.x(), trunk.y(), trunk.width(), trunk.height()), (100, 200, 20, 40));
    assert_eq!(t.leaf_triangle(), [(80, 220), (140, 220), (110, 160)]);
}

#[test]
fn lane_centers() {
    assert_eq!(calculate_lane_center_position(Direction::North, 0), (415, 400));
    assert_eq!(calculate_lane_center_position(Direction::North, 2), (475, 400));
    assert_eq!(calculate_lane_center_position(Direction::South, 1), (355, 400));
    assert_eq!(calculate_lane_center_position(Direction::East, 0), (400, 415));
    assert_eq!(calculate_lane_center_position(Direction::West, 3), (400, 295));
    assert!(validate_intersection_geometry());
    assert_ne!(IntersectionZone::Core, IntersectionZone::Turning);
}

#[test]
fn lane_colors_and_routes() {
    let lane = |i: usize| LaneGeometry { direction: Direction::North, lane_index: i };
    assert_eq!(lane(0).get_lane_color(), (255, 100, 100));
    assert_eq!(lane(1).get_lane_color(), (100, 100, 255));
    assert_eq!(lane(2).get_lane_color(), (100, 255, 100));
    assert_eq!(lane(5).get_lane_color(), (128, 128, 128));
    assert_eq!(lane(0).get_route_type(), Route::Left);
    assert_eq!(lane(1).get_route_type(), Route::Straight);
    assert_eq!(lane(2).get_route_type(), Route::Right);
    assert_eq!(lane(9).get_route_type(), Route::Straight);
}

#[test]
fn flow_counts() {
    let mut a = TrafficFlowAnalyzer::new();
    assert_eq!(a.get_most_congested_direction(), Direction::West);
    a.count_congestion(&vec![Direction::East, Direction::North, Direction::East]);
    assert_eq!(a.get_congestion_level(Direction::East), 2);
    assert_eq!(a.get_congestion_level(Direction::North), 1);
    assert_eq!(a.get_congestion_level(Direction::West), 0);
    assert_eq!(a.get_most_congested_direction(), Direction::East);
    // Ties go to the last heading counted most.
    a.count_congestion(&vec![Direction::North, Direction::South]);
    assert_eq!(a.get_most_congested_direction(), Direction::South);
    a.record_vehicle_completion(Direction::South);
    a.record_vehicle_completion(Direction::South);
    assert_eq!(a.get_throughput(Direction::South), 2);
    assert_eq!(a.get_throughput(Direction::North), 0);
}

#[test]
fn lane_center_is_exact_for_any_lane() {
    let far: i128 = 30 * (usize::MAX as i128);
    assert_eq!(calculate_lane_center_position(Direction::South, usize::MAX), (385 - far, 400));
    assert_eq!(calculate_lane_center_position(Direction::East, usize::MAX), (400, 415 + far));
}
