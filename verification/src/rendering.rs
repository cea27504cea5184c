//! What is drawn of the road, computed as rectangles and lines for the screen to draw.

pub mod road_renderer;

pub use road_renderer::RoadRenderer;
