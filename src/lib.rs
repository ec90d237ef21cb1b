//! Detection of polygonal shapes in the traced contours of an image: area filtering,
//! vertex counting, bounding boxes, the overlay that outlines them, and the paths of
//! derived files.

pub mod geometry;
pub mod laws;
pub mod paths;
pub mod shapes;
pub mod text;

pub use geometry::{bounding_rect, contour_doubled_area, Point, Rect};
pub use paths::{get_backup_path, shapes_image_path};
pub use shapes::{
    find_shapes, gray_conversion, overlay_for, shape_kind, trace_shapes, Color, ContourSet,
    DetectionConfig, GrayConversion, Overlay, Shape, ShapeError, ShapeKind, Stage,
};
