use vstd::prelude::*;

use vstd::string::StringExecFns;

use crate::geometry::{
    bounding_rect, bounding_rect_of, contour_doubled_area, doubled_area, point_text, Point, Rect,
};
use crate::text::{digits_of, push_digits};

verus! {

/// Contours enclosing this many square pixels or fewer are not reported as shapes.
pub const MIN_AREA: u32 = 100;

/// Lower gradient threshold of the edge detector.
pub const CANNY_LOW: u32 = 50;

/// Upper gradient threshold of the edge detector.
pub const CANNY_HIGH: u32 = 150;

/// Aperture of the edge detector's gradient operator.
pub const CANNY_APERTURE: u32 = 3;

/// Polygon approximation tolerance, in hundredths of the contour's perimeter.
pub const APPROX_EPSILON_PERCENT: u32 = 4;

/// Stands between the vertex count and the position in the text of a shape.
pub const VERTICES_AT: &'static str = " vertices @ ";

/// The least number of vertices of a valid simplified polygon.
pub const MIN_VERTICES: usize = 3;

/// The stage of the detection pipeline at which processing failed.
#[derive(Clone, Copy, Debug, PartialEq, Eq, Structural)]
pub enum Stage {
    Grayscale,
    EdgeDetection,
    ContourExtraction,
    Approximation,
    Rendering,
}

/// Why a detection run failed.
#[derive(Clone, Copy, Debug, PartialEq, Eq, Structural)]
pub enum ShapeError {
    /// A file could not be read or written.
    Io,
    /// The raster is corrupt or its layout is unsupported.
    Decode,
    /// A geometric stage failed.
    Processing(Stage),
}

/// How a raster with a given channel layout is reduced to one intensity channel.
#[derive(Clone, Copy, Debug, PartialEq, Eq, Structural)]
pub enum GrayConversion {
    /// The raster already has one channel.
    Unchanged,
    /// Three channels in blue, green, red order.
    FromBgr,
    /// Four channels in blue, green, red, alpha order.
    FromBgra,
}

/// The conversion for a raster of `channels` channels: one, three and four are supported.
pub open spec fn gray_conversion_of(channels: u32) -> Result<GrayConversion, ShapeError> {
    if channels == 1 {
        Ok(GrayConversion::Unchanged)
    } else if channels == 3 {
        Ok(GrayConversion::FromBgr)
    } else if channels == 4 {
        Ok(GrayConversion::FromBgra)
    } else {
        Err(ShapeError::Decode)
    }
}

/// Chooses how to reduce a raster of `channels` channels to grayscale; any layout other
/// than one, three or four channels is a decode error.
pub fn gray_conversion(channels: u32) -> (r: Result<GrayConversion, ShapeError>)
    ensures
        r == gray_conversion_of(channels),
{
    match channels {
        1 => Ok(GrayConversion::Unchanged),
        3 => Ok(GrayConversion::FromBgr),
        4 => Ok(GrayConversion::FromBgra),
        _ => Err(ShapeError::Decode),
    }
}

/// Parameters of one detection run.
#[derive(Clone, Copy, Debug, PartialEq, Eq, Structural)]
pub struct DetectionConfig {
    pub canny_low: u32,
    pub canny_high: u32,
    pub aperture: u32,
    pub use_l2_gradient: bool,
    /// Contours must enclose strictly more than this many square pixels.
    pub min_area: u32,
    /// Approximation tolerance in hundredths of the perimeter.
    pub approx_epsilon_percent: u32,
}

impl Default for DetectionConfig {
    fn default() -> (r: DetectionConfig)
        ensures
            r.canny_low == CANNY_LOW,
            r.canny_high == CANNY_HIGH,
            r.aperture == CANNY_APERTURE,
            !r.use_l2_gradient,
            r.min_area == MIN_AREA,
            r.approx_epsilon_percent == APPROX_EPSILON_PERCENT,
    {
        DetectionConfig {
            canny_low: CANNY_LOW,
            canny_high: CANNY_HIGH,
            aperture: CANNY_APERTURE,
            use_l2_gradient: false,
            min_area: MIN_AREA,
            approx_epsilon_percent: APPROX_EPSILON_PERCENT,
        }
    }
}

/// The traced contours of an edge mask with their hierarchy: the parent of each
/// contour, or `None` for a top-level contour.
#[derive(Debug)]
pub struct ContourSet {
    contours: Vec<Vec<Point>>,
    parents: Vec<Option<usize>>,
}

/// What a `ContourSet` holds.
pub struct ContourSetModel {
    pub contours: Seq<Seq<Point>>,
    pub parents: Seq<Option<usize>>,
}

/// One parent entry per contour, each naming another contour of the set.
pub open spec fn hierarchy_valid(n: int, parents: Seq<Option<usize>>) -> bool {
    &&& parents.len() == n
    &&& forall|i: int|
        0 <= i < parents.len() ==> match #[trigger] parents[i] {
            Some(p) => p < n && p != i,
            None => true,
        }
}

/// The views of a sequence of point vectors.
pub open spec fn contour_views(v: Seq<Vec<Point>>) -> Seq<Seq<Point>> {
    v.map_values(|c: Vec<Point>| c@)
}

impl View for ContourSet {
    type V = ContourSetModel;

    closed spec fn view(&self) -> ContourSetModel {
        ContourSetModel { contours: contour_views(self.contours@), parents: self.parents@ }
    }
}

impl ContourSet {
    #[verifier::type_invariant]
    spec fn inv(&self) -> bool {
        hierarchy_valid(self.contours@.len() as int, self.parents@)
    }

    /// Builds a contour set; fails unless `parents` gives one valid entry per contour.
    pub fn new(contours: Vec<Vec<Point>>, parents: Vec<Option<usize>>) -> (r: Result<
        ContourSet,
        ShapeError,
    >)
        ensures
            hierarchy_valid(contours@.len() as int, parents@) <==> r is Ok,
            r is Ok ==> r->Ok_0@.contours == contour_views(contours@) && r->Ok_0@.parents
                == parents@,
            r is Err ==> r == Err::<ContourSet, ShapeError>(
                ShapeError::Processing(Stage::ContourExtraction),
            ),
    {
        let n = contours.len();
        if parents.len() != n {
            return Err(ShapeError::Processing(Stage::ContourExtraction));
        }
        let mut i: usize = 0;
        while i < n
            invariant
                n == contours@.len(),
                n == parents@.len(),
                i <= n,
                forall|j: int|
                    0 <= j < i ==> match #[trigger] parents@[j] {
                        Some(p) => p < n && p != j,
                        None => true,
                    },
            decreases n - i,
        {
            match parents[i] {
                Some(p) => {
                    if p >= n || p == i {
                        return Err(ShapeError::Processing(Stage::ContourExtraction));
                    }
                },
                None => {},
            }
            i = i + 1;
        }
        Ok(ContourSet { contours, parents })
    }

    /// A set of top-level contours, as an outer-boundary-only tracing returns them.
    pub fn top_level(contours: Vec<Vec<Point>>) -> (r: ContourSet)
        ensures
            r@.contours == contour_views(contours@),
            r@.parents.len() == contours@.len(),
            forall|i: int| 0 <= i < contours@.len() ==> #[trigger] r@.parents[i] is None,
    {
        let n = contours.len();
        let mut parents: Vec<Option<usize>> = Vec::new();
        let mut i: usize = 0;
        while i < n
            invariant
                i <= n,
                parents@.len() == i,
                forall|j: int| 0 <= j < i ==> #[trigger] parents@[j] is None,
            decreases n - i,
        {
            parents.push(None);
            i = i + 1;
        }
        ContourSet { contours, parents }
    }

    pub fn len(&self) -> (r: usize)
        ensures
            r == self@.contours.len(),
            r == self@.parents.len(),
    {
        proof {
            use_type_invariant(self);
        }
        self.contours.len()
    }

    /// The points of contour `i`.
    pub fn contour(&self, i: usize) -> (r: &Vec<Point>)
        requires
            i < self@.contours.len(),
        ensures
            r@ == self@.contours[i as int],
    {
        &self.contours[i]
    }

    /// Contour `i` is top-level and encloses strictly more than `min_area` square pixels,
    /// so detection reports it.
    pub fn retains(&self, i: usize, min_area: u32) -> (r: bool)
        requires
            i < self@.contours.len(),
        ensures
            r == is_retained(self@, i as int, min_area as int),
    {
        self.parent(i).is_none() && contour_doubled_area(self.contour(i)) > 2 * (min_area as i128)
    }

    /// The parent of contour `i`, or `None` when it is top-level.
    pub fn parent(&self, i: usize) -> (r: Option<usize>)
        requires
            i < self@.contours.len(),
        ensures
            r == self@.parents[i as int],
    {
        proof {
            use_type_invariant(self);
        }
        self.parents[i]
    }
}

/// A detected shape: a retained contour with its simplified vertex count and bounding box.
#[derive(Debug)]
pub struct Shape {
    pub vertex_count: usize,
    pub bounding_box: Rect,
    pub contour: Vec<Point>,
}

/// What a `Shape` holds.
pub struct ShapeModel {
    pub vertex_count: nat,
    pub bounding_box: Rect,
    pub contour: Seq<Point>,
}

impl View for Shape {
    type V = ShapeModel;

    open spec fn view(&self) -> ShapeModel {
        ShapeModel {
            vertex_count: self.vertex_count as nat,
            bounding_box: self.bounding_box,
            contour: self.contour@,
        }
    }
}

/// Contour `i` is top-level and encloses strictly more than `min_area` square pixels.
pub open spec fn is_retained(cs: ContourSetModel, i: int, min_area: int) -> bool {
    &&& cs.parents[i] is None
    &&& doubled_area(cs.contours[i]) > 2 * min_area
}

/// The shape reported for `contour`, whose simplified polygon is `approx`.
pub open spec fn shape_of(contour: Seq<Point>, approx: Seq<Point>) -> ShapeModel {
    ShapeModel {
        vertex_count: approx.len(),
        bounding_box: bounding_rect_of(contour),
        contour,
    }
}

/// The shapes of the retained contours among the first `k`, in contour order.
pub open spec fn retained_shapes(
    cs: ContourSetModel,
    approx: Seq<Seq<Point>>,
    min_area: int,
    k: nat,
) -> Seq<ShapeModel>
    decreases k,
{
    if k == 0 {
        Seq::empty()
    } else {
        let prev = retained_shapes(cs, approx, min_area, (k - 1) as nat);
        if is_retained(cs, k - 1, min_area) {
            prev.push(shape_of(cs.contours[k - 1], approx[k - 1]))
        } else {
            prev
        }
    }
}

/// Among the first `k` contours, a retained one simplifies to fewer than three vertices.
pub open spec fn has_degenerate(
    cs: ContourSetModel,
    approx: Seq<Seq<Point>>,
    min_area: int,
    k: int,
) -> bool {
    exists|i: int|
        0 <= i < k && is_retained(cs, i, min_area) && #[trigger] approx[i].len() < MIN_VERTICES
}

/// The outcome of shape detection on the contours `cs`, whose simplified polygons are `approx`.
pub open spec fn analysis(cs: ContourSetModel, approx: Seq<Seq<Point>>, min_area: int) -> Result<
    Seq<ShapeModel>,
    ShapeError,
> {
    if approx.len() != cs.contours.len() || has_degenerate(cs, approx, min_area, approx.len() as int) {
        Err(ShapeError::Processing(Stage::Approximation))
    } else {
        Ok(retained_shapes(cs, approx, min_area, cs.contours.len()))
    }
}

/// The views of a sequence of shapes.
pub open spec fn shape_views(v: Seq<Shape>) -> Seq<ShapeModel> {
    v.map_values(|s: Shape| s@)
}

/// Selects the shapes among `contours`: each top-level contour that encloses strictly more
/// than `config.min_area` square pixels gives one shape, in contour order, with the vertex
/// count of its simplified polygon (the entry of `approximations` at the same index) and the
/// bounding box of the contour itself. Fails when `approximations` does not hold one polygon
/// per contour, or when a retained contour simplifies to fewer than three vertices.
pub fn find_shapes(
    contours: &ContourSet,
    approximations: &Vec<Vec<Point>>,
    config: &DetectionConfig,
) -> (r: Result<Vec<Shape>, ShapeError>)
    ensures
        match analysis(contours@, contour_views(approximations@), config.min_area as int) {
            Ok(shapes) => r is Ok && shape_views(r->Ok_0@) == shapes,
            Err(e) => r == Err::<Vec<Shape>, ShapeError>(e),
        },
{
    let ghost cs = contours@;
    let ghost ap = contour_views(approximations@);
    let ghost min_area = config.min_area as int;
    let n = contours.len();
    if approximations.len() != n {
        return Err(ShapeError::Processing(Stage::Approximation));
    }
    let mut shapes: Vec<Shape> = Vec::new();
    let mut i: usize = 0;
    while i < n
        invariant
            cs == contours@,
            ap == contour_views(approximations@),
            min_area == config.min_area as int,
            n == cs.contours.len(),
            n == ap.len(),
            i <= n,
            !has_degenerate(cs, ap, min_area, i as int),
            shape_views(shapes@) == retained_shapes(cs, ap, min_area, i as nat),
        decreases n - i,
    {
        let c = contours.contour(i);
        if contours.retains(i, config.min_area) {
            let approx = &approximations[i];
            assert(ap[i as int] == approx@);
            if approx.len() < MIN_VERTICES {
                assert(has_degenerate(cs, ap, min_area, n as int));
                return Err(ShapeError::Processing(Stage::Approximation));
            }
            let shape = Shape {
                vertex_count: approx.len(),
                bounding_box: bounding_rect(c),
                contour: c.clone(),
            };
            shapes.push(shape);
            assert(shape_views(shapes@) =~= retained_shapes(cs, ap, min_area, (i + 1) as nat));
        } else {
            assert(shape_views(shapes@) =~= retained_shapes(cs, ap, min_area, (i + 1) as nat));
        }
        assert forall|j: int|
            0 <= j < i + 1 && is_retained(cs, j, min_area) implies #[trigger] ap[j].len()
            >= MIN_VERTICES by {
            if j < i {
                assert(!(0 <= j < i && is_retained(cs, j, min_area) && ap[j].len()
                    < MIN_VERTICES));
            }
        }
        i = i + 1;
    }
    Ok(shapes)
}

/// Line thickness, in pixels, of the outlines drawn over the image.
pub const OVERLAY_THICKNESS: u32 = 2;

/// A colour by its red, green and blue channel values.
#[derive(Clone, Copy, Debug, PartialEq, Eq, Structural)]
pub struct Color {
    pub red: u8,
    pub green: u8,
    pub blue: u8,
}

/// The colour of the outlines drawn over the image: pure green.
pub open spec fn overlay_color() -> Color {
    Color { red: 0, green: 255, blue: 0 }
}

/// What to draw over a copy of the image: each polyline closed, in one colour and thickness.
#[derive(Debug)]
pub struct Overlay {
    pub color: Color,
    pub thickness: u32,
    pub polylines: Vec<Vec<Point>>,
}

/// What an `Overlay` holds.
pub struct OverlayModel {
    pub color: Color,
    pub thickness: u32,
    pub polylines: Seq<Seq<Point>>,
}

impl View for Overlay {
    type V = OverlayModel;

    open spec fn view(&self) -> OverlayModel {
        OverlayModel {
            color: self.color,
            thickness: self.thickness,
            polylines: contour_views(self.polylines@),
        }
    }
}

/// The overlay that outlines every contour of `shapes`, in order.
pub open spec fn overlay_of(shapes: Seq<ShapeModel>) -> OverlayModel {
    OverlayModel {
        color: overlay_color(),
        thickness: OVERLAY_THICKNESS,
        polylines: shapes.map_values(|s: ShapeModel| s.contour),
    }
}

/// The overlay that outlines the contour of each of `shapes` in green, two pixels thick.
pub fn overlay_for(shapes: &Vec<Shape>) -> (r: Overlay)
    ensures
        r@ == overlay_of(shape_views(shapes@)),
{
    let mut polylines: Vec<Vec<Point>> = Vec::new();
    let mut i: usize = 0;
    while i < shapes.len()
        invariant
            i <= shapes@.len(),
            polylines@.len() == i,
            forall|j: int| 0 <= j < i ==> #[trigger] polylines@[j]@ == shapes@[j].contour@,
        decreases shapes@.len() - i,
    {
        let c = shapes[i].contour.clone();
        polylines.push(c);
        i = i + 1;
    }
    let r = Overlay {
        color: Color { red: 0, green: 255, blue: 0 },
        thickness: OVERLAY_THICKNESS,
        polylines,
    };
    assert(r@.polylines =~= overlay_of(shape_views(shapes@)).polylines) by {
        assert forall|j: int| 0 <= j < shapes@.len() implies r@.polylines[j] == overlay_of(
            shape_views(shapes@),
        ).polylines[j] by {
            assert(polylines@[j]@ == shapes@[j].contour@);
        }
    }
    r
}

/// Runs shape detection and gives the overlay of the shapes found, or the error of detection.
pub fn trace_shapes(
    contours: &ContourSet,
    approximations: &Vec<Vec<Point>>,
    config: &DetectionConfig,
) -> (r: Result<Overlay, ShapeError>)
    ensures
        match analysis(contours@, contour_views(approximations@), config.min_area as int) {
            Ok(shapes) => r is Ok && r->Ok_0@ == overlay_of(shapes),
            Err(e) => r is Err && r->Err_0 == e,
        },
{
    match find_shapes(contours, approximations, config) {
        Ok(shapes) => Ok(overlay_for(&shapes)),
        Err(e) => Err(e),
    }
}

/// The name of a polygon by its number of vertices.
#[derive(Clone, Copy, Debug, PartialEq, Eq, Structural)]
pub enum ShapeKind {
    Triangle,
    Quadrilateral,
    Pentagon,
    Hexagon,
    /// Any other polygon, with its number of vertices.
    Polygon(usize),
}

/// The kind of a polygon with `n` vertices.
pub open spec fn kind_of(n: usize) -> ShapeKind {
    if n == 3 {
        ShapeKind::Triangle
    } else if n == 4 {
        ShapeKind::Quadrilateral
    } else if n == 5 {
        ShapeKind::Pentagon
    } else if n == 6 {
        ShapeKind::Hexagon
    } else {
        ShapeKind::Polygon(n)
    }
}

/// The kind of a polygon with `vertex_count` vertices.
pub fn shape_kind(vertex_count: usize) -> (r: ShapeKind)
    ensures
        r == kind_of(vertex_count),
{
    match vertex_count {
        3 => ShapeKind::Triangle,
        4 => ShapeKind::Quadrilateral,
        5 => ShapeKind::Pentagon,
        6 => ShapeKind::Hexagon,
        n => ShapeKind::Polygon(n),
    }
}

impl Shape {
    /// The kind of the shape's simplified polygon.
    pub fn kind(&self) -> (r: ShapeKind)
        ensures
            r == kind_of(self.vertex_count),
    {
        shape_kind(self.vertex_count)
    }

    /// The shape as text: `N vertices @ (x, y)`, with the top-left corner of its bounding box.
    pub fn describe(&self) -> (r: String)
        ensures
            r@ == digits_of(self.vertex_count as nat) + VERTICES_AT@ + point_text(
                Point { x: self.bounding_box.x, y: self.bounding_box.y },
            ),
    {
        let mut r = String::new();
        push_digits(&mut r, self.vertex_count as u64);
        r.append(VERTICES_AT);
        let corner = self.coordinates();
        let p = corner.describe();
        r.append(p.as_str());
        r
    }

    /// The top-left corner of the shape's bounding box.
    pub fn coordinates(&self) -> (r: Point)
        ensures
            r.x == self.bounding_box.x,
            r.y == self.bounding_box.y,
    {
        Point { x: self.bounding_box.x, y: self.bounding_box.y }
    }
}

} // verus!
