use vstd::prelude::*;

use crate::geometry::{bounding_rect_of, doubled_area, is_minimal_cover, lemma_bounding_rect_minimal, Point};
use crate::shapes::{
    analysis, is_retained, overlay_of, retained_shapes, ContourSetModel, ShapeModel,
};

verus! {

proof fn lemma_nothing_retained(
    cs: ContourSetModel,
    approx: Seq<Seq<Point>>,
    min_area: int,
    k: nat,
)
    requires
        forall|i: int| 0 <= i < k ==> !#[trigger] is_retained(cs, i, min_area),
    ensures
        retained_shapes(cs, approx, min_area, k) == Seq::<ShapeModel>::empty(),
    decreases k,
{
    if k > 0 {
        assert(!is_retained(cs, k - 1, min_area));
        lemma_nothing_retained(cs, approx, min_area, (k - 1) as nat);
    }
}

/// When no contour encloses more than `min_area` square pixels, detection reports no shape
/// and the overlay draws nothing, so the annotated copy equals the image.
pub proof fn lemma_small_contours_give_no_shapes(
    cs: ContourSetModel,
    approx: Seq<Seq<Point>>,
    min_area: int,
)
    requires
        approx.len() == cs.contours.len(),
        forall|i: int|
            0 <= i < cs.contours.len() ==> #[trigger] doubled_area(cs.contours[i]) <= 2 * min_area,
    ensures
        analysis(cs, approx, min_area) is Ok,
        analysis(cs, approx, min_area)->Ok_0.len() == 0,
        overlay_of(analysis(cs, approx, min_area)->Ok_0).polylines.len() == 0,
{
    assert forall|i: int| 0 <= i < cs.contours.len() implies !#[trigger] is_retained(
        cs,
        i,
        min_area,
    ) by {
        assert(doubled_area(cs.contours[i]) <= 2 * min_area);
    }
    lemma_nothing_retained(cs, approx, min_area, cs.contours.len());
}

/// Detection depends on its inputs alone: the same contours, simplified polygons and area
/// threshold give the same shapes, in the same order, and the same overlay.
pub proof fn lemma_detection_deterministic(
    cs1: ContourSetModel,
    approx1: Seq<Seq<Point>>,
    min_area1: int,
    cs2: ContourSetModel,
    approx2: Seq<Seq<Point>>,
    min_area2: int,
)
    requires
        cs1 == cs2,
        approx1 == approx2,
        min_area1 == min_area2,
    ensures
        analysis(cs1, approx1, min_area1) == analysis(cs2, approx2, min_area2),
        analysis(cs1, approx1, min_area1) is Ok ==> overlay_of(
            analysis(cs1, approx1, min_area1)->Ok_0,
        ) == overlay_of(analysis(cs2, approx2, min_area2)->Ok_0),
{
}

proof fn lemma_retained_shapes_boxed(
    cs: ContourSetModel,
    approx: Seq<Seq<Point>>,
    min_area: int,
    k: nat,
)
    requires
        min_area >= 0,
    ensures
        forall|j: int|
            0 <= j < retained_shapes(cs, approx, min_area, k).len() ==> {
                let s = #[trigger] retained_shapes(cs, approx, min_area, k)[j];
                s.contour.len() > 0 && s.bounding_box == bounding_rect_of(s.contour)
            },
    decreases k,
{
    if k > 0 {
        lemma_retained_shapes_boxed(cs, approx, min_area, (k - 1) as nat);
        let prev = retained_shapes(cs, approx, min_area, (k - 1) as nat);
        let cur = retained_shapes(cs, approx, min_area, k);
        if is_retained(cs, k - 1, min_area) {
            let c = cs.contours[k - 1];
            if c.len() == 0 {
                assert(doubled_area(c) == 0);
            }
            assert forall|j: int| 0 <= j < cur.len() implies {
                let s = #[trigger] cur[j];
                s.contour.len() > 0 && s.bounding_box == bounding_rect_of(s.contour)
            } by {
                if j < prev.len() {
                    assert(cur[j] == prev[j]);
                }
            }
        }
    }
}

/// The bounding box of every reported shape is the smallest axis-aligned rectangle that
/// holds every point of the shape's contour.
pub proof fn lemma_bounding_boxes_minimal(
    cs: ContourSetModel,
    approx: Seq<Seq<Point>>,
    min_area: int,
    j: int,
)
    requires
        min_area >= 0,
        analysis(cs, approx, min_area) is Ok,
        0 <= j < analysis(cs, approx, min_area)->Ok_0.len(),
    ensures
        is_minimal_cover(
            analysis(cs, approx, min_area)->Ok_0[j].bounding_box,
            analysis(cs, approx, min_area)->Ok_0[j].contour,
        ),
{
    let shapes = analysis(cs, approx, min_area)->Ok_0;
    lemma_retained_shapes_boxed(cs, approx, min_area, cs.contours.len());
    assert(shapes == retained_shapes(cs, approx, min_area, cs.contours.len()));
    let s = shapes[j];
    lemma_bounding_rect_minimal(s.contour);
}

} // verus!
