use vstd::prelude::*;
use vstd::string::StringExecFns;

use crate::text::{decimal_of, push_decimal};

verus! {

/// A pixel position in image coordinates.
#[derive(Clone, Copy, Debug, PartialEq, Eq, Structural)]
pub struct Point {
    pub x: i32,
    pub y: i32,
}

impl Point {
    pub fn new(x: i32, y: i32) -> (r: Point)
        ensures
            r.x == x,
            r.y == y,
    {
        Point { x, y }
    }

    /// The point as text: `(x, y)`.
    pub fn describe(&self) -> (r: String)
        ensures
            r@ == point_text(*self),
    {
        let mut r = String::from_str(OPEN_PAREN);
        push_decimal(&mut r, self.x as i64);
        r.append(COORD_SEPARATOR);
        push_decimal(&mut r, self.y as i64);
        r.append(CLOSE_PAREN);
        r
    }
}

/// Opens the text of a point.
pub const OPEN_PAREN: &'static str = "(";

/// Stands between the two coordinates of a point.
pub const COORD_SEPARATOR: &'static str = ", ";

/// Closes the text of a point.
pub const CLOSE_PAREN: &'static str = ")";

/// The text of `p`: `(x, y)` in decimal.
pub open spec fn point_text(p: Point) -> Seq<char> {
    OPEN_PAREN@ + decimal_of(p.x as int) + COORD_SEPARATOR@ + decimal_of(p.y as int)
        + CLOSE_PAREN@
}

/// An axis-aligned rectangle: the pixels `x .. x + width` by `y .. y + height`.
#[derive(Clone, Copy, Debug, PartialEq, Eq, Structural)]
pub struct Rect {
    pub x: i32,
    pub y: i32,
    pub width: i64,
    pub height: i64,
}

/// The cross product of two points taken as vectors from the origin.
pub open spec fn cross(a: Point, b: Point) -> int {
    a.x * b.y - a.y * b.x
}

/// Index of the point that follows `i` on the closed curve `s`.
pub open spec fn next_index(s: Seq<Point>, i: int) -> int {
    if i + 1 < s.len() {
        i + 1
    } else {
        0
    }
}

/// Sum of the cross products of the first `k` edges of the closed curve `s`.
pub open spec fn shoelace_sum(s: Seq<Point>, k: nat) -> int
    decreases k,
{
    if k == 0 {
        0
    } else {
        shoelace_sum(s, (k - 1) as nat) + cross(s[k - 1], s[next_index(s, k - 1)])
    }
}

/// Twice the area enclosed by the closed curve `s` (shoelace formula).
/// Twice the area of a polygon with integer vertices is an integer.
pub open spec fn doubled_area(s: Seq<Point>) -> int {
    let a = shoelace_sum(s, s.len());
    if a < 0 {
        -a
    } else {
        a
    }
}

/// Twice the area enclosed by `contour`, taken as a closed polygon.
pub fn contour_doubled_area(contour: &Vec<Point>) -> (r: i128)
    ensures
        r as int == doubled_area(contour@),
{
    let n = contour.len();
    if n == 0 {
        return 0;
    }
    let mut sum: i128 = 0;
    let mut i: usize = 0;
    while i < n
        invariant
            n == contour@.len(),
            n > 0,
            i <= n,
            sum as int == shoelace_sum(contour@, i as nat),
            -(i as int) * 0x8000_0000_0000_0000 <= sum <= (i as int) * 0x8000_0000_0000_0000,
        decreases n - i,
    {
        let p = contour[i];
        let q = if i + 1 < n {
            contour[i + 1]
        } else {
            contour[0]
        };
        proof {
            lemma_product_bound(p.x as int, q.y as int);
            lemma_product_bound(p.y as int, q.x as int);
        }
        let a = (p.x as i64) * (q.y as i64);
        let b = (p.y as i64) * (q.x as i64);
        sum = sum + (a as i128 - b as i128);
        i = i + 1;
    }
    if sum < 0 {
        -sum
    } else {
        sum
    }
}

/// The product of two 32-bit values lies within 2^62 of zero.
proof fn lemma_product_bound(a: int, b: int)
    requires
        -0x8000_0000 <= a < 0x8000_0000,
        -0x8000_0000 <= b < 0x8000_0000,
    ensures
        -0x4000_0000_0000_0000 <= a * b <= 0x4000_0000_0000_0000,
{
    assert(-0x4000_0000_0000_0000 <= a * b <= 0x4000_0000_0000_0000) by (nonlinear_arith)
        requires
            -0x8000_0000 <= a < 0x8000_0000,
            -0x8000_0000 <= b < 0x8000_0000,
    ;
}

/// The x coordinates of the points of `s`.
pub open spec fn xs(s: Seq<Point>) -> Seq<int> {
    s.map_values(|p: Point| p.x as int)
}

/// The y coordinates of the points of `s`.
pub open spec fn ys(s: Seq<Point>) -> Seq<int> {
    s.map_values(|p: Point| p.y as int)
}

/// The least element of `s` (0 for the empty sequence).
pub open spec fn seq_min(s: Seq<int>) -> int
    decreases s.len(),
{
    if s.len() == 0 {
        0
    } else if s.len() == 1 {
        s[0]
    } else {
        let m = seq_min(s.drop_last());
        if s.last() < m {
            s.last()
        } else {
            m
        }
    }
}

/// The greatest element of `s` (0 for the empty sequence).
pub open spec fn seq_max(s: Seq<int>) -> int
    decreases s.len(),
{
    if s.len() == 0 {
        0
    } else if s.len() == 1 {
        s[0]
    } else {
        let m = seq_max(s.drop_last());
        if s.last() > m {
            s.last()
        } else {
            m
        }
    }
}

/// The smallest axis-aligned rectangle that holds every point of `s`; all zero when `s` is empty.
pub open spec fn bounding_rect_of(s: Seq<Point>) -> Rect {
    if s.len() == 0 {
        Rect { x: 0, y: 0, width: 0, height: 0 }
    } else {
        Rect {
            x: seq_min(xs(s)) as i32,
            y: seq_min(ys(s)) as i32,
            width: (seq_max(xs(s)) - seq_min(xs(s)) + 1) as i64,
            height: (seq_max(ys(s)) - seq_min(ys(s)) + 1) as i64,
        }
    }
}

/// The smallest axis-aligned rectangle that holds every point of `contour`;
/// all zero when `contour` is empty.
pub fn bounding_rect(contour: &Vec<Point>) -> (r: Rect)
    ensures
        r == bounding_rect_of(contour@),
{
    let n = contour.len();
    if n == 0 {
        return Rect { x: 0, y: 0, width: 0, height: 0 };
    }
    let first = contour[0];
    let (mut x0, mut x1, mut y0, mut y1) = (first.x, first.x, first.y, first.y);
    let ghost s = contour@;
    proof {
        assert(xs(s.take(1)).len() == 1 && xs(s.take(1))[0] == first.x);
        assert(ys(s.take(1)).len() == 1 && ys(s.take(1))[0] == first.y);
    }
    let mut i: usize = 1;
    while i < n
        invariant
            s == contour@,
            n == s.len(),
            1 <= i <= n,
            x0 == seq_min(xs(s.take(i as int))),
            x1 == seq_max(xs(s.take(i as int))),
            y0 == seq_min(ys(s.take(i as int))),
            y1 == seq_max(ys(s.take(i as int))),
        decreases n - i,
    {
        let p = contour[i];
        proof {
            let (a, b) = (s.take(i as int), s.take(i + 1));
            assert(xs(b).drop_last() =~= xs(a));
            assert(ys(b).drop_last() =~= ys(a));
            assert(xs(b).last() == p.x);
            assert(ys(b).last() == p.y);
        }
        if p.x < x0 {
            x0 = p.x;
        }
        if p.x > x1 {
            x1 = p.x;
        }
        if p.y < y0 {
            y0 = p.y;
        }
        if p.y > y1 {
            y1 = p.y;
        }
        i = i + 1;
    }
    proof {
        assert(s.take(n as int) =~= s);
    }
    Rect { x: x0, y: y0, width: x1 as i64 - x0 as i64 + 1, height: y1 as i64 - y0 as i64 + 1 }
}

/// `r` holds the point `p`.
pub open spec fn covers(r: Rect, p: Point) -> bool {
    &&& r.x <= p.x < r.x + r.width
    &&& r.y <= p.y < r.y + r.height
}

/// `r` holds every point of the non-empty `s`, and each of its four sides touches one of them,
/// so no smaller axis-aligned rectangle holds them all.
pub open spec fn is_minimal_cover(r: Rect, s: Seq<Point>) -> bool {
    &&& forall|i: int| 0 <= i < s.len() ==> #[trigger] covers(r, s[i])
    &&& exists|i: int| 0 <= i < s.len() && #[trigger] s[i].x == r.x
    &&& exists|i: int| 0 <= i < s.len() && #[trigger] s[i].y == r.y
    &&& exists|i: int| 0 <= i < s.len() && #[trigger] s[i].x == r.x + r.width - 1
    &&& exists|i: int| 0 <= i < s.len() && #[trigger] s[i].y == r.y + r.height - 1
}

/// The least element is below every element and is one of them.
pub proof fn lemma_seq_min(s: Seq<int>)
    requires
        s.len() > 0,
    ensures
        forall|i: int| 0 <= i < s.len() ==> seq_min(s) <= #[trigger] s[i],
        exists|i: int| 0 <= i < s.len() && s[i] == seq_min(s),
    decreases s.len(),
{
    if s.len() > 1 {
        let t = s.drop_last();
        lemma_seq_min(t);
        let j = choose|j: int| 0 <= j < t.len() && t[j] == seq_min(t);
        assert(s[j] == t[j]);
        assert forall|i: int| 0 <= i < s.len() implies seq_min(s) <= s[i] by {
            if i < t.len() {
                assert(s[i] == t[i]);
            } else {
                assert(s[i] == s.last());
            }
        }
    } else {
        assert(s[0] == seq_min(s));
    }
}

/// The greatest element is above every element and is one of them.
pub proof fn lemma_seq_max(s: Seq<int>)
    requires
        s.len() > 0,
    ensures
        forall|i: int| 0 <= i < s.len() ==> #[trigger] s[i] <= seq_max(s),
        exists|i: int| 0 <= i < s.len() && s[i] == seq_max(s),
    decreases s.len(),
{
    if s.len() > 1 {
        let t = s.drop_last();
        lemma_seq_max(t);
        let j = choose|j: int| 0 <= j < t.len() && t[j] == seq_max(t);
        assert(s[j] == t[j]);
        assert forall|i: int| 0 <= i < s.len() implies s[i] <= seq_max(s) by {
            if i < t.len() {
                assert(s[i] == t[i]);
            } else {
                assert(s[i] == s.last());
            }
        }
    } else {
        assert(s[0] == seq_max(s));
    }
}

/// The bounding rectangle of a non-empty point sequence is its minimal cover.
pub proof fn lemma_bounding_rect_minimal(s: Seq<Point>)
    requires
        s.len() > 0,
    ensures
        is_minimal_cover(bounding_rect_of(s), s),
{
    let (x, y) = (xs(s), ys(s));
    lemma_seq_min(x);
    lemma_seq_max(x);
    lemma_seq_min(y);
    lemma_seq_max(y);
    let ix0 = choose|i: int| 0 <= i < x.len() && x[i] == seq_min(x);
    let ix1 = choose|i: int| 0 <= i < x.len() && x[i] == seq_max(x);
    let iy0 = choose|i: int| 0 <= i < y.len() && y[i] == seq_min(y);
    let iy1 = choose|i: int| 0 <= i < y.len() && y[i] == seq_max(y);
    let r = bounding_rect_of(s);
    assert(r.x == seq_min(x));
    assert(r.y == seq_min(y));
    assert(r.width == seq_max(x) - seq_min(x) + 1);
    assert(r.height == seq_max(y) - seq_min(y) + 1);
    assert forall|i: int| 0 <= i < s.len() implies #[trigger] covers(r, s[i]) by {
        assert(x[i] == s[i].x);
        assert(y[i] == s[i].y);
    }
    assert(s[ix0].x == r.x);
    assert(s[iy0].y == r.y);
    assert(s[ix1].x == r.x + r.width - 1);
    assert(s[iy1].y == r.y + r.height - 1);
}

} // verus!
