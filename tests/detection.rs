use shape_trace::{
    bounding_rect, contour_doubled_area, find_shapes, gray_conversion, shape_kind, trace_shapes,
    ContourSet, DetectionConfig, GrayConversion, Point, Rect, ShapeError, ShapeKind, Stage,
};

fn pts(coords: &[(i32, i32)]) -> Vec<Point> {
    coords.iter().map(|&(x, y)| Point::new(x, y)).collect()
}

fn top_level(contours: Vec<Vec<Point>>) -> ContourSet {
    ContourSet::top_level(contours)
}

#[test]
fn doubled_area_of_square_and_triangle() {
    assert_eq!(contour_doubled_area(&pts(&[(0, 0), (10, 0), (10, 10), (0, 10)])), 200);
    assert_eq!(contour_doubled_area(&pts(&[(0, 10), (10, 10), (10, 0), (0, 0)])), 200);
    assert_eq!(contour_doubled_area(&pts(&[(10, 10), (40, 10), (25, 40)])), 900);
    assert_eq!(contour_doubled_area(&pts(&[])), 0);
    assert_eq!(contour_doubled_area(&pts(&[(5, 5)])), 0);
}

#[test]
fn doubled_area_of_extreme_coordinates() {
    let c = pts(&[(i32::MIN, i32::MIN), (i32::MAX, i32::MIN), (i32::MAX, i32::MAX), (i32::MIN, i32::MAX)]);
    let side = (i32::MAX as i128) - (i32::MIN as i128);
    assert_eq!(contour_doubled_area(&c), 2 * side * side);
}

#[test]
fn bounding_rect_is_tight() {
    let c = pts(&[(5, 7), (12, 3), (9, 20), (2, 11)]);
    assert_eq!(bounding_rect(&c), Rect { x: 2, y: 3, width: 11, height: 18 });
    assert_eq!(bounding_rect(&pts(&[(4, 4)])), Rect { x: 4, y: 4, width: 1, height: 1 });
    assert_eq!(bounding_rect(&pts(&[])), Rect { x: 0, y: 0, width: 0, height: 0 });
}

#[test]
fn single_triangle_gives_three_vertices() {
    let tri = pts(&[(10, 10), (40, 10), (25, 40)]);
    let set = top_level(vec![tri.clone()]);
    let shapes = find_shapes(&set, &vec![tri.clone()], &DetectionConfig::default()).unwrap();
    assert_eq!(shapes.len(), 1);
    assert_eq!(shapes[0].vertex_count, 3);
    assert_eq!(shapes[0].kind(), ShapeKind::Triangle);
    assert_eq!(shapes[0].bounding_box, Rect { x: 10, y: 10, width: 31, height: 31 });
    assert_eq!(shapes[0].contour, tri);
    assert_eq!(shapes[0].coordinates(), Point::new(10, 10));
}

#[test]
fn quadrilateral_pentagon_hexagon() {
    // traced outlines carry more points than their simplified polygons
    let quad = pts(&[(0, 0), (15, 0), (30, 0), (30, 30), (0, 30)]);
    let quad_approx = pts(&[(0, 0), (30, 0), (30, 30), (0, 30)]);
    let pent = pts(&[(100, 0), (130, 20), (120, 50), (80, 50), (70, 20)]);
    let hex = pts(&[(220, 0), (250, 0), (265, 25), (250, 50), (220, 50), (205, 25)]);
    let set = top_level(vec![quad, pent.clone(), hex.clone()]);
    let shapes =
        find_shapes(&set, &vec![quad_approx, pent, hex], &DetectionConfig::default()).unwrap();
    let counts: Vec<usize> = shapes.iter().map(|s| s.vertex_count).collect();
    assert_eq!(counts, vec![4, 5, 6]);
    let kinds: Vec<ShapeKind> = shapes.iter().map(|s| s.kind()).collect();
    assert_eq!(kinds, vec![ShapeKind::Quadrilateral, ShapeKind::Pentagon, ShapeKind::Hexagon]);
}

#[test]
fn area_of_exactly_min_is_excluded() {
    let square = pts(&[(0, 0), (10, 0), (10, 10), (0, 10)]);
    let set = top_level(vec![square.clone()]);
    let shapes = find_shapes(&set, &vec![square], &DetectionConfig::default()).unwrap();
    assert!(shapes.is_empty());
}

#[test]
fn area_just_above_min_is_included() {
    let tri = pts(&[(0, 0), (101, 0), (0, 2)]);
    assert_eq!(contour_doubled_area(&tri), 202);
    let set = top_level(vec![tri.clone()]);
    let shapes = find_shapes(&set, &vec![tri], &DetectionConfig::default()).unwrap();
    assert_eq!(shapes.len(), 1);
    assert_eq!(shapes[0].bounding_box, Rect { x: 0, y: 0, width: 102, height: 3 });
}

#[test]
fn small_contours_give_no_shapes_and_empty_overlay() {
    let a = pts(&[(0, 0), (5, 0), (5, 5), (0, 5)]);
    let b = pts(&[(50, 50), (52, 50), (52, 90)]);
    let set = top_level(vec![a.clone(), b.clone()]);
    let approx = vec![a, b];
    let shapes = find_shapes(&set, &approx, &DetectionConfig::default()).unwrap();
    assert!(shapes.is_empty());
    let overlay = trace_shapes(&set, &approx, &DetectionConfig::default()).unwrap();
    assert!(overlay.polylines.is_empty());
}

#[test]
fn no_contours_give_no_shapes() {
    let set = top_level(vec![]);
    assert!(find_shapes(&set, &vec![], &DetectionConfig::default()).unwrap().is_empty());
}

#[test]
fn detection_is_deterministic() {
    let quad = pts(&[(0, 0), (30, 0), (30, 30), (0, 30)]);
    let tri = pts(&[(100, 10), (140, 10), (120, 60)]);
    let set = top_level(vec![quad.clone(), tri.clone()]);
    let approx = vec![quad, tri];
    let cfg = DetectionConfig::default();
    let first = find_shapes(&set, &approx, &cfg).unwrap();
    let second = find_shapes(&set, &approx, &cfg).unwrap();
    assert_eq!(first.len(), second.len());
    for (a, b) in first.iter().zip(second.iter()) {
        assert_eq!(a.vertex_count, b.vertex_count);
        assert_eq!(a.bounding_box, b.bounding_box);
        assert_eq!(a.contour, b.contour);
    }
    let o1 = trace_shapes(&set, &approx, &cfg).unwrap();
    let o2 = trace_shapes(&set, &approx, &cfg).unwrap();
    assert_eq!(o1.polylines, o2.polylines);
}

#[test]
fn bounding_box_of_retained_shape_covers_contour() {
    let c = pts(&[(20, 5), (45, 18), (38, 44), (9, 37), (3, 15)]);
    let set = top_level(vec![c.clone()]);
    let shapes = find_shapes(&set, &vec![c.clone()], &DetectionConfig::default()).unwrap();
    let r = shapes[0].bounding_box;
    assert_eq!(r, Rect { x: 3, y: 5, width: 43, height: 40 });
    for p in &c {
        assert!(r.x <= p.x && (p.x as i64) < r.x as i64 + r.width);
        assert!(r.y <= p.y && (p.y as i64) < r.y as i64 + r.height);
    }
}

#[test]
fn nested_contours_are_ignored() {
    let outer = pts(&[(0, 0), (100, 0), (100, 100), (0, 100)]);
    let inner = pts(&[(20, 20), (80, 20), (80, 80), (20, 80)]);
    let set = ContourSet::new(vec![outer.clone(), inner.clone()], vec![None, Some(0)]).unwrap();
    let shapes = find_shapes(&set, &vec![outer.clone(), inner], &DetectionConfig::default()).unwrap();
    assert_eq!(shapes.len(), 1);
    assert_eq!(shapes[0].contour, outer);
}

#[test]
fn degenerate_approximation_is_an_error() {
    let c = pts(&[(0, 0), (200, 0), (200, 3), (0, 3)]);
    let set = top_level(vec![c]);
    let approx = vec![pts(&[(0, 0), (200, 0)])];
    let r = find_shapes(&set, &approx, &DetectionConfig::default());
    assert_eq!(r.unwrap_err(), ShapeError::Processing(Stage::Approximation));
    let t = trace_shapes(&set, &approx, &DetectionConfig::default());
    assert_eq!(t.unwrap_err(), ShapeError::Processing(Stage::Approximation));
}

#[test]
fn degenerate_approximation_of_small_contour_is_ignored() {
    let c = pts(&[(0, 0), (20, 0), (20, 3), (0, 3)]);
    let set = top_level(vec![c]);
    let approx = vec![pts(&[(0, 0), (20, 0)])];
    assert!(find_shapes(&set, &approx, &DetectionConfig::default()).unwrap().is_empty());
}

#[test]
fn missing_approximation_is_an_error() {
    let c = pts(&[(0, 0), (30, 0), (30, 30), (0, 30)]);
    let set = top_level(vec![c]);
    let r = find_shapes(&set, &vec![], &DetectionConfig::default());
    assert_eq!(r.unwrap_err(), ShapeError::Processing(Stage::Approximation));
}

#[test]
fn invalid_hierarchy_is_rejected() {
    let c = pts(&[(0, 0), (30, 0), (30, 30), (0, 30)]);
    let e = ShapeError::Processing(Stage::ContourExtraction);
    assert_eq!(ContourSet::new(vec![c.clone()], vec![]).unwrap_err(), e);
    assert_eq!(ContourSet::new(vec![c.clone()], vec![Some(1)]).unwrap_err(), e);
    assert_eq!(ContourSet::new(vec![c.clone()], vec![Some(0)]).unwrap_err(), e);
    let ok = ContourSet::new(vec![c.clone(), c], vec![Some(1), None]).unwrap();
    assert_eq!(ok.len(), 2);
    assert_eq!(ok.parent(0), Some(1));
    assert_eq!(ok.parent(1), None);
}

#[test]
fn custom_min_area_is_honoured() {
    let square = pts(&[(0, 0), (10, 0), (10, 10), (0, 10)]);
    let set = top_level(vec![square.clone()]);
    let cfg = DetectionConfig { min_area: 99, ..DetectionConfig::default() };
    assert_eq!(find_shapes(&set, &vec![square], &cfg).unwrap().len(), 1);
}

#[test]
fn overlay_is_green_two_pixels() {
    let tri = pts(&[(10, 10), (40, 10), (25, 40)]);
    let small = pts(&[(0, 0), (2, 0), (0, 2)]);
    let set = top_level(vec![small.clone(), tri.clone()]);
    let overlay =
        trace_shapes(&set, &vec![small, tri.clone()], &DetectionConfig::default()).unwrap();
    assert_eq!(overlay.color.red, 0);
    assert_eq!(overlay.color.green, 255);
    assert_eq!(overlay.color.blue, 0);
    assert_eq!(overlay.thickness, 2);
    assert_eq!(overlay.polylines, vec![tri]);
}

#[test]
fn default_config_values() {
    let cfg = DetectionConfig::default();
    assert_eq!(cfg.canny_low, 50);
    assert_eq!(cfg.canny_high, 150);
    assert_eq!(cfg.aperture, 3);
    assert!(!cfg.use_l2_gradient);
    assert_eq!(cfg.min_area, 100);
    assert_eq!(cfg.approx_epsilon_percent, 4);
}

#[test]
fn shape_kinds() {
    assert_eq!(shape_kind(3), ShapeKind::Triangle);
    assert_eq!(shape_kind(4), ShapeKind::Quadrilateral);
    assert_eq!(shape_kind(5), ShapeKind::Pentagon);
    assert_eq!(shape_kind(6), ShapeKind::Hexagon);
    assert_eq!(shape_kind(7), ShapeKind::Polygon(7));
    assert_eq!(shape_kind(12), ShapeKind::Polygon(12));
}

#[test]
fn gray_conversion_by_channels() {
    assert_eq!(gray_conversion(1), Ok(GrayConversion::Unchanged));
    assert_eq!(gray_conversion(3), Ok(GrayConversion::FromBgr));
    assert_eq!(gray_conversion(4), Ok(GrayConversion::FromBgra));
    assert_eq!(gray_conversion(2), Err(ShapeError::Decode));
    assert_eq!(gray_conversion(0), Err(ShapeError::Decode));
}

#[test]
fn polygons_in_other_tracing_orders() {
    let quad = pts(&[(0, 0), (30, 0), (30, 30), (0, 30)]);
    let pent = pts(&[(100, 0), (130, 20), (120, 50), (80, 50), (70, 20)]);
    let hex = pts(&[(220, 0), (250, 0), (265, 25), (250, 50), (220, 50), (205, 25)]);
    let orders: [[usize; 3]; 3] = [[2, 0, 1], [1, 2, 0], [2, 1, 0]];
    let all = [quad, pent, hex];
    for order in orders {
        let cs: Vec<Vec<Point>> = order.iter().map(|&k| all[k].clone()).collect();
        let set = top_level(cs.clone());
        let shapes = find_shapes(&set, &cs, &DetectionConfig::default()).unwrap();
        assert_eq!(shapes.len(), 3);
        for (s, &k) in shapes.iter().zip(order.iter()) {
            assert_eq!(s.vertex_count, k + 4);
            assert_eq!(s.contour, all[k]);
        }
    }
}

#[test]
fn area_just_above_min_among_other_contours() {
    let small = pts(&[(200, 200), (210, 200), (210, 210), (200, 210)]);
    let tri = pts(&[(0, 0), (101, 0), (0, 2)]);
    let big = pts(&[(300, 300), (340, 300), (340, 340), (300, 340)]);
    let cs = vec![small, tri.clone(), big.clone()];
    let set = top_level(cs.clone());
    let shapes = find_shapes(&set, &cs, &DetectionConfig::default()).unwrap();
    assert_eq!(shapes.len(), 2);
    assert_eq!(shapes[0].contour, tri);
    assert_eq!(shapes[1].contour, big);
}

#[test]
fn retains_matches_the_area_rule() {
    let square = pts(&[(0, 0), (10, 0), (10, 10), (0, 10)]);
    let tri = pts(&[(0, 0), (101, 0), (0, 2)]);
    let set = ContourSet::new(vec![square, tri.clone(), tri], vec![None, None, Some(1)]).unwrap();
    assert!(!set.retains(0, 100));
    assert!(set.retains(1, 100));
    assert!(!set.retains(2, 100));
    assert!(set.retains(0, 99));
}

#[test]
fn shape_and_point_text() {
    assert_eq!(Point::new(10, -7).describe(), "(10, -7)");
    assert_eq!(Point::new(0, 0).describe(), "(0, 0)");
    assert_eq!(Point::new(i32::MIN, i32::MAX).describe(), "(-2147483648, 2147483647)");
    let tri = pts(&[(10, 12), (40, 12), (25, 40)]);
    let set = top_level(vec![tri.clone()]);
    let shapes = find_shapes(&set, &vec![tri], &DetectionConfig::default()).unwrap();
    assert_eq!(shapes[0].describe(), "3 vertices @ (10, 12)");
}
