use bevy_text_mesh::outline::coords_equal;
use bevy_text_mesh::Point;
use bevy_text_mesh::Segment;
use bevy_text_mesh::ShapeBuilder;

fn b(v: f32) -> u32 {
    v.to_bits()
}

fn p(x: f32, y: f32) -> Point {
    Point { x: b(x), y: b(y) }
}

#[test]
fn coordinates_compare_as_numbers() {
    let values = [
        0.0f32,
        -0.0,
        1.0,
        -1.0,
        1.5,
        f32::MIN_POSITIVE,
        f32::MAX,
        f32::INFINITY,
        f32::NEG_INFINITY,
        f32::NAN,
        -f32::NAN,
        1e-40,
    ];
    for x in values {
        for y in values {
            assert_eq!(coords_equal(x.to_bits(), y.to_bits()), x == y);
        }
    }
}

#[test]
fn points_compare_by_both_coordinates() {
    assert!(p(1.0, 2.0).is_same(&p(1.0, 2.0)));
    assert!(p(0.0, -0.0).is_same(&p(-0.0, 0.0)));
    assert!(!p(1.0, 2.0).is_same(&p(1.0, 3.0)));
    assert!(!p(1.0, 2.0).is_same(&p(0.0, 2.0)));
    assert!(!p(f32::NAN, 2.0).is_same(&p(f32::NAN, 2.0)));
}

#[test]
fn a_new_builder_has_gathered_nothing() {
    let builder = ShapeBuilder::new();
    assert!(builder.contours().is_empty());
    assert!(!builder.has_current_point());
}

#[test]
fn a_closed_triangle_keeps_its_three_lines() {
    let mut builder = ShapeBuilder::new();
    builder.move_to(b(0.0), b(0.0));
    assert!(builder.has_current_point());
    builder.line_to(b(10.0), b(0.0));
    builder.line_to(b(5.0), b(8.0));
    builder.line_to(b(0.0), b(0.0));
    builder.close();
    assert_eq!(
        builder.contours(),
        &vec![vec![
            Segment::Line(p(0.0, 0.0), p(10.0, 0.0)),
            Segment::Line(p(10.0, 0.0), p(5.0, 8.0)),
            Segment::Line(p(5.0, 8.0), p(0.0, 0.0)),
        ]]
    );
    // the contour was closed already, so the pen stays where it is
    assert!(builder.has_current_point());
}

#[test]
fn an_open_contour_is_closed_by_a_line() {
    let mut builder = ShapeBuilder::new();
    builder.move_to(b(0.0), b(0.0));
    builder.line_to(b(10.0), b(0.0));
    builder.line_to(b(5.0), b(8.0));
    builder.close();
    assert_eq!(
        builder.contours(),
        &vec![vec![
            Segment::Line(p(0.0, 0.0), p(10.0, 0.0)),
            Segment::Line(p(10.0, 0.0), p(5.0, 8.0)),
            Segment::Line(p(5.0, 8.0), p(0.0, 0.0)),
        ]]
    );
    // the closing line was added, and the pen was lifted
    assert!(!builder.has_current_point());
}

#[test]
fn moving_away_closes_an_open_contour() {
    let mut builder = ShapeBuilder::new();
    builder.move_to(b(0.0), b(0.0));
    builder.line_to(b(10.0), b(0.0));
    builder.move_to(b(20.0), b(20.0));
    builder.line_to(b(30.0), b(20.0));
    assert_eq!(
        builder.contours(),
        &vec![
            vec![
                Segment::Line(p(0.0, 0.0), p(10.0, 0.0)),
                Segment::Line(p(10.0, 0.0), p(0.0, 0.0)),
            ],
            vec![Segment::Line(p(20.0, 20.0), p(30.0, 20.0))],
        ]
    );
}

#[test]
fn moving_after_a_close_adds_no_second_closing_line() {
    let mut builder = ShapeBuilder::new();
    builder.move_to(b(0.0), b(0.0));
    builder.line_to(b(10.0), b(0.0));
    builder.close();
    builder.move_to(b(1.0), b(1.0));
    assert_eq!(
        builder.contours(),
        &vec![
            vec![
                Segment::Line(p(0.0, 0.0), p(10.0, 0.0)),
                Segment::Line(p(10.0, 0.0), p(0.0, 0.0)),
            ],
            vec![],
        ]
    );
    assert!(builder.has_current_point());
}

#[test]
fn two_moves_in_a_row_leave_an_empty_contour() {
    let mut builder = ShapeBuilder::new();
    builder.move_to(b(0.0), b(0.0));
    builder.move_to(b(1.0), b(1.0));
    let empty: Vec<Segment> = vec![];
    assert_eq!(builder.contours(), &vec![empty.clone(), empty]);
}

#[test]
fn closing_before_any_move_does_nothing() {
    let mut builder = ShapeBuilder::new();
    builder.close();
    assert!(builder.contours().is_empty());
    assert!(!builder.has_current_point());
}

#[test]
fn curves_keep_their_control_points() {
    let mut builder = ShapeBuilder::new();
    builder.move_to(b(0.0), b(0.0));
    builder.quad_to(b(1.0), b(2.0), b(3.0), b(4.0));
    builder.curve_to(b(5.0), b(6.0), b(7.0), b(8.0), b(0.0), b(0.0));
    builder.close();
    assert_eq!(
        builder.contours(),
        &vec![vec![
            Segment::Quad(p(0.0, 0.0), p(1.0, 2.0), p(3.0, 4.0)),
            Segment::Cubic(p(3.0, 4.0), p(5.0, 6.0), p(7.0, 8.0), p(0.0, 0.0)),
        ]]
    );
}

#[test]
fn a_return_to_the_other_zero_closes_the_contour() {
    let mut builder = ShapeBuilder::new();
    builder.move_to(b(0.0), b(0.0));
    builder.line_to(b(10.0), b(0.0));
    builder.line_to(b(-0.0), b(-0.0));
    builder.close();
    assert_eq!(builder.contours()[0].len(), 2);
    assert!(builder.has_current_point());
}

#[test]
fn a_contour_that_begins_at_a_nan_never_counts_as_closed() {
    let mut builder = ShapeBuilder::new();
    builder.move_to(b(f32::NAN), b(0.0));
    builder.close();
    assert_eq!(
        builder.contours(),
        &vec![vec![Segment::Line(p(f32::NAN, 0.0), p(f32::NAN, 0.0))]]
    );
    assert!(!builder.has_current_point());
}
