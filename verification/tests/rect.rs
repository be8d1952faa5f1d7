use bevy_text_mesh::PixelRect;

fn rect(min_x: u32, min_y: u32, max_x: u32, max_y: u32) -> PixelRect {
    PixelRect { min_x, min_y, max_x, max_y }
}

#[test]
fn width_and_height_are_the_extent() {
    let r = rect(10, 20, 50, 70);
    assert_eq!(r.width(), 40);
    assert_eq!(r.height(), 50);
}

#[test]
fn shrink_moves_every_edge_inwards() {
    assert_eq!(rect(10, 20, 50, 70).shrink(6), rect(16, 26, 44, 64));
}

#[test]
fn shrink_by_nothing_changes_nothing() {
    assert_eq!(rect(10, 20, 50, 70).shrink(0), rect(10, 20, 50, 70));
}

#[test]
fn shrink_of_a_rect_of_twice_the_margin_is_a_point() {
    assert_eq!(rect(0, 0, 12, 12).shrink(6), rect(6, 6, 6, 6));
}

#[test]
fn shrink_of_a_narrow_rect_stops_at_the_upper_corner() {
    // 5 wide, margin 6: the upper corner moves to 4, and the lower stops there
    assert_eq!(rect(5, 5, 10, 10).shrink(6), rect(4, 4, 4, 4));
}

#[test]
fn shrink_near_the_origin_stops_at_zero() {
    assert_eq!(rect(0, 0, 3, 4).shrink(6), rect(0, 0, 0, 0));
}

#[test]
fn shrink_treats_the_axes_apart() {
    assert_eq!(rect(100, 0, 200, 4).shrink(6), rect(106, 0, 194, 0));
}
