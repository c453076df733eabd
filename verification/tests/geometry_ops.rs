use wm::geometry::{Rect, sat_add_i64, sat_sub_i64};

#[test]
fn rect_from_edges() {
    let r = Rect::from_ltrb(10, 20, 110, 70);
    assert_eq!(r, Rect::from_xy(10, 20, 100, 50));
}

#[test]
fn translate_moves_origin_and_keeps_extent() {
    let r = Rect::from_xy(100, 200, 50, 40);
    assert_eq!(r.translate(10, -5), Rect::from_xy(110, 195, 50, 40));
    assert_eq!(r.translate(0, 0), r);
}

#[test]
fn arithmetic_saturates_at_the_bounds() {
    assert_eq!(sat_add_i64(i64::MAX, 1), i64::MAX);
    assert_eq!(sat_add_i64(i64::MIN, -1), i64::MIN);
    assert_eq!(sat_sub_i64(i64::MIN, 1), i64::MIN);
    assert_eq!(sat_sub_i64(3, 5), -2);
    let r = Rect::from_xy(i64::MAX - 1, 0, 10, 10);
    assert_eq!(r.translate(5, 0).x, i64::MAX);
}
