use sprite_widgets::{
    DirDown, DirLeft, DirRight, DirUp, GridLayout, Layout, Point, Size, WrapLayout, DIR_DOWN,
    DIR_LTR, DIR_RTL, DIR_UP, UNWRAPPED,
};

#[test]
fn right_wraps_after_three_cells() {
    let expected = [(0, 0), (8, 0), (16, 0), (0, 8), (8, 8), (16, 8)];
    for (i, (x, y)) in expected.iter().enumerate() {
        let p = <WrapLayout<DirRight, 3>>::layout(i, Point::zero(), Size::new(8, 8));
        assert_eq!(p, Point::new(*x, *y));
    }
}

#[test]
fn left_places_cells_before_origin() {
    let first = <WrapLayout<DirLeft, 2>>::layout(0, Point::new(100, 10), Size::new(6, 8));
    let second = <WrapLayout<DirLeft, 2>>::layout(1, Point::new(100, 10), Size::new(6, 8));
    let third = <WrapLayout<DirLeft, 2>>::layout(2, Point::new(100, 10), Size::new(6, 8));
    assert_eq!(first, Point::new(100, 10));
    assert_eq!(second, Point::new(94, 10));
    assert_eq!(third, Point::new(100, 18));
}

#[test]
fn down_and_up_flow_vertically() {
    let d = <WrapLayout<DirDown, 2>>::layout(3, Point::new(0, 0), Size::new(5, 7));
    assert_eq!(d, Point::new(5, 7));
    let u = <WrapLayout<DirUp, 4>>::layout(1, Point::new(10, 64), Size::new(5, 8));
    assert_eq!(u, Point::new(10, 56));
}

#[test]
fn unwrapped_stays_on_one_line() {
    let p = <WrapLayout<DirRight, UNWRAPPED>>::layout(20, Point::new(1, 2), Size::new(6, 8));
    assert_eq!(p, Point::new(121, 2));
}

#[test]
fn grid_layout_matches_wrap_layout() {
    for i in 0..6 {
        let o = Point::new(100, 100);
        let s = Size::new(8, 8);
        assert_eq!(<GridLayout<DIR_LTR, 3>>::layout(i, o, s), <WrapLayout<DirRight, 3>>::layout(i, o, s));
        assert_eq!(<GridLayout<DIR_RTL, 3>>::layout(i, o, s), <WrapLayout<DirLeft, 3>>::layout(i, o, s));
        assert_eq!(<GridLayout<DIR_DOWN, 3>>::layout(i, o, s), <WrapLayout<DirDown, 3>>::layout(i, o, s));
        assert_eq!(<GridLayout<DIR_UP, 3>>::layout(i, o, s), <WrapLayout<DirUp, 3>>::layout(i, o, s));
    }
}

#[test]
fn wrap_keeps_low_eight_bits_of_line_index() {
    let info = <WrapLayout<DirRight, 1000>>::wrap(300, Size::new(1, 1));
    assert_eq!(info.idx, 44);
    assert_eq!(info.wraps, 0);
    assert_eq!(info.width, 1);
    assert_eq!(info.height, 1);
}
