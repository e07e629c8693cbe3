use sprite_widgets::{
    clear_plan, Background, Canvas, Display, FlashSprite, GlyphIcon, Glyphs, Group, Icon, Label,
    Mux, MuxNode, Point,
    Rectangle, RenderRequest, Size, SpriteDisplay, Tile, Widget, WrapPanel,
};

#[derive(Default)]
struct Requests {
    seen: Vec<RenderRequest>,
}

impl Display for Requests {
    fn render(&mut self, req: RenderRequest) {
        self.seen.push(req);
    }
}

#[derive(Default)]
struct Draws {
    seen: Vec<(Rectangle, Vec<u8>)>,
}

impl Canvas for Draws {
    fn draw(&mut self, bounds: Rectangle, bitmap: &[u8]) {
        self.seen.push((bounds, bitmap.to_vec()));
    }
}

fn req(x: u8, y: u8, id: u8, glyph: u8) -> RenderRequest {
    RenderRequest::new(Point::new(x, y), id, glyph)
}

#[test]
fn icon_renders_once_until_changed() {
    let mut icon: GlyphIcon = Icon::new(3, b'a', Point::new(4, 5));
    let mut d = Requests::default();
    icon.render(&mut d);
    assert_eq!(d.seen, vec![req(4, 5, 3, b'a')]);
    icon.render(&mut d);
    assert_eq!(d.seen.len(), 1);
    icon.update(b'a');
    icon.render(&mut d);
    assert_eq!(d.seen.len(), 1);
    icon.update(b'b');
    icon.render(&mut d);
    assert_eq!(d.seen, vec![req(4, 5, 3, b'a'), req(4, 5, 3, b'b')]);
    icon.invalidate();
    icon.render(&mut d);
    assert_eq!(d.seen.len(), 3);
}

#[test]
fn label_first_render_paints_every_cell() {
    let mut label: Label<4> = Label::new(1, "hi", Point::new(0, 0), Size::new(6, 8));
    let mut d = Requests::default();
    label.render(&mut d);
    assert_eq!(d.seen, vec![req(0, 0, 1, b'h'), req(6, 0, 1, b'i'), req(12, 0, 1, 0), req(18, 0, 1, 0)]);
    label.render(&mut d);
    assert_eq!(d.seen.len(), 4);
}

#[test]
fn second_render_issues_nothing() {
    let mut label: Label<3> = Label::new(2, "abc", Point::new(0, 0), Size::new(8, 8));
    let mut d = Requests::default();
    label.render(&mut d);
    let after_first = d.seen.len();
    assert_eq!(after_first, 3);
    label.render(&mut d);
    assert_eq!(d.seen.len(), after_first);
}

#[test]
fn update_marks_only_changed_cells() {
    let mut label: Label<5> = Label::new(0, "hello", Point::new(0, 0), Size::new(8, 8));
    let mut d = Requests::default();
    label.update(b"hello");
    label.render(&mut d);
    assert_eq!(d.seen.len(), 5);
    d.seen.clear();
    label.update(b"hello");
    label.render(&mut d);
    assert!(d.seen.is_empty());
    label.update(b"jello");
    label.update(b"jelly");
    label.render(&mut d);
    assert_eq!(d.seen, vec![req(0, 0, 0, b'j'), req(32, 0, 0, b'y')]);
}

#[test]
fn invalidate_redraws_every_cell() {
    let mut label: Label<3> = Label::new(0, "", Point::new(0, 0), Size::new(8, 8));
    let mut d = Requests::default();
    label.render(&mut d);
    assert_eq!(d.seen.len(), 3);
    label.render(&mut d);
    assert_eq!(d.seen.len(), 3);
    label.invalidate();
    label.render(&mut d);
    assert_eq!(d.seen[3..], [req(0, 0, 0, 0), req(8, 0, 0, 0), req(16, 0, 0, 0)]);
}

#[test]
fn set_glyph_marks_one_cell() {
    let mut panel: WrapPanel<4, 2> = WrapPanel::new(9, "abcd", Point::new(0, 0), Size::new(8, 8));
    let mut d = Requests::default();
    panel.render(&mut d);
    d.seen.clear();
    panel.set_glyph(3, b'd');
    panel.set_glyph(2, b'z');
    panel.render(&mut d);
    assert_eq!(d.seen, vec![req(0, 8, 9, b'z')]);
}

#[test]
fn write_str_wraps_round_the_cells() {
    let mut label: Label<3> = Label::new(0, "", Point::new(0, 0), Size::new(8, 8));
    let mut d = Requests::default();
    label.write_str("ab");
    label.write_str("cd");
    label.render(&mut d);
    assert_eq!(d.seen, vec![req(0, 0, 0, b'd'), req(8, 0, 0, b'b'), req(16, 0, 0, b'c')]);
}

#[test]
fn tile_covers_block_column_by_column() {
    let mut tile = Tile::new(4, b'#', Point::new(10, 20), Size::new(8, 8), 2, 2);
    let mut d = Requests::default();
    tile.render(&mut d);
    assert_eq!(
        d.seen,
        vec![req(10, 20, 4, b'#'), req(10, 28, 4, b'#'), req(18, 20, 4, b'#'), req(18, 28, 4, b'#')]
    );
    tile.render(&mut d);
    assert_eq!(d.seen.len(), 4);
    tile.update(b'#');
    tile.render(&mut d);
    assert_eq!(d.seen.len(), 4);
    tile.update(b'.');
    tile.render(&mut d);
    assert_eq!(d.seen.len(), 8);
}

#[test]
fn sprite_display_blits_glyph_bitmap() {
    let digits = FlashSprite::new(1, 3, Size::new(8, 8), &[0, 0, 1, 1, 2, 2]);
    let mut display = SpriteDisplay::new(Draws::default(), [(digits, Glyphs::Alphabet(b"abc"))]);
    display.render(req(5, 6, 1, b'b'));
    let expected = Rectangle::new(Point::new(5, 6), Size::new(8, 8));
    assert_eq!(display.canvas().seen, vec![(expected, vec![1, 1])]);
}

#[test]
fn missing_glyph_draws_nothing_and_later_update_draws() {
    let digits = FlashSprite::new(1, 3, Size::new(8, 8), &[0, 0, 1, 1, 2, 2]);
    let mut display = SpriteDisplay::new(Draws::default(), [(digits, Glyphs::Alphabet(b"abc"))]);
    let mut icon = Icon::new(1, b'z', Point::new(0, 0));
    icon.render(&mut display);
    assert!(display.canvas().seen.is_empty());
    icon.update(b'c');
    icon.render(&mut display);
    let expected = Rectangle::new(Point::new(0, 0), Size::new(8, 8));
    assert_eq!(display.canvas().seen, vec![(expected, vec![2, 2])]);
}

#[test]
fn unknown_sprite_draws_nothing() {
    let digits = FlashSprite::new(1, 1, Size::new(8, 8), &[7]);
    let mut display = SpriteDisplay::new(Draws::default(), [(digits, Glyphs::Single)]);
    display.render(req(0, 0, 2, 0));
    assert!(display.canvas().seen.is_empty());
}

#[test]
fn pair_of_displays_both_render() {
    let mut pair = (Requests::default(), Requests::default());
    pair.render(req(1, 2, 3, 4));
    assert_eq!(pair.0.seen, vec![req(1, 2, 3, 4)]);
    assert_eq!(pair.1.seen, vec![req(1, 2, 3, 4)]);
}

#[test]
fn clear_plan_tiles_in_eights() {
    let plan = clear_plan(Rectangle::new(Point::new(2, 3), Size::new(12, 8)));
    assert_eq!(
        plan,
        vec![
            (Rectangle::new(Point::new(2, 3), Size::new(8, 8)), 8),
            (Rectangle::new(Point::new(10, 3), Size::new(4, 8)), 4),
        ]
    );
}

#[test]
fn clear_rounds_tile_bytes_up_and_writes_zeros() {
    let mut canvas = Draws::default();
    canvas.clear(Rectangle::new(Point::new(0, 0), Size::new(9, 8)));
    assert_eq!(
        canvas.seen,
        vec![
            (Rectangle::new(Point::new(0, 0), Size::new(8, 8)), vec![0; 8]),
            (Rectangle::new(Point::new(8, 0), Size::new(1, 8)), vec![0; 1]),
        ]
    );
    let mut canvas = Draws::default();
    canvas.clear(Rectangle::new(Point::new(0, 0), Size::new(3, 2)));
    assert_eq!(canvas.seen, vec![(Rectangle::new(Point::new(0, 0), Size::new(3, 2)), vec![0; 1])]);
}

#[test]
fn background_clears_once() {
    let mut bg = Background::new(Point::new(0, 0), Size::new(16, 8));
    let mut canvas = Draws::default();
    bg.render(&mut canvas);
    assert_eq!(canvas.seen.len(), 2);
    bg.update(());
    bg.render(&mut canvas);
    assert_eq!(canvas.seen.len(), 2);
    bg.invalidate();
    bg.render(&mut canvas);
    assert_eq!(canvas.seen.len(), 4);
}

#[test]
fn group_renders_both_children_in_order() {
    let a = Icon::new(1, b'a', Point::new(0, 0));
    let b = Icon::new(2, b'b', Point::new(8, 0));
    let mut group = Group::new(a, b);
    let mut d = Requests::default();
    group.render(&mut d);
    assert_eq!(d.seen, vec![req(0, 0, 1, b'a'), req(8, 0, 2, b'b')]);
    group.render(&mut d);
    assert_eq!(d.seen.len(), 2);
    group.update((b'a', b'c'));
    group.render(&mut d);
    assert_eq!(d.seen[2..], [req(8, 0, 2, b'c')]);
    group.invalidate();
    group.render(&mut d);
    assert_eq!(d.seen.len(), 5);
}

#[test]
fn mux_draws_active_child_and_repaints_on_switch() {
    let a = Icon::new(1, b'a', Point::new(0, 0));
    let b = Icon::new(2, b'b', Point::new(0, 0));
    let mut mux = Mux::new(a, b, MuxNode::First);
    let mut d = Requests::default();
    mux.render(&mut d);
    assert_eq!(d.seen, vec![req(0, 0, 1, b'a')]);
    mux.set_active(MuxNode::Second);
    assert_eq!(mux.active(), MuxNode::Second);
    mux.render(&mut d);
    assert_eq!(d.seen[1..], [req(0, 0, 2, b'b')]);
    mux.set_active(MuxNode::Second);
    mux.render(&mut d);
    assert_eq!(d.seen.len(), 2);
    mux.set_active(MuxNode::First);
    mux.render(&mut d);
    assert_eq!(d.seen[2..], [req(0, 0, 1, b'a')]);
}

#[test]
fn clear_near_far_edge() {
    let plan = clear_plan(Rectangle::new(Point::new(240, 247), Size::new(15, 8)));
    assert_eq!(
        plan,
        vec![
            (Rectangle::new(Point::new(240, 247), Size::new(8, 8)), 8),
            (Rectangle::new(Point::new(248, 247), Size::new(7, 8)), 7),
        ]
    );
}

#[test]
fn empty_rectangle_clears_nothing() {
    assert!(clear_plan(Rectangle::new(Point::new(5, 5), Size::new(0, 8))).is_empty());
}

#[test]
fn three_displays_all_render_in_order() {
    let mut three = (Requests::default(), Requests::default(), Requests::default());
    three.render(req(9, 8, 7, 6));
    three.render(req(1, 1, 1, 1));
    for seen in [&three.0.seen, &three.1.seen, &three.2.seen] {
        assert_eq!(*seen, vec![req(9, 8, 7, 6), req(1, 1, 1, 1)]);
    }
}

#[test]
fn mux_children_reachable_through_accessors() {
    let mut mux = Mux::new(Icon::new(1, b'a', Point::new(0, 0)), Icon::new(2, b'b', Point::new(0, 0)), MuxNode::Second);
    let mut d = Requests::default();
    mux.render(&mut d);
    mux.second_mut().update(b'c');
    mux.first_mut().update(b'z');
    mux.render(&mut d);
    assert_eq!(d.seen, vec![req(0, 0, 2, b'b'), req(0, 0, 2, b'c')]);
}
