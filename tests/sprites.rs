use sprite_widgets::{FlashSprite, Glyphs, Point, Rectangle, RenderRequest, Size};

#[test]
fn single_maps_every_glyph_to_slot_zero() {
    let g = Glyphs::Single;
    assert_eq!(g.index(0), Some(0));
    assert_eq!(g.index(200), Some(0));
    assert_eq!(g.len(), 1);
}

#[test]
fn sequential_accepts_glyphs_below_bound() {
    let g = Glyphs::Sequential(10);
    assert_eq!(g.index(0), Some(0));
    assert_eq!(g.index(9), Some(9));
    assert_eq!(g.index(10), None);
    assert_eq!(g.index(255), None);
    assert_eq!(g.len(), 10);
}

#[test]
fn sequential_zero_has_no_slots() {
    let g = Glyphs::Sequential(0);
    assert_eq!(g.index(0), None);
    assert_eq!(g.len(), 0);
}

#[test]
fn alphabet_uses_first_occurrence() {
    let g = Glyphs::Alphabet(b"0123456789-:0");
    assert_eq!(g.index(b'0'), Some(0));
    assert_eq!(g.index(b'7'), Some(7));
    assert_eq!(g.index(b':'), Some(11));
    assert_eq!(g.index(b'x'), None);
    assert_eq!(g.len(), 13);
}

#[test]
fn every_slot_is_below_slot_count() {
    let sets = [Glyphs::Single, Glyphs::Sequential(5), Glyphs::Alphabet(b"abc")];
    for g in sets.iter() {
        for v in 0..=255u8 {
            if let Some(i) = g.index(v) {
                assert!(i < g.len());
            }
        }
    }
}

#[test]
fn request_round_trip_over_all_byte_values() {
    for v in 0..=255u8 {
        let req = RenderRequest::new(Point::new(v, 255 - v), v.wrapping_mul(7), v ^ 0x5a);
        let bytes = req.as_bytes();
        assert_eq!(bytes, [v, 255 - v, v.wrapping_mul(7), v ^ 0x5a]);
        assert_eq!(RenderRequest::from_bytes(&bytes), req);
    }
}

#[test]
fn request_from_bytes_reads_fields_in_order() {
    let req = RenderRequest::from_bytes(&[1, 2, 3, 4]);
    assert_eq!(req.origin, Point::new(1, 2));
    assert_eq!(req.sprite_id, 3);
    assert_eq!(req.glyph, 4);
}

#[test]
fn rectangle_corners() {
    let r = Rectangle::new(Point::new(10, 20), Size::new(8, 16));
    assert_eq!(r.start(), Point::new(10, 20));
    assert_eq!(r.end(), Point::new(18, 36));
    assert_eq!(Point::zero(), Point::new(0, 0));
    assert_eq!(Point::new(3, 4).to_pair(), (3, 4));
}

#[test]
fn sprite_slices_one_glyph() {
    let s = FlashSprite::new(7, 3, Size::new(8, 8), &[1, 1, 2, 2, 3, 3]);
    assert_eq!(s.id(), 7);
    assert_eq!(s.size(), Size::new(8, 8));
    assert_eq!(s.glyphs(), 3);
    assert_eq!(s.raw(), &[1, 1, 2, 2, 3, 3]);
    assert_eq!(s.glyph_bitmap(0), Some(&[1u8, 1][..]));
    assert_eq!(s.glyph_bitmap(2), Some(&[3u8, 3][..]));
    assert_eq!(s.glyph_bitmap(3), None);
}

#[test]
fn rectangle_end_at_edge_of_coordinate_space() {
    let r = Rectangle::new(Point::new(200, 0), Size::new(55, 8));
    assert_eq!(r.end(), Point::new(255, 8));
}

#[test]
fn sprite_with_uneven_bitmap_drops_trailing_bytes() {
    let s = FlashSprite::new(1, 2, Size::new(8, 8), &[1, 2, 3, 4, 5]);
    assert_eq!(s.glyph_bitmap(0), Some(&[1u8, 2][..]));
    assert_eq!(s.glyph_bitmap(1), Some(&[3u8, 4][..]));
    assert_eq!(s.glyph_bitmap(2), None);
}
