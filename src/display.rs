use crate::geometry::Rectangle;
use crate::glyphs::{first_index, lemma_first_index_exists, lemma_first_index_unique, Glyphs, SpriteId};
use crate::request::RenderRequest;
use crate::sink::{Canvas, Display};
use crate::sprites::FlashSprite;
use vstd::prelude::*;

verus! {

/// The ids of the sprites in a sprite map, in order.
pub open spec fn sprite_ids(map: Seq<(FlashSprite, Glyphs)>) -> Seq<SpriteId> {
    map.map_values(|e: (FlashSprite, Glyphs)| e.0.sprite_id())
}

/// What the canvas is asked to draw for `req`: the bitmap of the request's
/// glyph in the first sprite with the request's id, at the request's origin.
/// `None` when there is no such sprite, or the glyph has no slot in it.
pub open spec fn sprite_draw(map: Seq<(FlashSprite, Glyphs)>, req: RenderRequest) -> Option<
    (Rectangle, Seq<u8>),
> {
    match first_index(sprite_ids(map), req.sprite_id) {
        None => None,
        Some(k) => {
            let (sprite, glyphs) = map[k];
            match glyphs.slot(req.glyph) {
                Some(i) => if i < sprite.glyph_count() {
                    Some((Rectangle { origin: req.origin, size: sprite.cell_size() }, sprite.glyph_bytes(i)))
                } else {
                    None
                },
                None => None,
            }
        },
    }
}

/// A glyph that has no slot in the glyph set of its sprite is not drawn.
pub proof fn lemma_missing_glyph_not_drawn(map: Seq<(FlashSprite, Glyphs)>, req: RenderRequest, k: int)
    requires
        first_index(sprite_ids(map), req.sprite_id) == Some(k),
        !map[k].1.contains(req.glyph),
    ensures
        sprite_draw(map, req) is None,
{
    crate::glyphs::lemma_slot_in_range(map[k].1, req.glyph);
}

/// A display that keeps its sprites locally and blits their bitmaps onto a
/// canvas.
pub struct SpriteDisplay<C, const N: usize> {
    canvas: C,
    sprite_map: [(FlashSprite, Glyphs); N],
    requests: Ghost<Seq<RenderRequest>>,
}

impl<C, const N: usize> SpriteDisplay<C, N> {
    pub closed spec fn sprites(&self) -> Seq<(FlashSprite, Glyphs)> {
        self.sprite_map@
    }

    pub closed spec fn spec_canvas(&self) -> C {
        self.canvas
    }

    pub fn new(canvas: C, sprite_map: [(FlashSprite, Glyphs); N]) -> (r: Self)
        ensures
            r.spec_canvas() == canvas,
            r.sprites() == sprite_map@,
    {
        SpriteDisplay { canvas, sprite_map, requests: Ghost(Seq::empty()) }
    }

    pub fn canvas(&mut self) -> (r: &mut C)
        ensures
            *r == old(self).spec_canvas(),
            final(self).spec_canvas() == *final(r),
            final(self).sprites() == old(self).sprites(),
    {
        &mut self.canvas
    }
}

impl<C: Canvas, const N: usize> Display for SpriteDisplay<C, N> {
    closed spec fn received(&self) -> Seq<RenderRequest> {
        self.requests@
    }

    /// Draws the request's glyph if its sprite and slot exist, else nothing.
    fn render(&mut self, req: RenderRequest)
        ensures
            final(self).sprites() == old(self).sprites(),
            final(self).spec_canvas().drawn() == match sprite_draw(old(self).sprites(), req) {
                Some(d) => old(self).spec_canvas().drawn().push(d),
                None => old(self).spec_canvas().drawn(),
            },
    {
        proof {
            self.requests@ = self.requests@.push(req);
        }
        let ghost ids = sprite_ids(self.sprite_map@);
        let mut k: usize = 0;
        while k < N
            invariant
                k <= N,
                self.sprite_map == old(self).sprite_map,
                self.canvas == old(self).canvas,
                self.requests@ == old(self).requests@.push(req),
                self.sprite_map@.len() == N,
                ids == sprite_ids(self.sprite_map@),
                forall|j: int| 0 <= j < k ==> ids[j] != req.sprite_id,
            decreases N - k,
        {
            let (sprite, glyphs) = &self.sprite_map[k];
            assert(ids[k as int] == sprite.sprite_id());
            if sprite.id() == req.sprite_id {
                proof {
                    assert(ids[k as int] == req.sprite_id);
                    lemma_first_index_exists(ids, req.sprite_id);
                    lemma_first_index_unique(ids, req.sprite_id, k as int, first_index(ids, req.sprite_id)->0);
                }
                match glyphs.index(req.glyph) {
                    Some(idx) => {
                        match sprite.glyph_bitmap(idx) {
                            Some(bitmap) => {
                                let bounds = Rectangle::new(req.origin, sprite.size());
                                self.canvas.draw(bounds, bitmap);
                            },
                            None => {},
                        }
                    },
                    None => {},
                }
                return;
            }
            k = k + 1;
        }
        proof {
            assert(!ids.contains(req.sprite_id));
        }
    }
}

} // verus!
