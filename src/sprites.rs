use crate::geometry::Size;
use crate::glyphs::SpriteId;
use vstd::prelude::*;

verus! {

/// A read-only sheet of equally sized glyph bitmaps, stored back to back.
pub struct FlashSprite {
    id: SpriteId,
    size: Size,
    glyphs: usize,
    glyph_len: usize,
    bitmap: &'static [u8],
}

impl FlashSprite {
    #[verifier::type_invariant]
    closed spec fn inv(self) -> bool {
        &&& self.glyphs > 0
        &&& self.glyph_len == self.bitmap@.len() / (self.glyphs as nat)
    }

    pub closed spec fn sprite_id(&self) -> SpriteId {
        self.id
    }

    pub closed spec fn cell_size(&self) -> Size {
        self.size
    }

    pub closed spec fn glyph_count(&self) -> nat {
        self.glyphs as nat
    }

    pub closed spec fn bitmap(&self) -> Seq<u8> {
        self.bitmap@
    }

    /// The bytes of one glyph: the bitmap divided evenly among the glyphs.
    pub open spec fn bytes_per_glyph(&self) -> nat {
        self.bitmap().len() / self.glyph_count()
    }

    /// The bytes of the glyph in slot `i`.
    pub open spec fn glyph_bytes(&self, i: int) -> Seq<u8> {
        let n = self.bytes_per_glyph() as int;
        self.bitmap().subrange(i * n, i * n + n)
    }

    pub fn new(id: SpriteId, glyphs: usize, size: Size, bitmap: &'static [u8]) -> (r: FlashSprite)
        requires
            glyphs > 0,
        ensures
            r.sprite_id() == id,
            r.cell_size() == size,
            r.glyph_count() == glyphs,
            r.bitmap() == bitmap@,
    {
        let glyph_len = bitmap.len() / glyphs;
        FlashSprite { id, glyphs, size, bitmap, glyph_len }
    }

    pub fn id(&self) -> (r: SpriteId)
        ensures
            r == self.sprite_id(),
    {
        self.id
    }

    pub fn size(&self) -> (r: Size)
        ensures
            r == self.cell_size(),
    {
        self.size
    }

    pub fn glyphs(&self) -> (r: usize)
        ensures
            r == self.glyph_count(),
            r > 0,
    {
        proof {
            use_type_invariant(self);
        }
        self.glyphs
    }

    pub fn raw(&self) -> (r: &[u8])
        ensures
            r@ == self.bitmap(),
    {
        self.bitmap
    }

    /// The bitmap of the glyph in slot `glyph_index`, if there is such a slot.
    pub fn glyph_bitmap(&self, glyph_index: usize) -> (r: Option<&[u8]>)
        ensures
            glyph_index >= self.glyph_count() ==> r is None,
            glyph_index < self.glyph_count() ==> (r matches Some(b) && b@ == self.glyph_bytes(
                glyph_index as int,
            )),
    {
        proof {
            use_type_invariant(self);
        }
        if glyph_index >= self.glyphs {
            return None;
        }
        let n = self.glyph_len;
        let len = self.bitmap.len();
        proof {
            let g = self.glyphs as int;
            let i = glyph_index as int;
            assert(n * g <= len) by {
                vstd::arithmetic::div_mod::lemma_fundamental_div_mod(len as int, g);
                vstd::arithmetic::div_mod::lemma_mod_pos_bound(len as int, g);
            }
            assert(i * n + n <= g * n) by (nonlinear_arith)
                requires
                    0 <= i < g,
                    0 <= n,
            ;
            assert(i * n + n <= len);
        }
        let offset = glyph_index * n;
        Some(vstd::slice::slice_subrange(self.bitmap, offset, offset + n))
    }
}

} // verus!
