use crate::geometry::{Point, Rectangle, Size};
use crate::request::RenderRequest;
use vstd::prelude::*;

verus! {

/// The edge of the square tiles that a clear is cut into.
pub const TILE: u8 = 8;

/// The most bytes that one write of a clear hands to a canvas.
pub const BURST: usize = 32;

/// A surface that takes packed 1-bit pixel data for a rectangle.
pub trait Canvas {
    /// Every draw this canvas has taken, in order. An implementation that is
    /// proved keeps this record; one that is not may leave the default.
    open spec fn drawn(&self) -> Seq<(Rectangle, Seq<u8>)> {
        Seq::empty()
    }

    /// Writes `bitmap` into the device window described by `bounds`.
    fn draw(&mut self, bounds: Rectangle, bitmap: &[u8])
        ensures
            final(self).drawn() == old(self).drawn().push((bounds, bitmap@)),
    ;

    /// Blanks `bounds` with all-zero writes, one per step of `clear_steps`.
    fn clear(&mut self, bounds: Rectangle)
        requires
            bounds.fits(),
        ensures
            final(self).drawn() == old(self).drawn() + zero_writes(clear_steps(bounds)),
    {
        let plan = clear_plan(bounds);
        let zeros: Vec<u8> = vec![0u8; BURST];
        assert(zeros@ =~= Seq::new(BURST as nat, |i: int| 0u8));
        let mut k: usize = 0;
        while k < plan.len()
            invariant
                k <= plan@.len(),
                plan@ == clear_steps(bounds),
                zeros@ == Seq::new(BURST as nat, |i: int| 0u8),
                self.drawn() == old(self).drawn() + zero_writes(plan@.take(k as int)),
            decreases plan@.len() - k,
        {
            let (tile, len) = plan[k];
            proof {
                lemma_clear_steps_burst(bounds);
                assert(clear_steps(bounds)[k as int] == (tile, len));
            }
            let zero = vstd::slice::slice_subrange(zeros.as_slice(), 0, len);
            self.draw(tile, zero);
            proof {
                assert(zero@ =~= Seq::new(len as nat, |i: int| 0u8));
                assert(plan@.take(k + 1) =~= plan@.take(k as int).push((tile, len)));
                assert(zero_writes(plan@.take(k + 1)) =~= zero_writes(plan@.take(k as int)).push(
                    (tile, zero@),
                ));
            }
            k = k + 1;
        }
        assert(plan@.take(k as int) =~= plan@);
    }
}

/// The all-zero writes that carry out `steps`.
pub open spec fn zero_writes(steps: Seq<(Rectangle, usize)>) -> Seq<(Rectangle, Seq<u8>)> {
    steps.map_values(|s: (Rectangle, usize)| (s.0, Seq::new(s.1 as nat, |i: int| 0u8)))
}

/// A sink for render requests.
pub trait Display {
    /// Every request this display has been handed, in order. An
    /// implementation that is proved keeps this record; one that is not may
    /// leave the default.
    open spec fn received(&self) -> Seq<RenderRequest> {
        Seq::empty()
    }

    /// Draws, or forwards, one request. Failures are not reported.
    fn render(&mut self, req: RenderRequest)
        ensures
            final(self).received() == old(self).received().push(req),
    ;
}

/// A pair of displays receives what its first member receives; every
/// request goes to both members, first to first.
impl<A: Display, B: Display> Display for (A, B) {
    open spec fn received(&self) -> Seq<RenderRequest> {
        self.0.received()
    }

    fn render(&mut self, req: RenderRequest)
        ensures
            final(self).1.received() == old(self).1.received().push(req),
    {
        self.0.render(req);
        self.1.render(req);
    }
}

/// Three displays fed in order, as for a pair.
impl<A: Display, B: Display, C: Display> Display for (A, B, C) {
    open spec fn received(&self) -> Seq<RenderRequest> {
        self.0.received()
    }

    fn render(&mut self, req: RenderRequest)
        ensures
            final(self).1.received() == old(self).1.received().push(req),
            final(self).2.received() == old(self).2.received().push(req),
    {
        self.0.render(req);
        self.1.render(req);
        self.2.render(req);
    }
}

/// The number of tiles needed to cover `extent` pixels.
pub open spec fn tile_count(extent: u8) -> nat {
    ((extent as nat) + 7) / 8
}

/// `a` clamped to the range of a tile edge.
pub open spec fn min8(a: int) -> int {
    if a < 0 {
        0
    } else if a < 8 {
        a
    } else {
        8
    }
}

/// Tile `(i, j)` of `b`: at most eight pixels square, clipped to `b`.
pub open spec fn tile(b: Rectangle, i: int, j: int) -> Rectangle {
    Rectangle {
        origin: Point { x: (b.origin.x + 8 * i) as u8, y: (b.origin.y + 8 * j) as u8 },
        size: Size { width: min8(b.size.width - 8 * i) as u8, height: min8(b.size.height - 8 * j) as u8 },
    }
}

/// The zero bytes written for tile `(i, j)`: one bit per pixel, rounded up.
pub open spec fn tile_bytes(b: Rectangle, i: int, j: int) -> nat {
    let t = tile(b, i, j);
    ((t.size.width as nat) * (t.size.height as nat) + 7) / 8
}

/// The write for tile `(i, j)`; an empty tile gets none.
pub open spec fn tile_steps(b: Rectangle, i: int, j: int) -> Seq<(Rectangle, usize)> {
    if tile_bytes(b, i, j) == 0 {
        seq![]
    } else {
        seq![(tile(b, i, j), tile_bytes(b, i, j) as usize)]
    }
}

/// The writes for the first `j` tiles of column `i`, top to bottom.
pub open spec fn column_steps(b: Rectangle, i: int, j: nat) -> Seq<(Rectangle, usize)>
    decreases j,
{
    if j == 0 {
        seq![]
    } else {
        column_steps(b, i, (j - 1) as nat) + tile_steps(b, i, j - 1)
    }
}

/// The writes for the first `i` columns of tiles, left to right.
pub open spec fn area_steps(b: Rectangle, i: nat) -> Seq<(Rectangle, usize)>
    decreases i,
{
    if i == 0 {
        seq![]
    } else {
        area_steps(b, (i - 1) as nat) + column_steps(b, i - 1, tile_count(b.size.height))
    }
}

/// Every write that clearing `b` makes: a rectangle and a count of zero bytes.
pub open spec fn clear_steps(b: Rectangle) -> Seq<(Rectangle, usize)> {
    area_steps(b, tile_count(b.size.width))
}

/// No write of a clear is empty or longer than a burst.
pub open spec fn steps_in_burst(s: Seq<(Rectangle, usize)>) -> bool {
    forall|k: int| 0 <= k < s.len() ==> 0 < #[trigger] s[k].1 <= BURST
}

proof fn lemma_tile_steps_burst(b: Rectangle, i: int, j: int)
    ensures
        steps_in_burst(tile_steps(b, i, j)),
{
    let t = tile(b, i, j);
    let w = t.size.width as nat;
    let h = t.size.height as nat;
    if tile_bytes(b, i, j) != 0 {
        assert(w <= 8 && h <= 8);
        assert(w * h <= 64) by (nonlinear_arith)
            requires
                w <= 8,
                h <= 8,
        ;
    }
}

proof fn lemma_column_steps_burst(b: Rectangle, i: int, j: nat)
    ensures
        steps_in_burst(column_steps(b, i, j)),
    decreases j,
{
    if j > 0 {
        lemma_column_steps_burst(b, i, (j - 1) as nat);
        lemma_tile_steps_burst(b, i, j - 1);
        let l = column_steps(b, i, (j - 1) as nat);
        let r = tile_steps(b, i, j - 1);
        assert forall|k: int| 0 <= k < (l + r).len() implies 0 < #[trigger] (l + r)[k].1
            <= BURST by {
            if k >= l.len() {
                assert((l + r)[k] == r[k - l.len()]);
            }
        }
    }
}

proof fn lemma_area_steps_burst(b: Rectangle, i: nat)
    ensures
        steps_in_burst(area_steps(b, i)),
    decreases i,
{
    if i > 0 {
        lemma_area_steps_burst(b, (i - 1) as nat);
        lemma_column_steps_burst(b, i - 1, tile_count(b.size.height));
        let l = area_steps(b, (i - 1) as nat);
        let r = column_steps(b, i - 1, tile_count(b.size.height));
        assert forall|k: int| 0 <= k < (l + r).len() implies 0 < #[trigger] (l + r)[k].1
            <= BURST by {
            if k >= l.len() {
                assert((l + r)[k] == r[k - l.len()]);
            }
        }
    }
}

/// Every write of a clear holds between one byte and a burst.
pub proof fn lemma_clear_steps_burst(b: Rectangle)
    ensures
        steps_in_burst(clear_steps(b)),
{
    lemma_area_steps_burst(b, tile_count(b.size.width));
}

/// The writes that clearing `bounds` makes, in order: column by column of
/// eight-pixel tiles, each tile top to bottom.
pub fn clear_plan(bounds: Rectangle) -> (r: Vec<(Rectangle, usize)>)
    requires
        bounds.fits(),
    ensures
        r@ == clear_steps(bounds),
{
    let origin = bounds.origin;
    let size = bounds.size;
    let mut plan: Vec<(Rectangle, usize)> = Vec::new();
    let mut x: u16 = 0;
    let mut i: Ghost<nat> = Ghost(0);
    while x < size.width as u16
        invariant
            bounds.fits(),
            origin == bounds.origin,
            size == bounds.size,
            x == 8 * i@,
            x < size.width ==> i@ < tile_count(size.width),
            x >= size.width ==> i@ == tile_count(size.width),
            x as int <= size.width + 7,
            plan@ == area_steps(bounds, i@),
        decreases size.width + 8 - x,
    {
        let mut y: u16 = 0;
        let mut j: Ghost<nat> = Ghost(0);
        while y < size.height as u16
            invariant
                bounds.fits(),
                origin == bounds.origin,
                size == bounds.size,
                x == 8 * i@,
                x < size.width,
                y == 8 * j@,
                y < size.height ==> j@ < tile_count(size.height),
                y >= size.height ==> j@ == tile_count(size.height),
                y as int <= size.height + 7,
                plan@ == area_steps(bounds, i@) + column_steps(bounds, i@ as int, j@),
            decreases size.height + 8 - y,
        {
            let w: u8 = if size.width as u16 - x < TILE as u16 {
                (size.width as u16 - x) as u8
            } else {
                TILE
            };
            let h: u8 = if size.height as u16 - y < TILE as u16 {
                (size.height as u16 - y) as u8
            } else {
                TILE
            };
            let t = Rectangle::new(
                Point::new(origin.x + x as u8, origin.y + y as u8),
                Size::new(w, h),
            );
            proof {
                assert(w * h <= 64) by (nonlinear_arith)
                    requires
                        w <= 8,
                        h <= 8,
                ;
            }
            let bytes: u8 = (w * h + 7) / 8;
            proof {
                assert(t == tile(bounds, i@ as int, j@ as int));
                assert(bytes == tile_bytes(bounds, i@ as int, j@ as int));
            }
            if bytes > 0 {
                plan.push((t, bytes as usize));
            }
            proof {
                assert(plan@ =~= area_steps(bounds, i@) + column_steps(bounds, i@ as int, j@ + 1));
                j@ = j@ + 1;
            }
            y = y + TILE as u16;
        }
        proof {
            assert(plan@ =~= area_steps(bounds, i@ + 1));
            i@ = i@ + 1;
        }
        x = x + TILE as u16;
    }
    plan
}

} // verus!
