use crate::geometry::{Point, Size};
use crate::glyphs::{Glyph, SpriteId};
use crate::request::RenderRequest;
use crate::sink::Display;
use crate::widgets::Widget;
use vstd::prelude::*;

verus! {

/// The request for the copy of `glyph` in column `x`, row `y` of a block of
/// cells of `size` starting at `origin`.
pub open spec fn tile_request(
    origin: Point,
    size: Size,
    sprite_id: SpriteId,
    glyph: Glyph,
    x: int,
    y: int,
) -> RenderRequest {
    RenderRequest {
        origin: Point {
            x: (origin.x + size.width * x) as u8,
            y: (origin.y + size.height * y) as u8,
        },
        sprite_id,
        glyph,
    }
}

/// The requests for the first `rows` cells of column `x`, top to bottom.
pub open spec fn tile_column(
    origin: Point,
    size: Size,
    sprite_id: SpriteId,
    glyph: Glyph,
    x: int,
    rows: nat,
) -> Seq<RenderRequest>
    decreases rows,
{
    if rows == 0 {
        seq![]
    } else {
        tile_column(origin, size, sprite_id, glyph, x, (rows - 1) as nat).push(
            tile_request(origin, size, sprite_id, glyph, x, rows - 1),
        )
    }
}

/// The requests for the first `columns` columns of `rows` cells, left to right.
pub open spec fn tile_block(
    origin: Point,
    size: Size,
    sprite_id: SpriteId,
    glyph: Glyph,
    columns: nat,
    rows: nat,
) -> Seq<RenderRequest>
    decreases columns,
{
    if columns == 0 {
        seq![]
    } else {
        tile_block(origin, size, sprite_id, glyph, (columns - 1) as nat, rows) + tile_column(
            origin,
            size,
            sprite_id,
            glyph,
            columns - 1,
            rows,
        )
    }
}

/// `count` cells of `extent` pixels from `start` stay inside the 8-bit range.
pub open spec fn span_fits(start: u8, extent: u8, count: nat) -> bool {
    count == 0 || (count - 1 <= u8::MAX && start + extent * (count - 1) <= u8::MAX)
}

/// One glyph repeated over a block of `columns` by `rows` cells.
pub struct Tile {
    state: Glyph,
    sprite_id: SpriteId,
    origin: Point,
    columns: usize,
    rows: usize,
    sprite_size: Size,
    invalidate: bool,
}

impl Tile {
    pub closed spec fn glyph(&self) -> Glyph {
        self.state
    }

    pub closed spec fn sprite(&self) -> SpriteId {
        self.sprite_id
    }

    pub closed spec fn origin(&self) -> Point {
        self.origin
    }

    pub closed spec fn cell_size(&self) -> Size {
        self.sprite_size
    }

    pub closed spec fn columns(&self) -> nat {
        self.columns as nat
    }

    pub closed spec fn rows(&self) -> nat {
        self.rows as nat
    }

    /// The block must be drawn again.
    pub closed spec fn dirty(&self) -> bool {
        self.invalidate
    }

    /// The requests that draw the whole block, column by column.
    pub open spec fn requests(&self) -> Seq<RenderRequest> {
        tile_block(
            self.origin(),
            self.cell_size(),
            self.sprite(),
            self.glyph(),
            self.columns(),
            self.rows(),
        )
    }

    /// A new tile is dirty, so its first render draws it. Every cell must
    /// lie inside the 8-bit coordinate space.
    pub fn new(
        sprite_id: SpriteId,
        state: Glyph,
        origin: Point,
        sprite_size: Size,
        columns: usize,
        rows: usize,
    ) -> (r: Tile)
        requires
            span_fits(origin.x, sprite_size.width, columns as nat),
            span_fits(origin.y, sprite_size.height, rows as nat),
        ensures
            r.wf(),
            r.glyph() == state,
            r.sprite() == sprite_id,
            r.origin() == origin,
            r.cell_size() == sprite_size,
            r.columns() == columns,
            r.rows() == rows,
            r.dirty(),
    {
        Tile {
            origin,
            state,
            columns,
            rows,
            sprite_size,
            sprite_id,
            invalidate: true,
        }
    }
}

impl Widget<Glyph> for Tile {
    open spec fn wf(&self) -> bool {
        span_fits(self.origin().x, self.cell_size().width, self.columns()) && span_fits(
            self.origin().y,
            self.cell_size().height,
            self.rows(),
        )
    }

    open spec fn pending(&self) -> Seq<RenderRequest> {
        if self.dirty() {
            self.requests()
        } else {
            seq![]
        }
    }

    open spec fn frame(&self) -> Seq<RenderRequest> {
        self.requests()
    }

    fn invalidate(&mut self)
        ensures
            final(self).dirty(),
            final(self).requests() == old(self).requests(),
    {
        self.invalidate = true;
    }

    /// Only a different glyph makes the block dirty.
    fn update(&mut self, state: Glyph)
        ensures
            final(self).glyph() == state,
            final(self).sprite() == old(self).sprite(),
            final(self).origin() == old(self).origin(),
            final(self).cell_size() == old(self).cell_size(),
            final(self).columns() == old(self).columns(),
            final(self).rows() == old(self).rows(),
            final(self).dirty() == (old(self).dirty() || old(self).glyph() != state),
    {
        if self.state != state {
            self.state = state;
            self.invalidate = true;
        }
    }

    fn render<D: Display>(&mut self, display: &mut D)
        ensures
            final(self).requests() == old(self).requests(),
            !final(self).dirty(),
    {
        if self.invalidate {
            let glyph = self.state;
            let origin = self.origin;
            let size = self.sprite_size;
            let ghost block = self.requests();
            let mut x: usize = 0;
            while x < self.columns
                invariant
                    x <= self.columns,
                    self.wf(),
                    self.invalidate,
                    self.state == glyph && self.origin == origin && self.sprite_size == size,
                    self.rows == old(self).rows && self.columns == old(self).columns,
                    self.sprite_id == old(self).sprite_id,
                    block == old(self).requests(),
                    display.received() == old(display).received() + tile_block(
                        origin,
                        size,
                        self.sprite_id,
                        glyph,
                        x as nat,
                        self.rows as nat,
                    ),
                decreases self.columns - x,
            {
                proof {
                    assert(size.width * x <= size.width * (self.columns - 1)) by (nonlinear_arith)
                        requires
                            x < self.columns,
                    ;
                }
                let px = origin.x + size.width * (x as u8);
                let mut y: usize = 0;
                while y < self.rows
                    invariant
                        x < self.columns,
                        y <= self.rows,
                        self.wf(),
                        self.invalidate,
                        self.state == glyph && self.origin == origin && self.sprite_size == size,
                        self.rows == old(self).rows && self.columns == old(self).columns,
                        self.sprite_id == old(self).sprite_id,
                        px == origin.x + size.width * x,
                        display.received() == old(display).received() + tile_block(
                            origin,
                            size,
                            self.sprite_id,
                            glyph,
                            x as nat,
                            self.rows as nat,
                        ) + tile_column(origin, size, self.sprite_id, glyph, x as int, y as nat),
                    decreases self.rows - y,
                {
                    proof {
                        assert(size.height * y <= size.height * (self.rows - 1)) by (nonlinear_arith)
                            requires
                                y < self.rows,
                        ;
                    }
                    let py = origin.y + size.height * (y as u8);
                    let req = RenderRequest::new(Point::new(px, py), self.sprite_id, glyph);
                    display.render(req);
                    proof {
                        assert(req == tile_request(origin, size, self.sprite_id, glyph, x as int, y as int));
                    }
                    y = y + 1;
                }
                proof {
                    assert(display.received() =~= old(display).received() + tile_block(
                        origin,
                        size,
                        self.sprite_id,
                        glyph,
                        (x + 1) as nat,
                        self.rows as nat,
                    ));
                }
                x = x + 1;
            }
            self.invalidate = false;
        }
        assert(display.received() =~= old(display).received() + old(self).pending());
    }
}

} // verus!
