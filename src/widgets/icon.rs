use crate::geometry::Point;
use crate::glyphs::{Glyph, SpriteId};
use crate::request::RenderRequest;
use crate::sink::Display;
use crate::widgets::Widget;
use vstd::prelude::*;

verus! {

/// One glyph of one sprite at a fixed position.
pub struct Icon {
    state: Glyph,
    sprite_id: SpriteId,
    origin: Point,
    invalidate: bool,
}

impl Icon {
    pub closed spec fn glyph(&self) -> Glyph {
        self.state
    }

    pub closed spec fn sprite(&self) -> SpriteId {
        self.sprite_id
    }

    pub closed spec fn origin(&self) -> Point {
        self.origin
    }

    /// The icon must be drawn again.
    pub closed spec fn dirty(&self) -> bool {
        self.invalidate
    }

    /// The request that draws the icon as it stands.
    pub open spec fn request(&self) -> RenderRequest {
        RenderRequest { origin: self.origin(), sprite_id: self.sprite(), glyph: self.glyph() }
    }

    /// A new icon is dirty, so its first render draws it.
    pub fn new(sprite_id: SpriteId, state: Glyph, origin: Point) -> (r: Icon)
        ensures
            r.glyph() == state,
            r.sprite() == sprite_id,
            r.origin() == origin,
            r.dirty(),
    {
        Icon { origin, state, sprite_id, invalidate: true }
    }
}

impl Widget<Glyph> for Icon {
    open spec fn wf(&self) -> bool {
        true
    }

    open spec fn pending(&self) -> Seq<RenderRequest> {
        if self.dirty() {
            seq![self.request()]
        } else {
            seq![]
        }
    }

    open spec fn frame(&self) -> Seq<RenderRequest> {
        seq![self.request()]
    }

    fn invalidate(&mut self)
        ensures
            final(self).dirty(),
            final(self).request() == old(self).request(),
    {
        self.invalidate = true;
    }

    /// Only a different glyph makes the icon dirty.
    fn update(&mut self, state: Glyph)
        ensures
            final(self).glyph() == state,
            final(self).sprite() == old(self).sprite(),
            final(self).origin() == old(self).origin(),
            final(self).dirty() == (old(self).dirty() || old(self).glyph() != state),
    {
        if self.state != state {
            self.state = state;
            self.invalidate = true;
        }
    }

    fn render<D: Display>(&mut self, display: &mut D)
        ensures
            final(self).request() == old(self).request(),
            !final(self).dirty(),
    {
        if self.invalidate {
            let req = RenderRequest::new(self.origin, self.sprite_id, self.state);
            display.render(req);
            self.invalidate = false;
        }
        assert(display.received() =~= old(display).received() + old(self).pending());
    }
}

} // verus!
