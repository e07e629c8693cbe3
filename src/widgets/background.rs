use crate::geometry::{Point, Rectangle, Size};
use crate::sink::{clear_steps, zero_writes, Canvas};
use vstd::prelude::*;

verus! {

/// A blank rectangle, cleared on the canvas whenever it is stale.
pub struct Background {
    bounds: Rectangle,
    render_req: bool,
}

impl Background {
    #[verifier::type_invariant]
    closed spec fn inv(self) -> bool {
        self.bounds.fits()
    }

    pub closed spec fn bounds(&self) -> Rectangle {
        self.bounds
    }

    /// The rectangle must be cleared again.
    pub closed spec fn dirty(&self) -> bool {
        self.render_req
    }

    /// A new background is dirty, so its first render clears it. The
    /// rectangle must lie inside the 8-bit coordinate space.
    pub fn new(origin: Point, size: Size) -> (r: Background)
        requires
            (Rectangle { origin, size }).fits(),
        ensures
            r.bounds() == (Rectangle { origin, size }),
            r.bounds().fits(),
            r.dirty(),
    {
        Background {
            bounds: Rectangle::new(origin, size),
            render_req: true,
        }
    }

    /// A background has no state to take.
    pub fn update(&mut self, state: ())
        ensures
            *final(self) == *old(self),
    {
    }

    pub fn invalidate(&mut self)
        ensures
            final(self).dirty(),
            final(self).bounds() == old(self).bounds(),
    {
        proof {
            use_type_invariant(&*self);
        }
        self.render_req = true;
    }

    /// Clears the rectangle if it is stale, and marks it clean.
    pub fn render<C: Canvas>(&mut self, canvas: &mut C)
        ensures
            !final(self).dirty(),
            final(self).bounds() == old(self).bounds(),
            final(canvas).drawn() == if old(self).dirty() {
                old(canvas).drawn() + zero_writes(clear_steps(old(self).bounds()))
            } else {
                old(canvas).drawn()
            },
    {
        proof {
            use_type_invariant(&*self);
        }
        if !self.render_req {
            assert(canvas.drawn() == old(canvas).drawn());
            return;
        }
        self.render_req = false;
        canvas.clear(self.bounds);
    }
}

} // verus!
