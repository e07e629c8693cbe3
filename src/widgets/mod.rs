use crate::glyphs::Glyph;
use crate::layout::{DirDown, DirRight, WrapLayout};
use crate::request::RenderRequest;
use crate::sink::Display;
use vstd::prelude::*;

pub mod background;
pub mod grid;
pub mod group;
pub mod icon;
pub mod tile;

verus! {

/// A line length that is never reached: the cells stay on one line.
pub const UNWRAPPED: usize = usize::MAX;

/// An icon whose state is a glyph.
pub type GlyphIcon = icon::Icon;

/// A single row of `L` cells, left to right.
pub type Label<const L: usize> = grid::Grid<WrapLayout<DirRight, UNWRAPPED>, L>;

/// A single column of `L` cells, top to bottom.
pub type VerticalLabel<const L: usize> = grid::Grid<WrapLayout<DirDown, UNWRAPPED>, L>;

/// `L` cells in lines of `W`, left to right, then downwards.
pub type WrapPanel<const L: usize, const W: usize> = grid::Grid<WrapLayout<DirRight, W>, L>;

/// A piece of screen that remembers what it last drew and redraws only
/// what went stale.
pub trait Widget<S> {
    /// The widget's internal invariant.
    spec fn wf(&self) -> bool;

    /// The requests that the next `render` hands to the display, in order.
    /// Empty when the widget is clean.
    spec fn pending(&self) -> Seq<RenderRequest>;

    /// The requests that draw the whole widget as it stands.
    spec fn frame(&self) -> Seq<RenderRequest>;

    /// Marks everything stale, as after the screen was wiped: the next
    /// render draws the whole widget.
    fn invalidate(&mut self)
        requires
            old(self).wf(),
        ensures
            final(self).wf(),
            final(self).frame() == old(self).frame(),
            final(self).pending() == final(self).frame(),
    ;

    /// Takes new application state; what changed becomes stale.
    fn update(&mut self, state: S)
        requires
            old(self).wf(),
        ensures
            final(self).wf(),
    ;

    /// Hands one request per stale cell to `display`, then marks them clean.
    /// A second render right after the first hands out nothing.
    fn render<D: Display>(&mut self, display: &mut D)
        requires
            old(self).wf(),
        ensures
            final(self).wf(),
            final(display).received() == old(display).received() + old(self).pending(),
            final(self).pending() == Seq::<RenderRequest>::empty(),
            final(self).frame() == old(self).frame(),
    ;
}

} // verus!
