use crate::geometry::{Point, Size};
use crate::glyphs::{Glyph, SpriteId};
use crate::layout::Layout;
use crate::request::RenderRequest;
use crate::sink::Display;
use crate::widgets::Widget;
use core::marker::PhantomData;
use vstd::prelude::*;
use vstd::string::StringSliceAdditionalSpecFns;

verus! {

/// The requests for the dirty cells among the first `n`, in index order.
pub open spec fn dirty_requests(
    sprite_id: SpriteId,
    glyphs: Seq<Glyph>,
    origins: Seq<Point>,
    flags: Seq<bool>,
    n: nat,
) -> Seq<RenderRequest>
    decreases n,
{
    if n == 0 {
        seq![]
    } else {
        let k = n - 1;
        let before = dirty_requests(sprite_id, glyphs, origins, flags, k as nat);
        if flags[k] {
            before.push(RenderRequest { origin: origins[k], sprite_id, glyph: glyphs[k] })
        } else {
            before
        }
    }
}

/// With every cell dirty, the requests are one per cell, in index order.
pub proof fn lemma_all_dirty_requests(
    sprite_id: SpriteId,
    glyphs: Seq<Glyph>,
    origins: Seq<Point>,
    flags: Seq<bool>,
    n: nat,
)
    requires
        n <= flags.len(),
        forall|i: int| 0 <= i < n ==> #[trigger] flags[i],
    ensures
        dirty_requests(sprite_id, glyphs, origins, flags, n).len() == n,
        forall|i: int|
            0 <= i < n ==> #[trigger] dirty_requests(sprite_id, glyphs, origins, flags, n)[i]
                == (RenderRequest { origin: origins[i], sprite_id, glyph: glyphs[i] }),
    decreases n,
{
    if n > 0 {
        lemma_all_dirty_requests(sprite_id, glyphs, origins, flags, (n - 1) as nat);
        let prev = dirty_requests(sprite_id, glyphs, origins, flags, (n - 1) as nat);
        assert(flags[n - 1]);
        assert forall|i: int| 0 <= i < n implies #[trigger] dirty_requests(
            sprite_id,
            glyphs,
            origins,
            flags,
            n,
        )[i] == (RenderRequest { origin: origins[i], sprite_id, glyph: glyphs[i] }) by {
            if i < n - 1 {
                assert(dirty_requests(sprite_id, glyphs, origins, flags, n)[i] == prev[i]);
            }
        }
    }
}

/// The dirty cells among the first `n`.
pub open spec fn dirty_below(flags: Seq<bool>, n: int) -> Set<int> {
    Set::new(|i: int| 0 <= i < n && flags[i])
}

/// A render hands out exactly one request per dirty cell.
pub proof fn lemma_one_request_per_dirty_cell(
    sprite_id: SpriteId,
    glyphs: Seq<Glyph>,
    origins: Seq<Point>,
    flags: Seq<bool>,
    n: nat,
)
    requires
        n <= flags.len(),
    ensures
        dirty_below(flags, n as int).finite(),
        dirty_requests(sprite_id, glyphs, origins, flags, n).len() == dirty_below(
            flags,
            n as int,
        ).len(),
        n == flags.len() ==> dirty_below(flags, n as int) == dirty_cells(flags),
    decreases n,
{
    assert(n == flags.len() ==> dirty_below(flags, n as int) =~= dirty_cells(flags));
    if n == 0 {
        assert(dirty_below(flags, 0) =~= Set::<int>::empty());
    } else {
        let m = (n - 1) as nat;
        lemma_one_request_per_dirty_cell(sprite_id, glyphs, origins, flags, m);
        let prev = dirty_below(flags, m as int);
        if flags[m as int] {
            assert(dirty_below(flags, n as int) =~= prev.insert(m as int));
            assert(!prev.contains(m as int));
        } else {
            assert(dirty_below(flags, n as int) =~= prev);
        }
    }
}

/// The dirty flags after the cells showing `shown` are set to `next`: a cell
/// becomes dirty when its glyph changes, and stays dirty if it was.
pub open spec fn updated_flags(flags: Seq<bool>, shown: Seq<Glyph>, next: Seq<Glyph>) -> Seq<bool> {
    Seq::new(flags.len(), |i: int| flags[i] || shown[i] != next[i])
}

/// The indices of the dirty cells.
pub open spec fn dirty_cells(flags: Seq<bool>) -> Set<int> {
    Set::new(|i: int| 0 <= i < flags.len() && flags[i])
}

/// The indices where two glyph rows differ.
pub open spec fn changed_cells(shown: Seq<Glyph>, next: Seq<Glyph>) -> Set<int> {
    Set::new(|i: int| 0 <= i < shown.len() && shown[i] != next[i])
}

/// An update marks exactly the cells whose glyph changes: updating to what
/// is shown marks none, and a clean row updated to a state that differs in
/// `k` cells ends with exactly those `k` cells dirty.
pub proof fn lemma_update_marks_changed(flags: Seq<bool>, shown: Seq<Glyph>, next: Seq<Glyph>)
    requires
        flags.len() == shown.len() == next.len(),
    ensures
        dirty_cells(updated_flags(flags, shown, next)) == dirty_cells(flags) + changed_cells(
            shown,
            next,
        ),
        shown == next ==> updated_flags(flags, shown, next) == flags,
        dirty_cells(flags).is_empty() ==> dirty_cells(updated_flags(flags, shown, next))
            == changed_cells(shown, next),
{
    assert(dirty_cells(updated_flags(flags, shown, next)) =~= dirty_cells(flags) + changed_cells(
        shown,
        next,
    ));
    if shown == next {
        assert(updated_flags(flags, shown, next) =~= flags);
    }
    if dirty_cells(flags).is_empty() {
        assert(dirty_cells(flags) + changed_cells(shown, next) =~= changed_cells(shown, next));
    }
}

/// The glyphs, flags and cursor of a row of `len` cells after the bytes of
/// `bytes` are written one by one at the cursor, which wraps round to the
/// first cell after the last.
pub open spec fn ring_write(
    glyphs: Seq<Glyph>,
    flags: Seq<bool>,
    cursor: nat,
    bytes: Seq<u8>,
    len: nat,
) -> (Seq<Glyph>, Seq<bool>, nat)
    decreases bytes.len(),
{
    if bytes.len() == 0 {
        (glyphs, flags, cursor)
    } else {
        let (g, f, c) = ring_write(glyphs, flags, cursor, bytes.drop_last(), len);
        let b = bytes.last();
        let next = if c + 1 >= len {
            0
        } else {
            c + 1
        };
        (g.update(c as int, b), f.update(c as int, f[c as int] || g[c as int] != b), next)
    }
}

/// A fixed row or block of `LEN` glyph cells of one sprite, placed by `L`.
pub struct Grid<L: Layout, const LEN: usize> {
    layout: PhantomData<L>,
    sprite_id: SpriteId,
    state: Vec<Glyph>,
    origins: Vec<Point>,
    invalidate: Vec<bool>,
    cursor: usize,
}

impl<L: Layout, const LEN: usize> Grid<L, LEN> {
    pub closed spec fn sprite(&self) -> SpriteId {
        self.sprite_id
    }

    /// The glyph each cell shows, or will show at the next render.
    pub closed spec fn glyphs(&self) -> Seq<Glyph> {
        self.state@
    }

    /// The screen position of each cell.
    pub closed spec fn origins(&self) -> Seq<Point> {
        self.origins@
    }

    /// Which cells must be drawn again.
    pub closed spec fn flags(&self) -> Seq<bool> {
        self.invalidate@
    }

    /// Where the next written byte goes.
    pub closed spec fn cursor(&self) -> nat {
        self.cursor as nat
    }

    /// Every row has one entry per cell, and the cursor is on a cell.
    pub open spec fn well_formed(&self) -> bool {
        &&& self.glyphs().len() == LEN
        &&& self.origins().len() == LEN
        &&& self.flags().len() == LEN
        &&& (self.cursor() < LEN || self.cursor() == 0)
    }

    /// A grid whose first cells show the bytes of `val` and whose other
    /// cells show glyph 0. Every cell starts dirty, so the first render
    /// paints them all. Cell `i` sits where `L` places it.
    pub fn new(sprite_id: SpriteId, val: &str, origin: Point, sprite_size: Size) -> (r: Self)
        requires
            val.spec_bytes().len() <= LEN,
            forall|i: int| 0 <= i < LEN ==> #[trigger] L::fits(i, origin, sprite_size),
        ensures
            r.wf(),
            r.sprite() == sprite_id,
            r.cursor() == 0,
            forall|i: int|
                0 <= i < LEN ==> #[trigger] r.glyphs()[i] == if i < val.spec_bytes().len() {
                    val.spec_bytes()[i]
                } else {
                    0
                },
            r.flags() == Seq::new(LEN as nat, |i: int| true),
            forall|i: int|
                0 <= i < LEN ==> (#[trigger] r.origins()[i].x as int, r.origins()[i].y as int)
                    == L::position(i, origin, sprite_size),
    {
        let bytes = val.as_bytes();
        let mut state: Vec<Glyph> = Vec::new();
        let mut invalidate: Vec<bool> = Vec::new();
        let mut origins: Vec<Point> = Vec::new();
        let mut idx: usize = 0;
        while idx < LEN
            invariant
                idx <= LEN,
                bytes@ == val.spec_bytes(),
                bytes@.len() <= LEN,
                forall|i: int| 0 <= i < LEN ==> #[trigger] L::fits(i, origin, sprite_size),
                state@.len() == idx,
                invalidate@.len() == idx,
                origins@.len() == idx,
                forall|i: int|
                    0 <= i < idx ==> #[trigger] state@[i] == if i < bytes@.len() {
                        bytes@[i]
                    } else {
                        0
                    },
                forall|i: int| 0 <= i < idx ==> #[trigger] invalidate@[i],
                forall|i: int|
                    0 <= i < idx ==> (#[trigger] origins@[i].x as int, origins@[i].y as int)
                        == L::position(i, origin, sprite_size),
            decreases LEN - idx,
        {
            if idx < bytes.len() {
                state.push(bytes[idx]);
            } else {
                state.push(0);
            }
            invalidate.push(true);
            assert(L::fits(idx as int, origin, sprite_size));
            origins.push(L::layout(idx, origin, sprite_size));
            idx = idx + 1;
        }
        assert(invalidate@ =~= Seq::new(LEN as nat, |i: int| true));
        Grid {
            origins,
            state,
            invalidate,
            cursor: 0,
            sprite_id,
            layout: PhantomData,
        }
    }

    /// Shows `glyph` in cell `idx`; the cell becomes dirty if that changes it.
    pub fn set_glyph(&mut self, idx: usize, glyph: Glyph)
        requires
            old(self).wf(),
            idx < LEN,
        ensures
            final(self).wf(),
            final(self).glyphs() == old(self).glyphs().update(idx as int, glyph),
            final(self).flags() == old(self).flags().update(
                idx as int,
                old(self).flags()[idx as int] || old(self).glyphs()[idx as int] != glyph,
            ),
            final(self).origins() == old(self).origins(),
            final(self).sprite() == old(self).sprite(),
            final(self).cursor() == old(self).cursor(),
    {
        if self.state[idx] != glyph {
            self.state.set(idx, glyph);
            self.invalidate.set(idx, true);
        }
        assert(self.invalidate@ =~= old(self).invalidate@.update(
            idx as int,
            old(self).invalidate@[idx as int] || old(self).state@[idx as int] != glyph,
        ));
        assert(self.state@ =~= old(self).state@.update(idx as int, glyph));
    }
}

impl<L: Layout, const LEN: usize> Grid<L, LEN> {
    /// Writes the bytes of `s` one per cell from the cursor on, wrapping
    /// round to the first cell after the last, so that a long text
    /// overwrites its own beginning. Cells whose glyph changes become dirty.
    pub fn write_str(&mut self, s: &str)
        requires
            old(self).wf(),
            LEN > 0 || s.spec_bytes().len() == 0,
        ensures
            final(self).wf(),
            (final(self).glyphs(), final(self).flags(), final(self).cursor()) == ring_write(
                old(self).glyphs(),
                old(self).flags(),
                old(self).cursor(),
                s.spec_bytes(),
                LEN as nat,
            ),
            final(self).origins() == old(self).origins(),
            final(self).sprite() == old(self).sprite(),
    {
        let bytes = s.as_bytes();
        let mut cursor = self.cursor;
        let mut j: usize = 0;
        while j < bytes.len()
            invariant
                j <= bytes@.len(),
                bytes@ == s.spec_bytes(),
                LEN > 0 || bytes@.len() == 0,
                self.wf(),
                cursor == self.cursor,
                self.origins() == old(self).origins(),
                self.sprite() == old(self).sprite(),
                (self.glyphs(), self.flags(), self.cursor()) == ring_write(
                    old(self).glyphs(),
                    old(self).flags(),
                    old(self).cursor(),
                    bytes@.take(j as int),
                    LEN as nat,
                ),
            decreases bytes@.len() - j,
        {
            let glyph = bytes[j];
            self.set_glyph(cursor, glyph);
            cursor = cursor + 1;
            if cursor >= LEN {
                cursor = 0;
            }
            self.cursor = cursor;
            proof {
                let next = bytes@.take(j + 1);
                assert(next.drop_last() =~= bytes@.take(j as int));
                assert(next.last() == glyph);
            }
            j = j + 1;
        }
        assert(bytes@.take(j as int) =~= bytes@);
    }
}

impl<'a, L: Layout, const LEN: usize> Widget<&'a [Glyph; LEN]> for Grid<L, LEN> {
    open spec fn wf(&self) -> bool {
        self.well_formed()
    }

    open spec fn pending(&self) -> Seq<RenderRequest> {
        dirty_requests(self.sprite(), self.glyphs(), self.origins(), self.flags(), LEN as nat)
    }

    open spec fn frame(&self) -> Seq<RenderRequest> {
        dirty_requests(
            self.sprite(),
            self.glyphs(),
            self.origins(),
            Seq::new(LEN as nat, |i: int| true),
            LEN as nat,
        )
    }

    fn invalidate(&mut self)
        ensures
            final(self).flags() == Seq::new(LEN as nat, |i: int| true),
            final(self).glyphs() == old(self).glyphs(),
            final(self).origins() == old(self).origins(),
            final(self).sprite() == old(self).sprite(),
            final(self).cursor() == old(self).cursor(),
    {
        let mut idx: usize = 0;
        while idx < LEN
            invariant
                idx <= LEN,
                self.well_formed(),
                self.state@ == old(self).state@,
                self.origins@ == old(self).origins@,
                self.sprite_id == old(self).sprite_id,
                self.cursor == old(self).cursor,
                forall|i: int| 0 <= i < idx ==> #[trigger] self.invalidate@[i],
            decreases LEN - idx,
        {
            self.invalidate.set(idx, true);
            idx = idx + 1;
        }
        assert(self.invalidate@ =~= Seq::new(LEN as nat, |i: int| true));
    }

    /// Shows `state`; exactly the cells whose glyph changes become dirty.
    fn update(&mut self, state: &'a [Glyph; LEN])
        ensures
            final(self).glyphs() == state@,
            final(self).flags() == updated_flags(old(self).flags(), old(self).glyphs(), state@),
            final(self).origins() == old(self).origins(),
            final(self).sprite() == old(self).sprite(),
            final(self).cursor() == 0,
    {
        let mut idx: usize = 0;
        while idx < LEN
            invariant
                idx <= LEN,
                state@.len() == LEN,
                self.wf(),
                old(self).wf(),
                self.origins() == old(self).origins(),
                self.sprite() == old(self).sprite(),
                forall|i: int| 0 <= i < idx ==> #[trigger] self.glyphs()[i] == state@[i],
                forall|i: int| idx <= i < LEN ==> #[trigger] self.glyphs()[i] == old(self).glyphs()[i],
                forall|i: int|
                    0 <= i < idx ==> #[trigger] self.flags()[i] == (old(self).flags()[i]
                        || old(self).glyphs()[i] != state@[i]),
                forall|i: int| idx <= i < LEN ==> #[trigger] self.flags()[i] == old(self).flags()[i],
            decreases LEN - idx,
        {
            self.set_glyph(idx, state[idx]);
            idx = idx + 1;
        }
        assert(self.state@.len() == LEN);
        assert(self.glyphs() =~= state@);
        assert(self.flags() =~= updated_flags(old(self).flags(), old(self).glyphs(), state@));
        self.cursor = 0;
    }

    fn render<D: Display>(&mut self, display: &mut D)
        ensures
            final(self).flags() == Seq::new(LEN as nat, |i: int| false),
            final(self).glyphs() == old(self).glyphs(),
            final(self).origins() == old(self).origins(),
            final(self).sprite() == old(self).sprite(),
            final(self).cursor() == old(self).cursor(),
    {
        let ghost todo = self.pending();
        let mut idx: usize = 0;
        while idx < LEN
            invariant
                idx <= LEN,
                self.well_formed(),
                self.state@ == old(self).state@,
                self.origins@ == old(self).origins@,
                self.sprite_id == old(self).sprite_id,
                self.cursor == old(self).cursor,
                forall|i: int| 0 <= i < idx ==> !#[trigger] self.invalidate@[i],
                forall|i: int| idx <= i < LEN ==> #[trigger] self.invalidate@[i] == old(self).invalidate@[i],
                display.received() == old(display).received() + dirty_requests(
                    self.sprite_id,
                    self.state@,
                    self.origins@,
                    old(self).invalidate@,
                    idx as nat,
                ),
            decreases LEN - idx,
        {
            if self.invalidate[idx] {
                let req = RenderRequest::new(self.origins[idx], self.sprite_id, self.state[idx]);
                display.render(req);
                self.invalidate.set(idx, false);
            }
            idx = idx + 1;
        }
        proof {
            assert(self.invalidate@ =~= Seq::new(LEN as nat, |i: int| false));
            lemma_no_dirty_requests(
                self.sprite_id,
                self.state@,
                self.origins@,
                self.invalidate@,
                LEN as nat,
            );
        }
    }
}

/// With no dirty cell there is nothing to draw.
proof fn lemma_no_dirty_requests(
    sprite_id: SpriteId,
    glyphs: Seq<Glyph>,
    origins: Seq<Point>,
    flags: Seq<bool>,
    n: nat,
)
    requires
        n <= flags.len(),
        forall|i: int| 0 <= i < n ==> !#[trigger] flags[i],
    ensures
        dirty_requests(sprite_id, glyphs, origins, flags, n) == Seq::<RenderRequest>::empty(),
    decreases n,
{
    if n > 0 {
        lemma_no_dirty_requests(sprite_id, glyphs, origins, flags, (n - 1) as nat);
    }
}

/// What a grid's widget view is, for any layout and length, including a
/// layout whose line length is a named constant.
pub proof fn lemma_grid_view<'a, L: Layout, const LEN: usize>(g: Grid<L, LEN>)
    ensures
        <Grid<L, LEN> as Widget<&'a [Glyph; LEN]>>::wf(&g) == g.well_formed(),
        <Grid<L, LEN> as Widget<&'a [Glyph; LEN]>>::pending(&g) == dirty_requests(
            g.sprite(),
            g.glyphs(),
            g.origins(),
            g.flags(),
            LEN as nat,
        ),
        <Grid<L, LEN> as Widget<&'a [Glyph; LEN]>>::frame(&g) == dirty_requests(
            g.sprite(),
            g.glyphs(),
            g.origins(),
            Seq::new(LEN as nat, |i: int| true),
            LEN as nat,
        ),
{
}

} // verus!
