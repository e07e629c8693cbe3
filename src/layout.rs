use crate::geometry::{Point, Size};
use core::marker::PhantomData;
use vstd::prelude::*;

verus! {

/// Cells flow left to right, then wrap downwards.
pub const DIR_LTR: usize = 0;

/// Cells flow right to left, then wrap downwards.
pub const DIR_RTL: usize = 1;

/// Cells flow top to bottom, then wrap rightwards.
pub const DIR_DOWN: usize = 2;

/// Cells flow bottom to top, then wrap rightwards.
pub const DIR_UP: usize = 3;

/// Where cell `idx` of line `wraps` lands, for cells of `size` laid out from
/// `origin` in direction `dir`: the in-line axis advances by `idx` cell
/// extents, negated for the reverse directions, and the other axis by
/// `wraps` cell extents.
pub open spec fn cell_position(dir: usize, idx: int, wraps: int, origin: Point, size: Size) -> (
    int,
    int,
) {
    let (x, y, w, h) = (origin.x as int, origin.y as int, size.width as int, size.height as int);
    if dir == DIR_UP {
        (x + w * wraps, y - h * idx)
    } else if dir == DIR_DOWN {
        (x + w * wraps, y + h * idx)
    } else if dir == DIR_RTL {
        (x - w * idx, y + h * wraps)
    } else {
        (x + w * idx, y + h * wraps)
    }
}

/// Every step of computing `cell_position` in 8-bit arithmetic stays in range.
pub open spec fn cell_fits(dir: usize, idx: int, wraps: int, origin: Point, size: Size) -> bool {
    let (x, y, w, h) = (origin.x as int, origin.y as int, size.width as int, size.height as int);
    &&& 0 <= idx <= u8::MAX
    &&& 0 <= wraps <= u8::MAX
    &&& if dir == DIR_UP {
        w * wraps <= u8::MAX && x + w * wraps <= u8::MAX && h * idx <= y
    } else if dir == DIR_DOWN {
        w * wraps <= u8::MAX && x + w * wraps <= u8::MAX && h * idx <= u8::MAX && y + h * idx
            <= u8::MAX
    } else if dir == DIR_RTL {
        w * idx <= x && h * wraps <= u8::MAX && y + h * wraps <= u8::MAX
    } else {
        w * idx <= u8::MAX && x + w * idx <= u8::MAX && h * wraps <= u8::MAX && y + h * wraps
            <= u8::MAX
    }
}

/// The in-line index of cell `node_idx` when lines hold `wrap` cells, kept
/// to its low eight bits.
pub open spec fn line_index(wrap: nat, node_idx: int) -> int {
    ((node_idx % (wrap as int)) as u8) as int
}

/// The line of cell `node_idx` when lines hold `wrap` cells, kept to its
/// low eight bits.
pub open spec fn line_number(wrap: nat, node_idx: int) -> int {
    ((node_idx / (wrap as int)) as u8) as int
}

/// Where cell `node_idx` lands when lines hold `wrap` cells.
pub open spec fn wrap_position(dir: usize, wrap: nat, node_idx: int, origin: Point, size: Size) -> (
    int,
    int,
) {
    cell_position(dir, line_index(wrap, node_idx), line_number(wrap, node_idx), origin, size)
}

/// `wrap_position` can be computed without leaving the 8-bit range.
pub open spec fn wrap_fits(dir: usize, wrap: nat, node_idx: int, origin: Point, size: Size) -> bool {
    wrap > 0 && cell_fits(
        dir,
        line_index(wrap, node_idx),
        line_number(wrap, node_idx),
        origin,
        size,
    )
}

/// On a line that never wraps, cell `i` (below 256) has in-line index `i` on
/// line 0.
pub proof fn lemma_single_line(dir: usize, node_idx: int, origin: Point, size: Size)
    requires
        0 <= node_idx <= u8::MAX,
    ensures
        wrap_position(dir, usize::MAX as nat, node_idx, origin, size) == cell_position(
            dir,
            node_idx,
            0,
            origin,
            size,
        ),
        wrap_fits(dir, usize::MAX as nat, node_idx, origin, size) == cell_fits(
            dir,
            node_idx,
            0,
            origin,
            size,
        ),
{
    let m = usize::MAX as int;
    assert(node_idx % m == node_idx) by {
        vstd::arithmetic::div_mod::lemma_small_mod(node_idx as nat, m as nat);
    }
    assert(node_idx / m == 0) by {
        vstd::arithmetic::div_mod::lemma_basic_div(node_idx, m);
    }
    assert((node_idx as u8) as int == node_idx);
    assert((0int as u8) as int == 0);
}

/// Maps a cell index to the screen position of that cell.
pub trait Layout {
    spec fn position(node_idx: int, origin: Point, size: Size) -> (int, int);

    spec fn fits(node_idx: int, origin: Point, size: Size) -> bool;

    fn layout(node_idx: usize, origin: Point, glyph_size: Size) -> (r: Point)
        requires
            Self::fits(node_idx as int, origin, glyph_size),
        ensures
            (r.x as int, r.y as int) == Self::position(node_idx as int, origin, glyph_size),
    ;
}

/// The line and in-line index of a cell, with the cell's extent.
pub struct WrapInfo {
    pub idx: u8,
    pub wraps: u8,
    pub width: u8,
    pub height: u8,
}

/// Places the cell described by `info` in direction `dir` from `origin`.
pub fn place(dir: usize, info: WrapInfo, origin: Point) -> (r: Point)
    requires
        cell_fits(
            dir,
            info.idx as int,
            info.wraps as int,
            origin,
            Size { width: info.width, height: info.height },
        ),
    ensures
        (r.x as int, r.y as int) == cell_position(
            dir,
            info.idx as int,
            info.wraps as int,
            origin,
            Size { width: info.width, height: info.height },
        ),
{
    let WrapInfo { idx, wraps, width, height } = info;
    if dir == DIR_UP {
        Point::new(origin.x + width * wraps, origin.y - height * idx)
    } else if dir == DIR_DOWN {
        Point::new(origin.x + width * wraps, origin.y + height * idx)
    } else if dir == DIR_RTL {
        Point::new(origin.x - width * idx, origin.y + height * wraps)
    } else {
        Point::new(origin.x + width * idx, origin.y + height * wraps)
    }
}

/// Splits `node_idx` into an in-line index and a line number, `wrap` cells a line.
fn split(node_idx: usize, wrap: usize, size: Size) -> (r: WrapInfo)
    requires
        wrap > 0,
    ensures
        r.idx == line_index(wrap as nat, node_idx as int),
        r.wraps == line_number(wrap as nat, node_idx as int),
        r.width == size.width,
        r.height == size.height,
{
    let idx = #[verifier::truncate] ((node_idx % wrap) as u8);
    let wraps = #[verifier::truncate] ((node_idx / wrap) as u8);
    WrapInfo { idx, wraps, width: size.width, height: size.height }
}

/// A layout that fills lines of `WRAP` cells in direction `DIR`.
pub struct WrapLayout<DIR, const WRAP: usize> {
    _dir: PhantomData<DIR>,
}

/// Cells flow towards smaller x.
pub struct DirLeft;

/// Cells flow towards larger x.
pub struct DirRight;

/// Cells flow towards larger y.
pub struct DirDown;

/// Cells flow towards smaller y.
pub struct DirUp;

impl<DIR, const WRAP: usize> WrapLayout<DIR, WRAP> {
    /// Splits `node_idx` into its in-line index and its line, each kept to
    /// its low eight bits.
    pub fn wrap(node_idx: usize, sprite_size: Size) -> (r: WrapInfo)
        requires
            WRAP > 0,
        ensures
            r.idx == line_index(WRAP as nat, node_idx as int),
            r.wraps == line_number(WRAP as nat, node_idx as int),
            r.width == sprite_size.width,
            r.height == sprite_size.height,
    {
        split(node_idx, WRAP, sprite_size)
    }
}

impl<const WRAP: usize> Layout for WrapLayout<DirLeft, WRAP> {
    open spec fn position(node_idx: int, origin: Point, size: Size) -> (int, int) {
        wrap_position(DIR_RTL, WRAP as nat, node_idx, origin, size)
    }

    open spec fn fits(node_idx: int, origin: Point, size: Size) -> bool {
        wrap_fits(DIR_RTL, WRAP as nat, node_idx, origin, size)
    }

    fn layout(node_idx: usize, origin: Point, glyph_size: Size) -> (r: Point) {
        place(DIR_RTL, Self::wrap(node_idx, glyph_size), origin)
    }
}

impl<const WRAP: usize> Layout for WrapLayout<DirRight, WRAP> {
    open spec fn position(node_idx: int, origin: Point, size: Size) -> (int, int) {
        wrap_position(DIR_LTR, WRAP as nat, node_idx, origin, size)
    }

    open spec fn fits(node_idx: int, origin: Point, size: Size) -> bool {
        wrap_fits(DIR_LTR, WRAP as nat, node_idx, origin, size)
    }

    fn layout(node_idx: usize, origin: Point, glyph_size: Size) -> (r: Point) {
        place(DIR_LTR, Self::wrap(node_idx, glyph_size), origin)
    }
}

impl<const WRAP: usize> Layout for WrapLayout<DirUp, WRAP> {
    open spec fn position(node_idx: int, origin: Point, size: Size) -> (int, int) {
        wrap_position(DIR_UP, WRAP as nat, node_idx, origin, size)
    }

    open spec fn fits(node_idx: int, origin: Point, size: Size) -> bool {
        wrap_fits(DIR_UP, WRAP as nat, node_idx, origin, size)
    }

    fn layout(node_idx: usize, origin: Point, glyph_size: Size) -> (r: Point) {
        place(DIR_UP, Self::wrap(node_idx, glyph_size), origin)
    }
}

impl<const WRAP: usize> Layout for WrapLayout<DirDown, WRAP> {
    open spec fn position(node_idx: int, origin: Point, size: Size) -> (int, int) {
        wrap_position(DIR_DOWN, WRAP as nat, node_idx, origin, size)
    }

    open spec fn fits(node_idx: int, origin: Point, size: Size) -> bool {
        wrap_fits(DIR_DOWN, WRAP as nat, node_idx, origin, size)
    }

    fn layout(node_idx: usize, origin: Point, glyph_size: Size) -> (r: Point) {
        place(DIR_DOWN, Self::wrap(node_idx, glyph_size), origin)
    }
}

/// A layout chosen by a direction number (`DIR_LTR`, `DIR_RTL`, `DIR_DOWN`,
/// `DIR_UP`; any other number flows left to right) and a line length.
pub struct GridLayout<const DIR: usize, const WRAP: usize>;

impl<const DIR: usize, const WRAP: usize> Layout for GridLayout<DIR, WRAP> {
    open spec fn position(node_idx: int, origin: Point, size: Size) -> (int, int) {
        wrap_position(DIR, WRAP as nat, node_idx, origin, size)
    }

    open spec fn fits(node_idx: int, origin: Point, size: Size) -> bool {
        wrap_fits(DIR, WRAP as nat, node_idx, origin, size)
    }

    fn layout(node_idx: usize, origin: Point, size: Size) -> (r: Point) {
        place(DIR, split(node_idx, WRAP, size), origin)
    }
}

/// What each direction of `WrapLayout` computes and requires, for any line
/// length `WRAP`, including one given by a named constant.
pub proof fn lemma_wrap_layout<const WRAP: usize>(node_idx: int, origin: Point, size: Size)
    ensures
        <WrapLayout<DirRight, WRAP> as Layout>::position(node_idx, origin, size) == wrap_position(
            DIR_LTR,
            WRAP as nat,
            node_idx,
            origin,
            size,
        ),
        <WrapLayout<DirRight, WRAP> as Layout>::fits(node_idx, origin, size) == wrap_fits(
            DIR_LTR,
            WRAP as nat,
            node_idx,
            origin,
            size,
        ),
        <WrapLayout<DirLeft, WRAP> as Layout>::position(node_idx, origin, size) == wrap_position(
            DIR_RTL,
            WRAP as nat,
            node_idx,
            origin,
            size,
        ),
        <WrapLayout<DirLeft, WRAP> as Layout>::fits(node_idx, origin, size) == wrap_fits(
            DIR_RTL,
            WRAP as nat,
            node_idx,
            origin,
            size,
        ),
        <WrapLayout<DirDown, WRAP> as Layout>::position(node_idx, origin, size) == wrap_position(
            DIR_DOWN,
            WRAP as nat,
            node_idx,
            origin,
            size,
        ),
        <WrapLayout<DirDown, WRAP> as Layout>::fits(node_idx, origin, size) == wrap_fits(
            DIR_DOWN,
            WRAP as nat,
            node_idx,
            origin,
            size,
        ),
        <WrapLayout<DirUp, WRAP> as Layout>::position(node_idx, origin, size) == wrap_position(
            DIR_UP,
            WRAP as nat,
            node_idx,
            origin,
            size,
        ),
        <WrapLayout<DirUp, WRAP> as Layout>::fits(node_idx, origin, size) == wrap_fits(
            DIR_UP,
            WRAP as nat,
            node_idx,
            origin,
            size,
        ),
{
}

} // verus!
