//! Where things go on a grid of cells.
//!
//! A grid is `width` cells wide and `height` cells high. Its cells are kept
//! row after row from the bottom row up, while callers count rows from the
//! top; a cell's slot is its place in that bottom-up order.

use vstd::prelude::*;

verus! {

/// The side or corner of the window that a grid is tied to.
#[derive(Debug, PartialEq, Eq, Structural, Hash)]
pub enum GridAlign {
    Unaligned,
    TopLeft,
    BottomLeft,
    TopRight,
    BottomRight,
    Top,
    Bottom,
    Left,
    Right,
    Center,
}

/// The slot that a lookup at `(x, y)` reads: rows of `width` cells, and
/// within the row one place right of `x`.
pub open spec fn slot_of(width: int, x: int, y: int) -> int {
    y * width + (x + 1)
}

/// The slot of the cell that callers name `(x, y)`, with `y` counted from
/// the top row of a grid `height` rows high.
pub open spec fn cell_of(width: int, height: int, x: int, y: int) -> int {
    slot_of(width, x - 1, height - 1 - y)
}

/// The place of a glyph on a sprite sheet with `columns` glyphs in a row.
/// Glyphs are counted from one, places from zero.
pub open spec fn sprite_of(x: int, y: int, columns: int) -> int {
    (x - 1) + (y - 1) * columns
}

/// A number as a place among `count` things, if it is one.
pub open spec fn place(k: int, count: int) -> Option<usize> {
    if 0 <= k < count {
        Some(k as usize)
    } else {
        None
    }
}

/// The product of two numbers, each of which fits 34 bits.
fn times(a: i64, b: i64) -> (product: i128)
    requires
        -0x2_0000_0000 <= a <= 0x2_0000_0000,
        -0x2_0000_0000 <= b <= 0x2_0000_0000,
    ensures
        product == a * b,
        -0x4_0000_0000_0000_0000 <= product <= 0x4_0000_0000_0000_0000,
{
    assert(-0x4_0000_0000_0000_0000 <= a * b <= 0x4_0000_0000_0000_0000) by (nonlinear_arith)
        requires
            -0x2_0000_0000 <= a <= 0x2_0000_0000,
            -0x2_0000_0000 <= b <= 0x2_0000_0000,
    ;
    (a as i128) * (b as i128)
}

/// A number as a place among `count` things, if it is one.
fn place_of(k: i128, count: usize) -> (at: Option<usize>)
    ensures
        at == place(k as int, count as int),
{
    if k >= 0 && k < count as i128 {
        Some(k as usize)
    } else {
        None
    }
}

/// The slot for `(x, y)` among the `cells` cells of a grid, if there is
/// such a cell.
pub fn slot(width: i32, cells: usize, x: i32, y: i32) -> (at: Option<usize>)
    ensures
        at == place(slot_of(width as int, x as int, y as int), cells as int),
{
    place_of(times(y as i64, width as i64) + (x as i128 + 1), cells)
}

/// The slot of the cell that callers name `(x, y)`, if the grid has such a
/// cell.
pub fn cell(width: i32, height: i32, cells: usize, x: i32, y: i32) -> (at: Option<usize>)
    ensures
        at == place(cell_of(width as int, height as int, x as int, y as int), cells as int),
{
    place_of(times(height as i64 - 1 - y as i64, width as i64) + x as i128, cells)
}

/// The place on its sprite sheet of the glyph at `(x, y)`, if there is such
/// a place.
pub fn sprite_index(x: i32, y: i32, columns: i32) -> (at: Option<usize>)
    ensures
        at == place(sprite_of(x as int, y as int, columns as int), usize::MAX + 1),
{
    let k: i128 = (x as i128 - 1) + times(y as i64 - 1, columns as i64);
    if k >= 0 && k <= usize::MAX as i128 {
        Some(k as usize)
    } else {
        None
    }
}

/// Where the sprite of the tile in column `i` and row `j` of a grid is put,
/// in pixels from the grid's own origin: tiles lie side by side, each
/// `tile_width` by `tile_height` pixels. A grid that is tied to the window
/// takes its height on the screen from there and counts its rows from zero;
/// only an unaligned grid adds its own `grid_y`.
pub open spec fn tile_origin_of(
    align: GridAlign,
    grid_x: int,
    grid_y: int,
    tile_width: int,
    tile_height: int,
    i: int,
    j: int,
) -> (int, int) {
    (
        (grid_x + i) * tile_width,
        ((if align == GridAlign::Unaligned {
            grid_y
        } else {
            0
        }) + j) * tile_height,
    )
}

/// Where the sprite of the tile in column `i` and row `j` of a grid is put.
pub fn tile_origin(
    align: &GridAlign,
    grid_x: i32,
    grid_y: i32,
    tile_width: i32,
    tile_height: i32,
    i: i32,
    j: i32,
) -> (origin: (i128, i128))
    ensures
        (origin.0 as int, origin.1 as int) == tile_origin_of(
            *align,
            grid_x as int,
            grid_y as int,
            tile_width as int,
            tile_height as int,
            i as int,
            j as int,
        ),
{
    let base: i32 = match align {
        GridAlign::Unaligned => grid_y,
        _ => 0,
    };
    (
        times(grid_x as i64 + i as i64, tile_width as i64),
        times(base as i64 + j as i64, tile_height as i64),
    )
}

/// One cell of a grid, by column and row.
pub type Cell = (i32, i32);

/// A cell and the number of the glyph name, among nine, that is written
/// there.
pub type Stroke = (i32, i32, usize);

/// The cells of one column from row `y` down `count` rows.
pub open spec fn column(x: int, y: int, count: int) -> Seq<Cell> {
    Seq::new(
        if count > 0 {
            count as nat
        } else {
            0
        },
        |j: int| (x as i32, (y + j) as i32),
    )
}

/// The cells of the rectangle from `(x, y)` to `(x + w, y + h)`, both
/// included, column after column. A negative `w` or `h` leaves no cell.
pub open spec fn rect_of(x: int, y: int, w: int, h: int) -> Seq<Cell>
    decreases w + 1,
{
    if w < 0 {
        Seq::empty()
    } else {
        rect_of(x, y, w - 1, h) + column(x + w, y, h + 1)
    }
}

/// The cells of the rectangle from `(x, y)` to `(x + w, y + h)`, both
/// included, in the order in which a fill writes them.
pub fn rect_cells(x: i32, y: i32, w: i32, h: i32) -> (cells: Vec<Cell>)
    requires
        i32::MIN <= x + w <= i32::MAX,
        i32::MIN <= y + h <= i32::MAX,
    ensures
        cells@ == rect_of(x as int, y as int, w as int, h as int),
{
    let mut cells: Vec<Cell> = Vec::new();
    let mut dx: i64 = 0;
    while dx <= w as i64
        invariant
            0 <= dx,
            w >= 0 ==> dx <= w + 1,
            w < 0 ==> dx == 0,
            i32::MIN <= x + w <= i32::MAX,
            i32::MIN <= y + h <= i32::MAX,
            cells@ == rect_of(x as int, y as int, dx - 1, h as int),
        decreases w + 1 - dx,
    {
        let ghost before = cells@;
        let mut dy: i64 = 0;
        while dy <= h as i64
            invariant
                0 <= dy,
                0 <= dx <= w,
                h >= 0 ==> dy <= h + 1,
                h < 0 ==> dy == 0,
                i32::MIN <= x + w <= i32::MAX,
                i32::MIN <= y + h <= i32::MAX,
                cells@ == before + column(x + dx, y as int, dy as int),
            decreases h + 1 - dy,
        {
            cells.push(((x as i64 + dx) as i32, (y as i64 + dy) as i32));
            dy += 1;
            assert(cells@ =~= before + column(x + dx, y as int, dy as int));
        }
        assert(column(x + dx, y as int, dy as int) =~= column(x + dx, y as int, h + 1));
        dx += 1;
    }
    assert(rect_of(x as int, y as int, dx - 1, h as int) == rect_of(
        x as int,
        y as int,
        w as int,
        h as int,
    )) by {
        if w < 0 {
            assert(dx == 0);
        }
    }
    cells
}

/// The strokes along the top and the bottom row of a frame: for each
/// column from `x` to `x + w` the top cell with name 4, then the bottom cell
/// with name 5.
pub open spec fn top_bottom(x: int, y: int, w: int, h: int) -> Seq<Stroke>
    decreases w + 1,
{
    if w < 0 {
        Seq::empty()
    } else {
        top_bottom(x, y, w - 1, h).push(((x + w) as i32, y as i32, 4)).push(
            ((x + w) as i32, (y + h) as i32, 5),
        )
    }
}

/// The strokes along the left and the right column of a frame: for each
/// row from `y` to `y + h` the left cell with name 6, then the right cell
/// with name 7.
pub open spec fn left_right(x: int, y: int, w: int, h: int) -> Seq<Stroke>
    decreases h + 1,
{
    if h < 0 {
        Seq::empty()
    } else {
        left_right(x, y, w, h - 1).push((x as i32, (y + h) as i32, 6)).push(
            ((x + w) as i32, (y + h) as i32, 7),
        )
    }
}

/// The four corners of a frame, with the names 0 to 3: top left, top
/// right, bottom left, bottom right.
pub open spec fn corners(x: int, y: int, w: int, h: int) -> Seq<Stroke> {
    seq![
        (x as i32, y as i32, 0),
        ((x + w) as i32, y as i32, 1),
        (x as i32, (y + h) as i32, 2),
        ((x + w) as i32, (y + h) as i32, 3),
    ]
}

/// All strokes of a frame from `(x, y)` to `(x + w, y + h)`, in the order in
/// which they are written: the whole rectangle with name 8, the top and
/// bottom rows, the left and right columns, the corners. Where two strokes
/// hit one cell the later one stays.
pub open spec fn boxed_of(x: int, y: int, w: int, h: int) -> Seq<Stroke> {
    rect_of(x, y, w, h).map_values(|cell: Cell| (cell.0, cell.1, 8usize)) + top_bottom(x, y, w, h)
        + left_right(x, y, w, h) + corners(x, y, w, h)
}

/// All strokes of a frame, in the order in which they are written.
pub fn boxed_strokes(x: i32, y: i32, w: i32, h: i32) -> (strokes: Vec<Stroke>)
    requires
        i32::MIN <= x + w <= i32::MAX,
        i32::MIN <= y + h <= i32::MAX,
    ensures
        strokes@ == boxed_of(x as int, y as int, w as int, h as int),
{
    let right: i32 = x + w;
    let bottom: i32 = y + h;
    let cells = rect_cells(x, y, w, h);
    let mut strokes: Vec<Stroke> = Vec::new();
    let mut at: usize = 0;
    while at < cells.len()
        invariant
            at <= cells.len(),
            strokes@ == cells@.take(at as int).map_values(|cell: Cell| (cell.0, cell.1, 8usize)),
        decreases cells.len() - at,
    {
        let cell: Cell = cells[at];
        strokes.push((cell.0, cell.1, 8));
        at += 1;
        assert(strokes@ =~= cells@.take(at as int).map_values(
            |cell: Cell| (cell.0, cell.1, 8usize),
        ));
    }
    assert(cells@.take(cells.len() as int) =~= cells@);
    let ghost filled = strokes@;
    let mut i: i64 = 0;
    while i <= w as i64
        invariant
            0 <= i,
            w >= 0 ==> i <= w + 1,
            w < 0 ==> i == 0,
            right == x + w,
            bottom == y + h,
            strokes@ == filled + top_bottom(x as int, y as int, i - 1, h as int),
        decreases w + 1 - i,
    {
        let column: i32 = (x as i64 + i) as i32;
        strokes.push((column, y, 4));
        strokes.push((column, bottom, 5));
        i += 1;
        assert(strokes@ =~= filled + top_bottom(x as int, y as int, i - 1, h as int));
    }
    assert(top_bottom(x as int, y as int, i - 1, h as int) == top_bottom(
        x as int,
        y as int,
        w as int,
        h as int,
    )) by {
        if w < 0 {
            assert(i == 0);
        }
    }
    let ghost edged = strokes@;
    let mut j: i64 = 0;
    while j <= h as i64
        invariant
            0 <= j,
            h >= 0 ==> j <= h + 1,
            h < 0 ==> j == 0,
            right == x + w,
            bottom == y + h,
            strokes@ == edged + left_right(x as int, y as int, w as int, j - 1),
        decreases h + 1 - j,
    {
        let row: i32 = (y as i64 + j) as i32;
        strokes.push((x, row, 6));
        strokes.push((right, row, 7));
        j += 1;
        assert(strokes@ =~= edged + left_right(x as int, y as int, w as int, j - 1));
    }
    assert(left_right(x as int, y as int, w as int, j - 1) == left_right(
        x as int,
        y as int,
        w as int,
        h as int,
    )) by {
        if h < 0 {
            assert(j == 0);
        }
    }
    let ghost sided = strokes@;
    strokes.push((x, y, 0));
    strokes.push((right, y, 1));
    strokes.push((x, bottom, 2));
    strokes.push((right, bottom, 3));
    assert(strokes@ =~= sided + corners(x as int, y as int, w as int, h as int));
    strokes
}

/// The name that a list of strokes leaves on a cell: that of the last
/// stroke on the cell, if any stroke is on it.
pub open spec fn left_on(strokes: Seq<Stroke>, cell: Cell) -> Option<usize>
    decreases strokes.len(),
{
    if strokes.len() == 0 {
        None
    } else if strokes.last().0 == cell.0 && strokes.last().1 == cell.1 {
        Some(strokes.last().2)
    } else {
        left_on(strokes.drop_last(), cell)
    }
}

/// The name that a frame from `(x, y)` to `(x + w, y + h)` shows at
/// `(i, j)`: a corner's at the corners, a side's along the sides, the
/// middle's inside, none outside. Where the frame is one cell wide or high,
/// right wins over left, bottom over top, and the sides over top and
/// bottom.
pub open spec fn framed(x: int, y: int, w: int, h: int, i: int, j: int) -> Option<usize> {
    if !(x <= i <= x + w && y <= j <= y + h) {
        None
    } else if i == x + w && j == y + h {
        Some(3)
    } else if i == x && j == y + h {
        Some(2)
    } else if i == x + w && j == y {
        Some(1)
    } else if i == x && j == y {
        Some(0)
    } else if i == x + w {
        Some(7)
    } else if i == x {
        Some(6)
    } else if j == y + h {
        Some(5)
    } else if j == y {
        Some(4)
    } else {
        Some(8)
    }
}

/// A number is one of the 32-bit signed numbers.
pub open spec fn fits(n: int) -> bool {
    i32::MIN <= n <= i32::MAX
}

/// Strokes that follow others overwrite them.
proof fn lemma_left_on_join(first: Seq<Stroke>, then: Seq<Stroke>, cell: Cell)
    ensures
        left_on(first + then, cell) == match left_on(then, cell) {
            Some(name) => Some(name),
            None => left_on(first, cell),
        },
    decreases then.len(),
{
    if then.len() == 0 {
        assert(first + then =~= first);
    } else {
        assert((first + then).drop_last() =~= first + then.drop_last());
        lemma_left_on_join(first, then.drop_last(), cell);
    }
}

/// What one column of a fill leaves on a cell.
proof fn lemma_column(x: int, y: int, count: int, i: int, j: int)
    requires
        fits(x),
        fits(y),
        count >= 1 ==> fits(y + count - 1),
        fits(i),
        fits(j),
    ensures
        left_on(column(x, y, count).map_values(|cell: Cell| (cell.0, cell.1, 8usize)), (i as i32, j as i32))
            == if i == x && y <= j < y + count {
            Some(8usize)
        } else {
            None
        },
    decreases count,
{
    let strokes = column(x, y, count).map_values(|cell: Cell| (cell.0, cell.1, 8usize));
    if count > 0 {
        assert(strokes.drop_last() =~= column(x, y, count - 1).map_values(
            |cell: Cell| (cell.0, cell.1, 8usize),
        ));
        lemma_column(x, y, count - 1, i, j);
    }
}

/// What a fill leaves on a cell.
proof fn lemma_fill(x: int, y: int, w: int, h: int, i: int, j: int)
    requires
        w >= -1,
        h >= 0,
        fits(x),
        fits(y),
        w >= 0 ==> fits(x + w),
        h >= 0 ==> fits(y + h),
        fits(i),
        fits(j),
    ensures
        left_on(rect_of(x, y, w, h).map_values(|cell: Cell| (cell.0, cell.1, 8usize)), (i as i32, j as i32))
            == if x <= i <= x + w && y <= j <= y + h {
            Some(8usize)
        } else {
            None
        },
    decreases w + 1,
{
    if w >= 0 {
        let before = rect_of(x, y, w - 1, h).map_values(|cell: Cell| (cell.0, cell.1, 8usize));
        let last = column(x + w, y, h + 1).map_values(|cell: Cell| (cell.0, cell.1, 8usize));
        assert(rect_of(x, y, w, h).map_values(|cell: Cell| (cell.0, cell.1, 8usize)) =~= before
            + last);
        lemma_left_on_join(before, last, (i as i32, j as i32));
        lemma_column(x + w, y, h + 1, i, j);
        lemma_fill(x, y, w - 1, h, i, j);
    }
}

/// What the top and bottom rows leave on a cell.
proof fn lemma_top_bottom(x: int, y: int, w: int, h: int, i: int, j: int)
    requires
        w >= -1,
        h >= 0,
        fits(x),
        fits(y),
        w >= 0 ==> fits(x + w),
        h >= 0 ==> fits(y + h),
        fits(i),
        fits(j),
    ensures
        left_on(top_bottom(x, y, w, h), (i as i32, j as i32)) == if x <= i <= x + w && j == y + h {
            Some(5usize)
        } else if x <= i <= x + w && j == y {
            Some(4usize)
        } else {
            None
        },
    decreases w + 1,
{
    if w >= 0 {
        let before = top_bottom(x, y, w - 1, h);
        let top = ((x + w) as i32, y as i32, 4usize);
        let bottom = ((x + w) as i32, (y + h) as i32, 5usize);
        let all = top_bottom(x, y, w, h);
        assert(all == before.push(top).push(bottom));
        assert(all.last() == bottom);
        assert(all.drop_last() =~= before.push(top));
        assert(before.push(top).last() == top);
        assert(before.push(top).drop_last() =~= before);
        assert(left_on(all, (i as i32, j as i32)) == if bottom.0 == i as i32 && bottom.1
            == j as i32 {
            Some(5usize)
        } else if top.0 == i as i32 && top.1 == j as i32 {
            Some(4usize)
        } else {
            left_on(before, (i as i32, j as i32))
        }) by {
            reveal_with_fuel(left_on, 3);
        }
        lemma_top_bottom(x, y, w - 1, h, i, j);
    }
}

/// What the left and right columns leave on a cell.
proof fn lemma_left_right(x: int, y: int, w: int, h: int, i: int, j: int)
    requires
        w >= 0,
        h >= -1,
        fits(x),
        fits(y),
        w >= 0 ==> fits(x + w),
        h >= 0 ==> fits(y + h),
        fits(i),
        fits(j),
    ensures
        left_on(left_right(x, y, w, h), (i as i32, j as i32)) == if y <= j <= y + h && i == x + w {
            Some(7usize)
        } else if y <= j <= y + h && i == x {
            Some(6usize)
        } else {
            None
        },
    decreases h + 1,
{
    if h >= 0 {
        let before = left_right(x, y, w, h - 1);
        let left = (x as i32, (y + h) as i32, 6usize);
        let right = ((x + w) as i32, (y + h) as i32, 7usize);
        let all = left_right(x, y, w, h);
        assert(all == before.push(left).push(right));
        assert(all.last() == right);
        assert(all.drop_last() =~= before.push(left));
        assert(before.push(left).last() == left);
        assert(before.push(left).drop_last() =~= before);
        assert(left_on(all, (i as i32, j as i32)) == if right.0 == i as i32 && right.1
            == j as i32 {
            Some(7usize)
        } else if left.0 == i as i32 && left.1 == j as i32 {
            Some(6usize)
        } else {
            left_on(before, (i as i32, j as i32))
        }) by {
            reveal_with_fuel(left_on, 3);
        }
        lemma_left_right(x, y, w, h - 1, i, j);
    }
}

/// A frame shows nine names: after all its strokes, each cell of the
/// rectangle carries the name of its corner, its side or the middle, and no
/// cell outside the rectangle carries any.
pub proof fn law_frame_shows_nine_names(x: int, y: int, w: int, h: int, i: int, j: int)
    requires
        w >= 0,
        h >= 0,
        fits(x),
        fits(y),
        fits(x + w),
        fits(y + h),
        fits(i),
        fits(j),
    ensures
        left_on(boxed_of(x, y, w, h), (i as i32, j as i32)) == framed(x, y, w, h, i, j),
{
    let cell = (i as i32, j as i32);
    let fill = rect_of(x, y, w, h).map_values(|cell: Cell| (cell.0, cell.1, 8usize));
    let rows = top_bottom(x, y, w, h);
    let sides = left_right(x, y, w, h);
    let ends = corners(x, y, w, h);
    lemma_left_on_join(fill + rows + sides, ends, cell);
    lemma_left_on_join(fill + rows, sides, cell);
    lemma_left_on_join(fill, rows, cell);
    lemma_fill(x, y, w, h, i, j);
    lemma_top_bottom(x, y, w, h, i, j);
    lemma_left_right(x, y, w, h, i, j);
    assert(left_on(ends, cell) == if i == x + w && j == y + h {
        Some(3usize)
    } else if i == x && j == y + h {
        Some(2usize)
    } else if i == x + w && j == y {
        Some(1usize)
    } else if i == x && j == y {
        Some(0usize)
    } else {
        None
    }) by {
        reveal_with_fuel(left_on, 5);
        assert(ends.drop_last() =~= seq![
            (x as i32, y as i32, 0usize),
            ((x + w) as i32, y as i32, 1usize),
            (x as i32, (y + h) as i32, 2usize),
        ]);
        assert(ends.drop_last().drop_last() =~= seq![
            (x as i32, y as i32, 0usize),
            ((x + w) as i32, y as i32, 1usize),
        ]);
        assert(ends.drop_last().drop_last().drop_last() =~= seq![(x as i32, y as i32, 0usize)]);
        assert(ends.drop_last().drop_last().drop_last().drop_last() =~= Seq::<Stroke>::empty());
    }
}

} // verus!
