use vstd::prelude::*;

use crate::hashing::md5_of;

verus! {

/// Which element of a 3-byte chunk the mirrored 5-cell row reads at offset
/// `j`: the row `[a, b, c]` becomes `[a, b, c, b, a]`.
pub open spec fn mirror_source(j: int) -> int {
    if j == 3 {
        1
    } else if j == 4 {
        0
    } else {
        j
    }
}

/// The byte that position `i` of the flattened mirrored grid holds.
pub open spec fn grid_value(digest: Seq<u8>, i: int) -> u8 {
    digest[(i / 5) * 3 + mirror_source(i % 5)]
}

/// The unfiltered grid derived from a digest: one mirrored 5-cell row per
/// full 3-byte chunk, flattened in chunk order, each value paired with its
/// position; a trailing chunk shorter than 3 bytes is discarded.
pub open spec fn grid_of(digest: Seq<u8>) -> Seq<(u8, u8)> {
    Seq::new((digest.len() / 3) * 5, |i: int| (grid_value(digest, i), i as u8))
}

/// A grid cell survives filtering exactly when its value is even.
pub open spec fn cell_even(cell: (u8, u8)) -> bool {
    cell.0 % 2 == 0
}

/// The grid restricted to its even-valued cells, order and indices kept.
pub open spec fn even_cells(grid: Seq<(u8, u8)>) -> Seq<(u8, u8)> {
    grid.filter(|cell: (u8, u8)| cell_even(cell))
}

/// The 50x50-pixel rectangle that a cell index denotes on the 250x250
/// canvas: column `index mod 5`, row `index div 5`.
pub open spec fn region_of(index: u8) -> Square {
    Square {
        top_left: Point { x: ((index % 5) * 50) as u8, y: ((index / 5) * 50) as u8 },
        bottom_right: Point {
            x: ((index % 5) * 50 + 50) as u8,
            y: ((index / 5) * 50 + 50) as u8,
        },
    }
}

/// The regions of a grid's cells, one per cell, in grid order.
pub open spec fn regions_of(grid: Seq<(u8, u8)>) -> Seq<Square> {
    Seq::new(grid.len(), |i: int| region_of(grid[i].1))
}

/// Whether the pixel at (x, y) lies inside a rectangle. The right and
/// bottom edges are excluded: the intervals are half-open.
pub open spec fn covers(square: Square, x: int, y: int) -> bool {
    &&& square.top_left.x <= x < square.bottom_right.x
    &&& square.top_left.y <= y < square.bottom_right.y
}

/// Whether any rectangle of the pixel map covers the pixel at (x, y).
pub open spec fn covered(pixel_map: Seq<Square>, x: int, y: int) -> bool {
    exists|k: int| 0 <= k < pixel_map.len() && covers(#[trigger] pixel_map[k], x, y)
}

/// The value of channel `c` of the pixel at (x, y): the derived color on
/// every covered pixel, the light-gray background everywhere else.
pub open spec fn pixel_channel(
    pixel_map: Seq<Square>,
    color: Seq<u8>,
    x: int,
    y: int,
    c: int,
) -> u8 {
    if covered(pixel_map, x, y) {
        color[c]
    } else {
        250u8
    }
}

/// One pipeline run: the digest bytes, the color derived from them, the
/// mirrored (value, index) grid, and the rectangles to paint.
#[derive(Debug, Clone)]
pub struct Identicon {
    pub hex: Vec<u8>,
    pub color: [u8; 3],
    pub grid: Vec<(u8, u8)>,
    pub pixel_map: Vec<Square>,
}

/// A rectangle on the canvas, in pixel coordinates.
#[derive(Debug, Clone, PartialEq, Eq, Structural)]
pub struct Square {
    pub top_left: Point,
    pub bottom_right: Point,
}

/// A point on the 250x250 canvas; every coordinate the pipeline produces
/// fits in a byte.
#[derive(Debug, Clone, PartialEq, Eq, Structural)]
pub struct Point {
    pub x: u8,
    pub y: u8,
}

impl Identicon {
    /// An empty run: no digest, black color, no grid, no pixel map.
    pub fn new() -> (r: Self)
        ensures
            r.hex@ == Seq::<u8>::empty(),
            r.color@ == seq![0u8, 0u8, 0u8],
            r.grid@ == Seq::<(u8, u8)>::empty(),
            r.pixel_map@ == Seq::<Square>::empty(),
    {
        Identicon {
            hex: vec![],
            color: [0, 0, 0],
            grid: vec![],
            pixel_map: vec![],
        }
    }

    /// Derives the 16-byte digest of the input and stores it; the other
    /// fields are untouched.
    pub fn hash_input(&mut self, input: &str)
        ensures
            final(self).hex@ == md5_of(input@),
            final(self).hex@.len() == 16,
            final(self).color == old(self).color,
            final(self).grid == old(self).grid,
            final(self).pixel_map == old(self).pixel_map,
    {
        self.hex = crate::hashing::md5_digest(input);
    }

    /// Copies the first three digest bytes, in order, into the color.
    pub fn pick_color(&mut self)
        requires
            old(self).hex@.len() >= 3,
        ensures
            final(self).color@ == seq![old(self).hex@[0], old(self).hex@[1], old(self).hex@[2]],
            final(self).hex == old(self).hex,
            final(self).grid == old(self).grid,
            final(self).pixel_map == old(self).pixel_map,
    {
        self.color = [self.hex[0], self.hex[1], self.hex[2]];
    }

    /// Rebuilds the grid from the digest: each full 3-byte chunk becomes a
    /// mirrored 5-cell row, and every cell is paired with its position in
    /// the flattened sequence. The bound on the chunk count keeps every
    /// position within a byte.
    pub fn build_grid(&mut self)
        requires
            old(self).hex@.len() / 3 <= 51,
        ensures
            final(self).grid@ == grid_of(old(self).hex@),
            final(self).hex == old(self).hex,
            final(self).color == old(self).color,
            final(self).pixel_map == old(self).pixel_map,
    {
        let chunks: usize = self.hex.len() / 3;
        let n: usize = chunks * 5;
        let mut grid: Vec<(u8, u8)> = Vec::new();
        let mut i: usize = 0;
        while i < n
            invariant
                i <= n,
                chunks == self.hex@.len() / 3,
                chunks <= 51,
                n == chunks * 5,
                grid@ == grid_of(self.hex@).take(i as int),
            decreases n - i,
        {
            let pos: usize = i % 5;
            let src: usize = if pos == 3 {
                1
            } else if pos == 4 {
                0
            } else {
                pos
            };
            let base: usize = (i / 5) * 3;
            assert(i / 5 < chunks && base + src < self.hex@.len()) by (nonlinear_arith)
                requires
                    0 <= i < n,
                    n == chunks * 5,
                    chunks == self.hex@.len() / 3,
                    base == (i / 5) * 3,
                    src == mirror_source(i as int % 5),
                    0 <= src < 3,
            ;
            let value: u8 = self.hex[base + src];
            grid.push((value, i as u8));
            proof {
                assert(grid_of(self.hex@)[i as int] == (value, i as u8));
                assert(grid_of(self.hex@).take(i as int + 1) =~= grid_of(self.hex@).take(
                    i as int,
                ).push(grid_of(self.hex@)[i as int]));
            }
            i += 1;
        }
        proof {
            assert(grid_of(self.hex@).take(n as int) =~= grid_of(self.hex@));
        }
        self.grid = grid;
    }

    /// Drops every odd-valued cell from the grid; the surviving cells keep
    /// their order and their original indices, and each of them already
    /// stood in the grid before the call.
    pub fn remove_odd_squares(&mut self)
        ensures
            final(self).grid@ == even_cells(old(self).grid@),
            forall|k: int|
                0 <= k < final(self).grid@.len() ==> old(self).grid@.contains(
                    #[trigger] final(self).grid@[k],
                ),
            final(self).hex == old(self).hex,
            final(self).color == old(self).color,
            final(self).pixel_map == old(self).pixel_map,
    {
        let n: usize = self.grid.len();
        let mut filtered: Vec<(u8, u8)> = Vec::new();
        let mut i: usize = 0;
        while i < n
            invariant
                i <= n,
                n == self.grid@.len(),
                filtered@ == even_cells(self.grid@.take(i as int)),
                forall|k: int|
                    0 <= k < filtered@.len() ==> self.grid@.contains(#[trigger] filtered@[k]),
            decreases n - i,
        {
            let cell: (u8, u8) = self.grid[i];
            if cell.0 % 2 == 0 {
                filtered.push(cell);
            }
            proof {
                reveal(Seq::filter);
                assert(self.grid@.take(i as int + 1).drop_last() =~= self.grid@.take(i as int));
                assert(self.grid@.take(i as int + 1).last() == cell);
            }
            i += 1;
        }
        proof {
            assert(self.grid@.take(n as int) =~= self.grid@);
        }
        self.grid = filtered;
    }

    /// Maps every grid cell's index to its canvas rectangle, in grid order.
    /// Indices must lie on the 5x5 canvas layout so that every coordinate
    /// fits in a byte.
    pub fn build_pixel_map(&mut self)
        requires
            forall|k: int|
                0 <= k < old(self).grid@.len() ==> (#[trigger] old(self).grid@[k]).1 < 25,
        ensures
            final(self).pixel_map@ == regions_of(old(self).grid@),
            final(self).hex == old(self).hex,
            final(self).color == old(self).color,
            final(self).grid == old(self).grid,
    {
        let n: usize = self.grid.len();
        let mut pixel_map: Vec<Square> = Vec::new();
        let mut i: usize = 0;
        while i < n
            invariant
                i <= n,
                n == self.grid@.len(),
                forall|k: int| 0 <= k < n ==> (#[trigger] self.grid@[k]).1 < 25,
                pixel_map@ == regions_of(self.grid@).take(i as int),
            decreases n - i,
        {
            let index: u8 = self.grid[i].1;
            let horizontal: u8 = (index % 5) * 50;
            let vertical: u8 = (index / 5) * 50;
            let top_left = Point { x: horizontal, y: vertical };
            let bottom_right = Point { x: horizontal + 50, y: vertical + 50 };
            pixel_map.push(Square { top_left, bottom_right });
            proof {
                assert(regions_of(self.grid@).take(i as int + 1) =~= regions_of(
                    self.grid@,
                ).take(i as int).push(region_of(index)));
            }
            i += 1;
        }
        proof {
            assert(regions_of(self.grid@).take(n as int) =~= regions_of(self.grid@));
        }
        self.pixel_map = pixel_map;
    }

    /// Rasterizes the pixel map into a 250x250 RGB buffer, row-major with
    /// three bytes per pixel: every covered pixel gets the derived color,
    /// every other pixel the light-gray background.
    pub fn paint_pixels(&self) -> (buf: Vec<u8>)
        ensures
            buf@.len() == 187500,
            forall|x: int, y: int, c: int|
                0 <= x < 250 && 0 <= y < 250 && 0 <= c < 3 ==> buf@[(y * 250 + x) * 3 + c]
                    == pixel_channel(self.pixel_map@, self.color@, x, y, c),
    {
        let mut buf: Vec<u8> = Vec::new();
        let mut y: usize = 0;
        while y < 250
            invariant
                y <= 250,
                buf@.len() == y * 750,
                forall|xx: int, yy: int, c: int|
                    0 <= xx < 250 && 0 <= yy < y && 0 <= c < 3 ==> buf@[(yy * 250 + xx) * 3 + c]
                        == pixel_channel(self.pixel_map@, self.color@, xx, yy, c),
            decreases 250 - y,
        {
            let mut x: usize = 0;
            while x < 250
                invariant
                    x <= 250,
                    y < 250,
                    buf@.len() == y * 750 + x * 3,
                    forall|xx: int, yy: int, c: int|
                        0 <= xx < 250 && 0 <= yy < y && 0 <= c < 3 ==> buf@[(yy * 250 + xx) * 3
                            + c] == pixel_channel(self.pixel_map@, self.color@, xx, yy, c),
                    forall|xx: int, c: int|
                        0 <= xx < x && 0 <= c < 3 ==> buf@[(y * 250 + xx) * 3 + c]
                            == pixel_channel(self.pixel_map@, self.color@, xx, y as int, c),
                decreases 250 - x,
            {
                if is_covered(&self.pixel_map, x as u8, y as u8) {
                    buf.push(self.color[0]);
                    buf.push(self.color[1]);
                    buf.push(self.color[2]);
                } else {
                    buf.push(250);
                    buf.push(250);
                    buf.push(250);
                }
                x += 1;
            }
            y += 1;
        }
        buf
    }

    /// Runs the whole pipeline on an input string: hash, color, mirrored
    /// grid, even-cell filter, and pixel map. The result is ready for
    /// `paint_pixels`.
    pub fn generate(input: &str) -> (r: Identicon)
        ensures
            r.hex@ == md5_of(input@),
            r.color@ == seq![md5_of(input@)[0], md5_of(input@)[1], md5_of(input@)[2]],
            r.grid@ == even_cells(grid_of(md5_of(input@))),
            r.pixel_map@ == regions_of(even_cells(grid_of(md5_of(input@)))),
    {
        let mut identicon = Identicon::new();
        identicon.hash_input(input);
        identicon.pick_color();
        identicon.build_grid();
        identicon.remove_odd_squares();
        proof {
            let digest = md5_of(input@);
            assert(grid_of(digest).len() == 25);
            assert forall|k: int| 0 <= k < identicon.grid@.len() implies (
            #[trigger] identicon.grid@[k]).1 < 25 by {
                let cell = identicon.grid@[k];
                assert(grid_of(digest).contains(cell));
                let j = choose|j: int| 0 <= j < 25 && grid_of(digest)[j] == cell;
                assert(cell.1 == j as u8);
            }
        }
        identicon.build_pixel_map();
        identicon
    }
}

/// Filtering a grid whose cells are all even changes nothing.
proof fn lemma_even_filter_identity(grid: Seq<(u8, u8)>)
    requires
        forall|i: int| 0 <= i < grid.len() ==> cell_even(#[trigger] grid[i]),
    ensures
        even_cells(grid) == grid,
    decreases grid.len(),
{
    reveal(Seq::filter);
    if grid.len() == 0 {
        assert(even_cells(grid) =~= grid);
    } else {
        lemma_even_filter_identity(grid.drop_last());
        assert(cell_even(grid.last()));
        assert(even_cells(grid) =~= grid);
    }
}

/// Filtering is idempotent: filtering an already-filtered grid yields the
/// same grid again.
pub proof fn lemma_filter_idempotent(grid: Seq<(u8, u8)>)
    ensures
        even_cells(even_cells(grid)) == even_cells(grid),
{
    let once = even_cells(grid);
    assert forall|i: int| 0 <= i < once.len() implies cell_even(#[trigger] once[i]) by {
        grid.lemma_filter_pred(|cell: (u8, u8)| cell_even(cell), i);
    }
    lemma_even_filter_identity(once);
}

/// Every mirrored row of the unfiltered grid is a palindrome: within each
/// 5-cell row the first value matches the last and the second matches the
/// fourth.
pub proof fn lemma_row_symmetry(digest: Seq<u8>, row: int)
    requires
        0 <= row < digest.len() / 3,
    ensures
        grid_of(digest)[5 * row].0 == grid_of(digest)[5 * row + 4].0,
        grid_of(digest)[5 * row + 1].0 == grid_of(digest)[5 * row + 3].0,
{
    assert((5 * row) / 5 == row && (5 * row) % 5 == 0 && (5 * row + 1) / 5 == row && (5 * row
        + 1) % 5 == 1 && (5 * row + 3) / 5 == row && (5 * row + 3) % 5 == 3 && (5 * row + 4) / 5
        == row && (5 * row + 4) % 5 == 4) by (nonlinear_arith)
        requires
            0 <= row,
    ;
}

/// Whether any rectangle of the pixel map covers the pixel at (x, y),
/// testing each rectangle with half-open intervals.
fn is_covered(pixel_map: &Vec<Square>, x: u8, y: u8) -> (r: bool)
    ensures
        r == covered(pixel_map@, x as int, y as int),
{
    let n: usize = pixel_map.len();
    let mut i: usize = 0;
    while i < n
        invariant
            i <= n,
            n == pixel_map@.len(),
            forall|k: int| 0 <= k < i ==> !covers(#[trigger] pixel_map@[k], x as int, y as int),
        decreases n - i,
    {
        let square = &pixel_map[i];
        if x >= square.top_left.x && x < square.bottom_right.x && y >= square.top_left.y && y
            < square.bottom_right.y {
            return true;
        }
        i += 1;
    }
    false
}

} // verus!
