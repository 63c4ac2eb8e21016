//! The tile grid the simulation collides against.
//!
//! The host's tile map is consumed as data: the set of solid cells, queried
//! by integer tile coordinate. A coordinate with no entry is non-solid, the
//! same as a cell whose data says so.

use vstd::prelude::*;

verus! {

/// One display unit in fixed-point world units; also the side of one tile.
pub const TILE_SIZE: i32 = 0x1_0000;

/// The tile coordinate containing a world coordinate (floor division by
/// [`TILE_SIZE`]).
pub open spec fn tile_of(v: int) -> int {
    v / (TILE_SIZE as int)
}

/// The world coordinate of a tile's near boundary.
pub open spec fn world_of(t: int) -> int {
    t * (TILE_SIZE as int)
}

/// The grid of solid tiles.
pub struct TileGrid {
    /// Tile coordinates of the solid cells, in any order.
    pub cells: Vec<(i32, i32)>,
}

impl TileGrid {
    /// Whether the cell at tile coordinate `(x, y)` is solid.
    pub open spec fn sol(self, x: int, y: int) -> bool {
        exists|k: int|
            0 <= k < self.cells@.len() && #[trigger] self.cells@[k] == ((x as i32, y as i32))
                && i32::MIN <= x <= i32::MAX && i32::MIN <= y <= i32::MAX
    }

    /// An empty grid: no cell is solid.
    pub fn new() -> (r: TileGrid)
        ensures
            forall|x: int, y: int| !r.sol(x, y),
    {
        TileGrid { cells: Vec::new() }
    }

    /// Marks the cell at `(x, y)` solid.
    pub fn set_solid(&mut self, x: i32, y: i32)
        ensures
            forall|x2: int, y2: int|
                #[trigger] final(self).sol(x2, y2) <==> (old(self).sol(x2, y2) || (x2 == x
                    && y2 == y)),
    {
        self.cells.push((x, y));
        proof {
            assert(self.cells@.last() == ((x, y)));
            assert forall|x2: int, y2: int| #[trigger]
                self.sol(x2, y2) <==> (old(self).sol(x2, y2) || (x2 == x as int && y2
                == y as int)) by {
                if old(self).sol(x2, y2) {
                    let k = choose|k: int|
                        0 <= k < old(self).cells@.len() && #[trigger] old(self).cells@[k] == ((
                        x2 as i32,
                        y2 as i32,
                    ));
                    assert(self.cells@[k] == ((x2 as i32, y2 as i32)));
                }
                if x2 == x as int && y2 == y as int {
                    assert(self.cells@[self.cells@.len() - 1] == ((x2 as i32, y2 as i32)));
                }
                if self.sol(x2, y2) {
                    let k = choose|k: int|
                        0 <= k < self.cells@.len() && #[trigger] self.cells@[k] == ((
                        x2 as i32,
                        y2 as i32,
                    ));
                    if k < self.cells@.len() - 1 {
                        assert(old(self).cells@[k] == ((x2 as i32, y2 as i32)));
                    }
                }
            }
        }
    }

    /// Looks the cell at `(x, y)` up.
    pub fn is_solid(&self, x: i32, y: i32) -> (r: bool)
        ensures
            r == self.sol(x as int, y as int),
    {
        let n: usize = self.cells.len();
        let mut k: usize = 0;
        while k < n
            invariant
                n == self.cells@.len(),
                k <= n,
                forall|j: int| 0 <= j < k ==> self.cells@[j] != ((x, y)),
            decreases n - k,
        {
            let c = self.cells[k];
            if c.0 == x && c.1 == y {
                assert(self.cells@[k as int] == ((x, y)));
                return true;
            }
            k += 1;
        }
        false
    }
}

/// Whether the tile column `x` holds a solid cell with row in `[ylo, yhi]`.
pub open spec fn col_has_solid(g: TileGrid, x: int, ylo: int, yhi: int) -> bool {
    exists|y: int| ylo <= y <= yhi && #[trigger] g.sol(x, y)
}

/// Whether the tile row `y` holds a solid cell with column in `[xlo, xhi]`.
pub open spec fn row_has_solid(g: TileGrid, y: int, xlo: int, xhi: int) -> bool {
    exists|x: int| xlo <= x <= xhi && #[trigger] g.sol(x, y)
}

/// Scans the rows `ylo..=yhi` of column `x` for a solid cell.
pub fn scan_col(g: &TileGrid, x: i32, ylo: i32, yhi: i32) -> (r: bool)
    requires
        yhi < i32::MAX,
    ensures
        r == col_has_solid(*g, x as int, ylo as int, yhi as int),
{
    let mut y: i32 = ylo;
    while y <= yhi
        invariant
            ylo <= y <= yhi + 1 || y == ylo,
            yhi < i32::MAX,
            forall|y2: int| ylo <= y2 < y ==> !g.sol(x as int, y2),
        decreases yhi + 1 - y,
    {
        if g.is_solid(x, y) {
            return true;
        }
        y += 1;
    }
    false
}

/// Scans the columns `xlo..=xhi` of row `y` for a solid cell.
pub fn scan_row(g: &TileGrid, y: i32, xlo: i32, xhi: i32) -> (r: bool)
    requires
        xhi < i32::MAX,
    ensures
        r == row_has_solid(*g, y as int, xlo as int, xhi as int),
{
    let mut x: i32 = xlo;
    while x <= xhi
        invariant
            xlo <= x <= xhi + 1 || x == xlo,
            xhi < i32::MAX,
            forall|x2: int| xlo <= x2 < x ==> !g.sol(x2, y as int),
        decreases xhi + 1 - x,
    {
        if g.is_solid(x, y) {
            return true;
        }
        x += 1;
    }
    false
}

/// The lowest column in `[xlo, xhi]` holding a solid cell with row in
/// `[ylo, yhi]`, if any: the nearest obstacle when sweeping rightward.
pub fn first_solid_col(g: &TileGrid, xlo: i32, xhi: i32, ylo: i32, yhi: i32) -> (r: Option<i32>)
    requires
        xhi < i32::MAX,
        yhi < i32::MAX,
    ensures
        r matches Some(x) ==> xlo <= x <= xhi && col_has_solid(*g, x as int, ylo as int, yhi as int)
            && forall|x2: int| xlo <= x2 < x ==> !col_has_solid(*g, x2, ylo as int, yhi as int),
        r is None ==> forall|x2: int|
            xlo <= x2 <= xhi ==> !col_has_solid(*g, x2, ylo as int, yhi as int),
        first_col(*g, xlo as int, xhi as int, ylo as int, yhi as int) == (match r {
            Some(x) => Some(x as int),
            None => None::<int>,
        }),
{
    proof {
        lemma_first_col_char(*g, xlo as int, xhi as int, ylo as int, yhi as int);
    }
    let mut x: i32 = xlo;
    while x <= xhi
        invariant
            xlo <= x <= xhi + 1 || x == xlo,
            xhi < i32::MAX,
            yhi < i32::MAX,
            forall|x2: int| xlo <= x2 < x ==> !col_has_solid(*g, x2, ylo as int, yhi as int),
        decreases xhi + 1 - x,
    {
        if scan_col(g, x, ylo, yhi) {
            proof {
                lemma_first_col_char(*g, xlo as int, xhi as int, ylo as int, yhi as int);
            }
            return Some(x);
        }
        x += 1;
    }
    None
}

/// The highest column in `[xlo, xhi]` holding a solid cell with row in
/// `[ylo, yhi]`, if any: the nearest obstacle when sweeping leftward.
pub fn last_solid_col(g: &TileGrid, xlo: i32, xhi: i32, ylo: i32, yhi: i32) -> (r: Option<i32>)
    requires
        xlo > i32::MIN,
        yhi < i32::MAX,
    ensures
        r matches Some(x) ==> xlo <= x <= xhi && col_has_solid(*g, x as int, ylo as int, yhi as int)
            && forall|x2: int| x < x2 <= xhi ==> !col_has_solid(*g, x2, ylo as int, yhi as int),
        r is None ==> forall|x2: int|
            xlo <= x2 <= xhi ==> !col_has_solid(*g, x2, ylo as int, yhi as int),
        last_col(*g, xlo as int, xhi as int, ylo as int, yhi as int) == (match r {
            Some(x) => Some(x as int),
            None => None::<int>,
        }),
{
    proof {
        lemma_last_col_char(*g, xlo as int, xhi as int, ylo as int, yhi as int);
    }
    let mut x: i32 = xhi;
    while x >= xlo
        invariant
            xlo - 1 <= x <= xhi || x == xhi,
            xlo > i32::MIN,
            yhi < i32::MAX,
            forall|x2: int| x < x2 <= xhi ==> !col_has_solid(*g, x2, ylo as int, yhi as int),
        decreases x + 1 - xlo,
    {
        if scan_col(g, x, ylo, yhi) {
            proof {
                lemma_last_col_char(*g, xlo as int, xhi as int, ylo as int, yhi as int);
            }
            return Some(x);
        }
        x -= 1;
    }
    None
}

/// The lowest row in `[ylo, yhi]` holding a solid cell with column in
/// `[xlo, xhi]`, if any: the nearest obstacle when sweeping downward.
pub fn first_solid_row(g: &TileGrid, ylo: i32, yhi: i32, xlo: i32, xhi: i32) -> (r: Option<i32>)
    requires
        yhi < i32::MAX,
        xhi < i32::MAX,
    ensures
        r matches Some(y) ==> ylo <= y <= yhi && row_has_solid(*g, y as int, xlo as int, xhi as int)
            && forall|y2: int| ylo <= y2 < y ==> !row_has_solid(*g, y2, xlo as int, xhi as int),
        r is None ==> forall|y2: int|
            ylo <= y2 <= yhi ==> !row_has_solid(*g, y2, xlo as int, xhi as int),
        first_row(*g, ylo as int, yhi as int, xlo as int, xhi as int) == (match r {
            Some(y) => Some(y as int),
            None => None::<int>,
        }),
{
    proof {
        lemma_first_row_char(*g, ylo as int, yhi as int, xlo as int, xhi as int);
    }
    let mut y: i32 = ylo;
    while y <= yhi
        invariant
            ylo <= y <= yhi + 1 || y == ylo,
            yhi < i32::MAX,
            xhi < i32::MAX,
            forall|y2: int| ylo <= y2 < y ==> !row_has_solid(*g, y2, xlo as int, xhi as int),
        decreases yhi + 1 - y,
    {
        if scan_row(g, y, xlo, xhi) {
            proof {
                lemma_first_row_char(*g, ylo as int, yhi as int, xlo as int, xhi as int);
            }
            return Some(y);
        }
        y += 1;
    }
    None
}

/// The highest row in `[ylo, yhi]` holding a solid cell with column in
/// `[xlo, xhi]`, if any: the nearest obstacle when sweeping upward.
pub fn last_solid_row(g: &TileGrid, ylo: i32, yhi: i32, xlo: i32, xhi: i32) -> (r: Option<i32>)
    requires
        ylo > i32::MIN,
        xhi < i32::MAX,
    ensures
        r matches Some(y) ==> ylo <= y <= yhi && row_has_solid(*g, y as int, xlo as int, xhi as int)
            && forall|y2: int| y < y2 <= yhi ==> !row_has_solid(*g, y2, xlo as int, xhi as int),
        r is None ==> forall|y2: int|
            ylo <= y2 <= yhi ==> !row_has_solid(*g, y2, xlo as int, xhi as int),
        last_row(*g, ylo as int, yhi as int, xlo as int, xhi as int) == (match r {
            Some(y) => Some(y as int),
            None => None::<int>,
        }),
{
    proof {
        lemma_last_row_char(*g, ylo as int, yhi as int, xlo as int, xhi as int);
    }
    let mut y: i32 = yhi;
    while y >= ylo
        invariant
            ylo - 1 <= y <= yhi || y == yhi,
            ylo > i32::MIN,
            xhi < i32::MAX,
            forall|y2: int| y < y2 <= yhi ==> !row_has_solid(*g, y2, xlo as int, xhi as int),
        decreases y + 1 - ylo,
    {
        if scan_row(g, y, xlo, xhi) {
            proof {
                lemma_last_row_char(*g, ylo as int, yhi as int, xlo as int, xhi as int);
            }
            return Some(y);
        }
        y -= 1;
    }
    None
}

} // verus!
// The spec-level counterparts of the four searches, used to state the
// resolver's contracts as functions of the grid.

verus! {

/// Spec-level [`first_solid_col`].
pub open spec fn first_col(g: TileGrid, xlo: int, xhi: int, ylo: int, yhi: int) -> Option<int>
    decreases xhi + 1 - xlo,
{
    if xlo > xhi {
        None
    } else if col_has_solid(g, xlo, ylo, yhi) {
        Some(xlo)
    } else {
        first_col(g, xlo + 1, xhi, ylo, yhi)
    }
}

/// Spec-level [`last_solid_col`].
pub open spec fn last_col(g: TileGrid, xlo: int, xhi: int, ylo: int, yhi: int) -> Option<int>
    decreases xhi + 1 - xlo,
{
    if xlo > xhi {
        None
    } else if col_has_solid(g, xhi, ylo, yhi) {
        Some(xhi)
    } else {
        last_col(g, xlo, xhi - 1, ylo, yhi)
    }
}

/// Spec-level [`first_solid_row`].
pub open spec fn first_row(g: TileGrid, ylo: int, yhi: int, xlo: int, xhi: int) -> Option<int>
    decreases yhi + 1 - ylo,
{
    if ylo > yhi {
        None
    } else if row_has_solid(g, ylo, xlo, xhi) {
        Some(ylo)
    } else {
        first_row(g, ylo + 1, yhi, xlo, xhi)
    }
}

/// Spec-level [`last_solid_row`].
pub open spec fn last_row(g: TileGrid, ylo: int, yhi: int, xlo: int, xhi: int) -> Option<int>
    decreases yhi + 1 - ylo,
{
    if ylo > yhi {
        None
    } else if row_has_solid(g, yhi, xlo, xhi) {
        Some(yhi)
    } else {
        last_row(g, ylo, yhi - 1, xlo, xhi)
    }
}

/// What [`first_col`] returns: the lowest qualifying column, or none.
pub proof fn lemma_first_col_char(g: TileGrid, xlo: int, xhi: int, ylo: int, yhi: int)
    ensures
        match first_col(g, xlo, xhi, ylo, yhi) {
            Some(x) => xlo <= x <= xhi && col_has_solid(g, x, ylo, yhi) && forall|x2: int|
                xlo <= x2 < x ==> !col_has_solid(g, x2, ylo, yhi),
            None => forall|x2: int| xlo <= x2 <= xhi ==> !col_has_solid(g, x2, ylo, yhi),
        },
    decreases xhi + 1 - xlo,
{
    if xlo <= xhi && !col_has_solid(g, xlo, ylo, yhi) {
        lemma_first_col_char(g, xlo + 1, xhi, ylo, yhi);
    }
}

/// What [`last_col`] returns: the highest qualifying column, or none.
pub proof fn lemma_last_col_char(g: TileGrid, xlo: int, xhi: int, ylo: int, yhi: int)
    ensures
        match last_col(g, xlo, xhi, ylo, yhi) {
            Some(x) => xlo <= x <= xhi && col_has_solid(g, x, ylo, yhi) && forall|x2: int|
                x < x2 <= xhi ==> !col_has_solid(g, x2, ylo, yhi),
            None => forall|x2: int| xlo <= x2 <= xhi ==> !col_has_solid(g, x2, ylo, yhi),
        },
    decreases xhi + 1 - xlo,
{
    if xlo <= xhi && !col_has_solid(g, xhi, ylo, yhi) {
        lemma_last_col_char(g, xlo, xhi - 1, ylo, yhi);
    }
}

/// What [`first_row`] returns: the lowest qualifying row, or none.
pub proof fn lemma_first_row_char(g: TileGrid, ylo: int, yhi: int, xlo: int, xhi: int)
    ensures
        match first_row(g, ylo, yhi, xlo, xhi) {
            Some(y) => ylo <= y <= yhi && row_has_solid(g, y, xlo, xhi) && forall|y2: int|
                ylo <= y2 < y ==> !row_has_solid(g, y2, xlo, xhi),
            None => forall|y2: int| ylo <= y2 <= yhi ==> !row_has_solid(g, y2, xlo, xhi),
        },
    decreases yhi + 1 - ylo,
{
    if ylo <= yhi && !row_has_solid(g, ylo, xlo, xhi) {
        lemma_first_row_char(g, ylo + 1, yhi, xlo, xhi);
    }
}

/// What [`last_row`] returns: the highest qualifying row, or none.
pub proof fn lemma_last_row_char(g: TileGrid, ylo: int, yhi: int, xlo: int, xhi: int)
    ensures
        match last_row(g, ylo, yhi, xlo, xhi) {
            Some(y) => ylo <= y <= yhi && row_has_solid(g, y, xlo, xhi) && forall|y2: int|
                y < y2 <= yhi ==> !row_has_solid(g, y2, xlo, xhi),
            None => forall|y2: int| ylo <= y2 <= yhi ==> !row_has_solid(g, y2, xlo, xhi),
        },
    decreases yhi + 1 - ylo,
{
    if ylo <= yhi && !row_has_solid(g, yhi, xlo, xhi) {
        lemma_last_row_char(g, ylo, yhi - 1, xlo, xhi);
    }
}

/// The tile coordinate of a world coordinate, computed executably.
pub fn tile_coord(v: i32) -> (r: i32)
    ensures
        r == tile_of(v as int),
{
    let q: i32 = v / TILE_SIZE;
    if v % TILE_SIZE != 0 && v < 0 {
        q - 1
    } else {
        q
    }
}

/// Taking tile coordinates preserves order.
pub proof fn lemma_tile_mono(u: int, v: int)
    requires
        u <= v,
    ensures
        tile_of(u) <= tile_of(v),
{
    vstd::arithmetic::div_mod::lemma_div_is_ordered(u, v, TILE_SIZE as int);
}

/// A world coordinate lies within the tile it maps to.
pub proof fn lemma_tile_bounds(v: int)
    ensures
        world_of(tile_of(v)) <= v < world_of(tile_of(v)) + TILE_SIZE,
{
    let t = TILE_SIZE as int;
    assert((v / t) * t <= v < (v / t) * t + t) by (nonlinear_arith)
        requires t == 0x1_0000
    ;
}

} // verus!
