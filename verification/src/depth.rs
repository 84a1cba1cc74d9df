//! Depth buffers: for every pixel the depth of the nearest fragment so far.
//!
//! A greater depth is nearer to the viewer. A buffer starts out with one and
//! the same depth in every cell, the farthest there is, and a fragment takes
//! over a cell only when it passes the depth test against what the cell
//! holds. The depth is any type with an order; what is proved of the test
//! holds for the types whose comparison operators follow their specification,
//! as those of the machine integers do.
use vstd::prelude::*;
use vstd::std_specs::cmp::{PartialOrdIs, PartialOrdSpec};

verus! {

/// Which fragments take over the cell they fall on.
#[derive(Debug, Clone, Copy, PartialEq, Eq)]
pub enum DepthTest {
    /// Those that are nearer than what the cell holds.
    Nearer,
    /// Those that are nearer than what the cell holds, or as near.
    NearerOrEqual,
}

/// Whether the comparison operators of `Z` are known to follow the
/// specification of its order.
pub open spec fn order_known<Z: PartialOrd>() -> bool {
    Z::obeys_partial_cmp_spec()
}

/// Whether a fragment of depth `z` passes `test` against a cell that holds
/// `stored`.
pub open spec fn passes<Z: PartialOrd>(test: DepthTest, stored: Z, z: Z) -> bool {
    match test {
        DepthTest::Nearer => stored.is_lt(&z),
        DepthTest::NearerOrEqual => stored.is_le(&z),
    }
}

/// A fragment: a depth that falls on the cell at column `x`, row `y`.
pub struct Fragment<Z> {
    pub x: int,
    pub y: int,
    pub z: Z,
}

/// What a depth buffer holds: a depth for each cell of a `width` by `height`
/// grid, keyed by column and row.
pub struct DepthGrid<Z> {
    pub width: nat,
    pub height: nat,
    pub cells: Map<(int, int), Z>,
}

impl<Z> DepthGrid<Z> {
    /// Whether column `x`, row `y` lies inside the grid.
    pub open spec fn contains(self, x: int, y: int) -> bool {
        0 <= x < self.width && 0 <= y < self.height
    }

    /// The grid of the given size that holds `far` in every cell.
    pub open spec fn cleared(width: nat, height: nat, far: Z) -> DepthGrid<Z> {
        DepthGrid {
            width,
            height,
            cells: Map::new(
                |cell: (int, int)| 0 <= cell.0 < width && 0 <= cell.1 < height,
                |cell: (int, int)| far,
            ),
        }
    }

    /// The grid with the depth at column `x`, row `y` replaced by `z`.
    pub open spec fn with(self, x: int, y: int, z: Z) -> DepthGrid<Z> {
        DepthGrid { width: self.width, height: self.height, cells: self.cells.insert((x, y), z) }
    }

    /// The grid after one fragment: if the fragment won its cell, the cell
    /// holds the depth of the fragment; if not, nothing has changed.
    pub open spec fn after(self, fragment: Fragment<Z>, won: bool) -> DepthGrid<Z> {
        if won {
            self.with(fragment.x, fragment.y, fragment.z)
        } else {
            self
        }
    }

    /// The grid after a sequence of fragments, drawn in order, of which those
    /// won their cell that `won` says.
    pub open spec fn after_all(self, fragments: Seq<Fragment<Z>>, won: Seq<bool>) -> DepthGrid<Z>
        recommends
            won.len() == fragments.len(),
        decreases fragments.len(),
    {
        if fragments.len() == 0 {
            self
        } else {
            self.after_all(fragments.drop_last(), won.drop_last()).after(
                fragments.last(),
                won.last(),
            )
        }
    }
}

impl<Z: PartialOrd> DepthGrid<Z> {
    /// Whether a fragment wins its cell: it does if it passes the test against
    /// the depth that the cell holds.
    pub open spec fn wins(self, fragment: Fragment<Z>, test: DepthTest) -> bool {
        passes(test, self.cells[(fragment.x, fragment.y)], fragment.z)
    }
}

/// A cell on which no fragment falls holds at the end what it held at the
/// start, whichever fragments won their cells: in a grid that was cleared, the
/// farthest depth.
pub proof fn lemma_untouched_cell_keeps_depth<Z>(
    grid: DepthGrid<Z>,
    fragments: Seq<Fragment<Z>>,
    won: Seq<bool>,
    x: int,
    y: int,
)
    requires
        won.len() == fragments.len(),
        forall|i: int|
            0 <= i < fragments.len() ==> !((#[trigger] fragments[i]).x == x && fragments[i].y == y),
    ensures
        grid.after_all(fragments, won).cells[(x, y)] == grid.cells[(x, y)],
    decreases fragments.len(),
{
    if fragments.len() > 0 {
        let before = fragments.drop_last();
        assert forall|i: int| 0 <= i < before.len() implies !((#[trigger] before[i]).x == x
            && before[i].y == y) by {
            assert(before[i] == fragments[i]);
        }
        lemma_untouched_cell_keeps_depth(grid, before, won.drop_last(), x, y);
        assert(!(fragments.last().x == x && fragments.last().y == y));
    }
}

/// The depth of a cell after a sequence of fragments is the depth it started
/// with or the depth of one of the fragments that won it.
pub proof fn lemma_cell_holds_start_or_winner<Z>(
    grid: DepthGrid<Z>,
    fragments: Seq<Fragment<Z>>,
    won: Seq<bool>,
    x: int,
    y: int,
)
    requires
        won.len() == fragments.len(),
    ensures
        ({
            let depth = grid.after_all(fragments, won).cells[(x, y)];
            depth == grid.cells[(x, y)] || exists|i: int|
                0 <= i < fragments.len() && won[i] && (#[trigger] fragments[i]).x == x
                    && fragments[i].y == y && fragments[i].z == depth
        }),
    decreases fragments.len(),
{
    if fragments.len() > 0 {
        let before = fragments.drop_last();
        lemma_cell_holds_start_or_winner(grid, before, won.drop_last(), x, y);
        let depth = grid.after_all(fragments, won).cells[(x, y)];
        let earlier = grid.after_all(before, won.drop_last()).cells[(x, y)];
        if depth == earlier {
            if earlier != grid.cells[(x, y)] {
                let i = choose|i: int|
                    0 <= i < before.len() && won.drop_last()[i] && (#[trigger] before[i]).x == x
                        && before[i].y == y && before[i].z == earlier;
                assert(fragments[i] == before[i] && won[i]);
            }
        } else {
            let last = fragments.len() - 1;
            assert(won[last] && fragments[last].x == x && fragments[last].y == y
                && fragments[last].z == depth);
        }
    }
}

/// Once a fragment has been tested, the cell it fell on is no farther than the
/// fragment, whether the fragment won the cell or not. This needs of the order
/// only that the depth of the fragment is not farther than itself.
pub proof fn lemma_tested_cell_not_farther<Z: PartialOrd>(
    grid: DepthGrid<Z>,
    fragment: Fragment<Z>,
    test: DepthTest,
)
    requires
        !fragment.z.is_lt(&fragment.z),
    ensures
        !grid.after(fragment, grid.wins(fragment, test)).cells[(fragment.x, fragment.y)].is_lt(
            &fragment.z,
        ),
{
}

/// A depth buffer over depths of type `Z`.
#[derive(Debug)]
pub struct DepthBuffer<Z> {
    width: usize,
    height: usize,
    /// Column after column: the cell at column `x`, row `y` is item
    /// `x * height + y`.
    cells: Vec<Z>,
}

/// The place of column `x`, row `y` in a buffer of the given height.
pub open spec fn cell_index(height: int, x: int, y: int) -> int {
    x * height + y
}

/// Inside a grid, different cells have different places, all of them below
/// `width * height`.
proof fn lemma_cell_index(width: int, height: int, x: int, y: int, a: int, b: int)
    requires
        0 <= x < width && 0 <= y < height,
        0 <= a < width && 0 <= b < height,
    ensures
        0 <= cell_index(height, x, y) < width * height,
        cell_index(height, x, y) == cell_index(height, a, b) ==> x == a && y == b,
{
    assert(0 <= x * height && x * height + height <= width * height) by (nonlinear_arith)
        requires
            0 <= x < width,
            0 < height,
    ;
    if x < a {
        assert(x * height + height <= a * height) by (nonlinear_arith)
            requires
                x < a,
                0 < height,
        ;
    }
    if a < x {
        assert(a * height + height <= x * height) by (nonlinear_arith)
            requires
                a < x,
                0 < height,
        ;
    }
}

impl<Z> View for DepthBuffer<Z> {
    type V = DepthGrid<Z>;

    closed spec fn view(&self) -> DepthGrid<Z> {
        DepthGrid {
            width: self.width as nat,
            height: self.height as nat,
            cells: Map::new(
                |cell: (int, int)| 0 <= cell.0 < self.width && 0 <= cell.1 < self.height,
                |cell: (int, int)| self.cells@[cell_index(self.height as int, cell.0, cell.1)],
            ),
        }
    }
}

impl<Z: Copy + PartialOrd> DepthBuffer<Z> {
    /// What `new` establishes and `write` keeps: the buffer holds one depth
    /// for each cell of its grid.
    pub closed spec fn well_formed(&self) -> bool {
        self.cells@.len() == self.width * self.height <= usize::MAX
    }

    /// A buffer of `width` by `height` cells that holds `far` in each.
    pub fn new(width: usize, height: usize, far: Z) -> (buf: DepthBuffer<Z>)
        requires
            width * height <= usize::MAX,
        ensures
            buf.well_formed(),
            buf@ == DepthGrid::cleared(width as nat, height as nat, far),
    {
        let count = width * height;
        let mut cells: Vec<Z> = Vec::new();
        let mut i: usize = 0;
        while i < count
            invariant
                i <= count,
                cells@.len() == i,
                forall|k: int| 0 <= k < i ==> cells@[k] == far,
            decreases count - i,
        {
            cells.push(far);
            i += 1;
        }
        let buf = DepthBuffer { width, height, cells };
        proof {
            assert forall|cell: (int, int)| 0 <= cell.0 < width && 0 <= cell.1 < height implies
                buf.cells@[cell_index(height as int, cell.0, cell.1)] == far by {
                lemma_cell_index(width as int, height as int, cell.0, cell.1, cell.0, cell.1);
            }
            assert(buf@.cells =~= DepthGrid::cleared(width as nat, height as nat, far).cells);
        }
        buf
    }

    pub fn width(&self) -> (w: usize)
        ensures
            w == self@.width,
    {
        self.width
    }

    pub fn height(&self) -> (h: usize)
        ensures
            h == self@.height,
    {
        self.height
    }

    /// The depth that the cell at column `x`, row `y` holds.
    pub fn get(&self, x: usize, y: usize) -> (z: Z)
        requires
            self.well_formed(),
            self@.contains(x as int, y as int),
        ensures
            z == self@.cells[(x as int, y as int)],
    {
        proof {
            lemma_cell_index(
                self.width as int,
                self.height as int,
                x as int,
                y as int,
                x as int,
                y as int,
            );
            assert(0 <= x * self.height) by (nonlinear_arith)
                requires
                    0 <= x,
                    0 <= self.height,
            ;
        }
        self.cells[x * self.height + y]
    }

    /// Tests a fragment of depth `z` against the cell at column `x`, row `y`,
    /// and lets it take over the cell if it passes. Says whether it did.
    pub fn write(&mut self, x: usize, y: usize, z: Z, test: DepthTest) -> (written: bool)
        requires
            old(self).well_formed(),
            old(self)@.contains(x as int, y as int),
        ensures
            final(self).well_formed(),
            final(self)@ == old(self)@.after((Fragment { x: x as int, y: y as int, z }), written),
            order_known::<Z>() ==> written == old(self)@.wins(
                (Fragment { x: x as int, y: y as int, z }),
                test,
            ),
    {
        proof {
            lemma_cell_index(
                self.width as int,
                self.height as int,
                x as int,
                y as int,
                x as int,
                y as int,
            );
            assert(0 <= x * self.height) by (nonlinear_arith)
                requires
                    0 <= x,
                    0 <= self.height,
            ;
        }
        let place = x * self.height + y;
        let stored = self.cells[place];
        let written = match test {
            DepthTest::Nearer => stored < z,
            DepthTest::NearerOrEqual => stored <= z,
        };
        if written {
            self.cells.set(place, z);
            proof {
                let after = old(self)@.with(x as int, y as int, z);
                assert forall|cell: (int, int)| #[trigger]
                    after.cells.dom().contains(cell) implies self@.cells[cell]
                    == after.cells[cell] by {
                    lemma_cell_index(
                        self.width as int,
                        self.height as int,
                        x as int,
                        y as int,
                        cell.0,
                        cell.1,
                    );
                    lemma_cell_index(
                        self.width as int,
                        self.height as int,
                        cell.0,
                        cell.1,
                        cell.0,
                        cell.1,
                    );
                }
                assert(self@.cells.dom() =~= after.cells.dom());
                assert(self@.cells =~= after.cells);
            }
        }
        written
    }
}

} // verus!
