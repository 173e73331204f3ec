//! Conway's Game of Life on a fixed-size rectangular grid with clipped
//! (non-wrapping) boundaries: out-of-bounds neighbors are simply absent.

use vstd::prelude::*;
use vstd::string::StringExecFns;

verus! {

/// Counts a boolean as 0 or 1, for summing live cells.
pub open spec fn ind(b: bool) -> int {
    if b {
        1
    } else {
        0
    }
}

/// Whether position (i, j) is inside grid `g` and holds a live cell.
/// Out-of-bounds positions count as dead, which models the clipped boundary.
pub open spec fn alive(g: Seq<Seq<bool>>, i: int, j: int) -> bool {
    &&& 0 <= i < g.len()
    &&& 0 <= j < g[i].len()
    &&& g[i][j]
}

/// The number of live cells among the up-to-8 Moore neighbors of (i, j),
/// with neighbors outside the grid contributing nothing.
pub open spec fn neighbor_count(g: Seq<Seq<bool>>, i: int, j: int) -> int {
    ind(alive(g, i - 1, j - 1)) + ind(alive(g, i - 1, j)) + ind(alive(g, i - 1, j + 1)) + ind(
        alive(g, i, j - 1),
    ) + ind(alive(g, i, j + 1)) + ind(alive(g, i + 1, j - 1)) + ind(alive(g, i + 1, j)) + ind(
        alive(g, i + 1, j + 1),
    )
}

/// The standard Game of Life rule: a live cell survives with 2 or 3 live
/// neighbors, a dead cell is born with exactly 3, everything else is dead.
pub open spec fn step_cell(g: Seq<Seq<bool>>, i: int, j: int) -> bool {
    if g[i][j] {
        neighbor_count(g, i, j) == 2 || neighbor_count(g, i, j) == 3
    } else {
        neighbor_count(g, i, j) == 3
    }
}

/// A grid of `height` rows, each of exactly `width` cells, both positive.
pub open spec fn grid_wf(g: Seq<Seq<bool>>, width: int, height: int) -> bool {
    &&& width >= 1
    &&& height >= 1
    &&& g.len() == height
    &&& forall|i: int| 0 <= i < height ==> (#[trigger] g[i]).len() == width
}

/// The character a cell is drawn as: one symbol for a live cell, a different
/// one for a dead cell.
pub open spec fn glyph(alive: bool) -> char {
    if alive {
        '#'
    } else {
        '.'
    }
}

/// One rendered row: a glyph per cell, then a newline.
pub open spec fn render_row(row: Seq<bool>) -> Seq<char> {
    Seq::new(
        row.len() + 1,
        |j: int|
            if j < row.len() {
                glyph(row[j])
            } else {
                '\n'
            },
    )
}

/// The first `j` glyphs of one row, still without its newline.
pub open spec fn render_row_prefix(row: Seq<bool>, j: int) -> Seq<char> {
    Seq::new(j as nat, |k: int| glyph(row[k]))
}

/// The first `n` rows of the grid, each rendered and newline-terminated.
pub open spec fn render_rows(g: Seq<Seq<bool>>, n: int) -> Seq<char>
    decreases n,
{
    if n <= 0 {
        Seq::empty()
    } else {
        render_rows(g, n - 1) + render_row(g[n - 1])
    }
}

/// Where character `j` of row `i` sits in the rendered text: each row takes
/// `width` glyphs plus its newline.
pub open spec fn render_pos(width: int, i: int, j: int) -> int {
    i * (width + 1) + j
}

/// The full rendering: every row, then one more newline, so that the text
/// ends in a blank line.
pub open spec fn render_spec(g: Seq<Seq<bool>>) -> Seq<char> {
    render_rows(g, g.len() as int) + seq!['\n']
}

/// At least one row, every row of one positive length: what a nested vector
/// of cells must look like before it can be taken as a grid.
pub open spec fn cells_rectangular(c: Seq<Seq<bool>>) -> bool {
    &&& c.len() >= 1
    &&& c[0].len() >= 1
    &&& forall|i: int| 0 <= i < c.len() ==> (#[trigger] c[i]).len() == c[0].len()
}

pub struct GameOfLife {
    width: usize,
    height: usize,
    grid: Vec<Vec<bool>>,
}

impl View for GameOfLife {
    type V = Seq<Seq<bool>>;

    closed spec fn view(&self) -> Seq<Seq<bool>> {
        Seq::new(self.grid@.len(), |i: int| self.grid@[i]@)
    }
}

/// Relies on rand::random: draws one boolean, each outcome equally likely.
/// Nothing can be promised of the value.
#[verifier::external_body]
fn random_bool() -> bool {
    rand::random::<bool>()
}

impl GameOfLife {
    pub open spec fn wf(self) -> bool {
        grid_wf(self@, self.spec_width() as int, self.spec_height() as int)
    }

    pub closed spec fn spec_width(self) -> usize {
        self.width
    }

    pub closed spec fn spec_height(self) -> usize {
        self.height
    }

    pub fn width(&self) -> (w: usize)
        ensures
            w == self.spec_width(),
    {
        self.width
    }

    pub fn height(&self) -> (h: usize)
        ensures
            h == self.spec_height(),
    {
        self.height
    }

    /// The cell at row `i`, column `j`.
    pub fn get(&self, i: usize, j: usize) -> (b: bool)
        requires
            self.wf(),
            i < self.spec_height(),
            j < self.spec_width(),
        ensures
            b == self@[i as int][j as int],
    {
        proof {
            assert(self@[i as int].len() == self.spec_width());
        }
        self.grid[i][j]
    }

    /// A grid of the given dimensions with every cell drawn at random.
    pub fn new(width: usize, height: usize) -> (g: GameOfLife)
        requires
            width >= 1,
            height >= 1,
        ensures
            g.wf(),
            g.spec_width() == width,
            g.spec_height() == height,
    {
        let mut grid: Vec<Vec<bool>> = Vec::new();
        let mut i: usize = 0;
        while i < height
            invariant
                grid@.len() == i,
                i <= height,
                forall|r: int| 0 <= r < i ==> (#[trigger] grid@[r])@.len() == width,
            decreases height - i,
        {
            let mut row: Vec<bool> = Vec::new();
            let mut j: usize = 0;
            while j < width
                invariant
                    row@.len() == j,
                    j <= width,
                decreases width - j,
            {
                row.push(random_bool());
                j = j + 1;
            }
            grid.push(row);
            i = i + 1;
        }
        GameOfLife { width, height, grid }
    }

    /// A grid holding exactly the given cells. Returns `None` when the rows
    /// are not all of one positive length, or there is no row at all.
    pub fn from_cells(cells: Vec<Vec<bool>>) -> (r: Option<GameOfLife>)
        ensures
            match r {
                Some(g) => {
                    &&& cells_rectangular(cells.deep_view())
                    &&& g.wf()
                    &&& g.spec_height() == cells@.len()
                    &&& g.spec_width() == cells@[0]@.len()
                    &&& g@ == cells.deep_view()
                },
                None => !cells_rectangular(cells.deep_view()),
            },
    {
        if cells.len() == 0 {
            return None;
        }
        let width = cells[0].len();
        if width == 0 {
            return None;
        }
        let height = cells.len();
        let mut i: usize = 0;
        while i < height
            invariant
                height == cells@.len(),
                width == cells@[0]@.len(),
                width >= 1,
                i <= height,
                forall|r: int| 0 <= r < i ==> (#[trigger] cells@[r])@.len() == width,
            decreases height - i,
        {
            if cells[i].len() != width {
                proof {
                    assert(cells.deep_view()[i as int].len() != cells.deep_view()[0].len());
                }
                return None;
            }
            i = i + 1;
        }
        let g = GameOfLife { width, height, grid: cells };
        proof {
            assert(g@ =~~= g.grid.deep_view());
        }
        Some(g)
    }

    /// The number of live cells among the up-to-8 neighbors of (i, j), the
    /// neighborhood window clipped to the grid bounds.
    pub fn count_neighbors(&self, i: usize, j: usize) -> (count: usize)
        requires
            self.wf(),
            i < self.spec_height(),
            j < self.spec_width(),
        ensures
            count == neighbor_count(self@, i as int, j as int),
    {
        proof {
            assert(self.grid@.len() == self.spec_height());
            assert forall|r: int| 0 <= r < self.grid@.len() implies (#[trigger] self.grid@[r])@.len()
                == self.spec_width() by {
                assert(self@[r].len() == self.spec_width());
            }
        }
        let mut count: usize = 0;
        if i > 0 && j > 0 && self.grid[i - 1][j - 1] {
            count = count + 1;
        }
        if i > 0 && self.grid[i - 1][j] {
            count = count + 1;
        }
        if i > 0 && j + 1 < self.width && self.grid[i - 1][j + 1] {
            count = count + 1;
        }
        if j > 0 && self.grid[i][j - 1] {
            count = count + 1;
        }
        if j + 1 < self.width && self.grid[i][j + 1] {
            count = count + 1;
        }
        if i + 1 < self.height && j > 0 && self.grid[i + 1][j - 1] {
            count = count + 1;
        }
        if i + 1 < self.height && self.grid[i + 1][j] {
            count = count + 1;
        }
        if i + 1 < self.height && j + 1 < self.width && self.grid[i + 1][j + 1] {
            count = count + 1;
        }
        count
    }

    /// The next generation of every cell, computed against `self` alone, so
    /// that no count ever sees an already-updated cell.
    fn step_grid(&self) -> (r: Vec<Vec<bool>>)
        requires
            self.wf(),
        ensures
            r@.len() == self.spec_height(),
            forall|i: int| 0 <= i < r@.len() ==> (#[trigger] r@[i])@.len() == self.spec_width(),
            forall|i: int, j: int|
                0 <= i < self.spec_height() && 0 <= j < self.spec_width() ==> r@[i]@[j]
                    == step_cell(self@, i, j),
    {
        let mut next_grid: Vec<Vec<bool>> = Vec::new();
        let mut i: usize = 0;
        while i < self.height
            invariant
                self.wf(),
                next_grid@.len() == i,
                i <= self.spec_height(),
                forall|r: int| 0 <= r < i ==> (#[trigger] next_grid@[r])@.len()
                    == self.spec_width(),
                forall|r: int, k: int|
                    0 <= r < i && 0 <= k < self.spec_width() ==> next_grid@[r]@[k]
                        == step_cell(self@, r, k),
            decreases self.spec_height() - i,
        {
            let mut row: Vec<bool> = Vec::new();
            let mut j: usize = 0;
            while j < self.width
                invariant
                    self.wf(),
                    i < self.spec_height(),
                    row@.len() == j,
                    j <= self.spec_width(),
                    forall|k: int| 0 <= k < j ==> row@[k] == step_cell(self@, i as int, k),
                decreases self.spec_width() - j,
            {
                let count = self.count_neighbors(i, j);
                let here = self.get(i, j);
                let born = if here {
                    count == 2 || count == 3
                } else {
                    count == 3
                };
                row.push(born);
                j = j + 1;
            }
            next_grid.push(row);
            i = i + 1;
        }
        next_grid
    }

    /// Advances the grid by one generation: every cell follows the rule,
    /// evaluated on the prior generation as one unchanging snapshot.
    pub fn next(&mut self)
        requires
            old(self).wf(),
        ensures
            final (self).wf(),
            final (self).spec_width() == old(self).spec_width(),
            final (self).spec_height() == old(self).spec_height(),
            forall|i: int, j: int|
                0 <= i < old(self).spec_height() && 0 <= j < old(self).spec_width()
                    ==> final(self)@[i][j] == step_cell(old(self)@, i, j),
    {
        let next_grid = self.step_grid();
        self.grid = next_grid;
        proof {
            assert forall|i: int| 0 <= i < self@.len() implies (#[trigger] self@[i]).len()
                == self.spec_width() by {
                assert(self@[i] == self.grid@[i]@);
            }
        }
    }

    /// The grid as text: one line per row, a glyph per cell, and a trailing
    /// blank line. A pure read; printing is left to the caller.
    pub fn render(&self) -> (r: String)
        requires
            self.wf(),
        ensures
            r@ == render_spec(self@),
    {
        let ghost g = self@;
        let mut r = String::new();
        let mut i: usize = 0;
        while i < self.height
            invariant
                self.wf(),
                g == self@,
                i <= self.spec_height(),
                r@ == render_rows(g, i as int),
            decreases self.spec_height() - i,
        {
            let mut j: usize = 0;
            while j < self.width
                invariant
                    self.wf(),
                    g == self@,
                    i < self.spec_height(),
                    j <= self.spec_width(),
                    r@ == render_rows(g, i as int) + render_row_prefix(g[i as int], j as int),
                decreases self.spec_width() - j,
            {
                proof {
                    reveal_strlit("#");
                    reveal_strlit(".");
                }
                if self.get(i, j) {
                    r.append("#");
                } else {
                    r.append(".");
                }
                proof {
                    assert(render_row_prefix(g[i as int], j + 1) =~= render_row_prefix(
                        g[i as int],
                        j as int,
                    ) + seq![glyph(g[i as int][j as int])]);
                    assert(r@ =~= render_rows(g, i as int) + render_row_prefix(
                        g[i as int],
                        j + 1,
                    ));
                }
                j = j + 1;
            }
            proof {
                reveal_strlit("\n");
            }
            r.append("\n");
            proof {
                assert(render_row(g[i as int]) =~= render_row_prefix(
                    g[i as int],
                    g[i as int].len() as int,
                ) + seq!['\n']);
                assert(r@ =~= render_rows(g, i as int) + render_row(g[i as int]));
            }
            i = i + 1;
        }
        proof {
            reveal_strlit("\n");
        }
        r.append("\n");
        proof {
            assert(r@ =~= render_spec(g));
        }
        r
    }
}

} // verus!
