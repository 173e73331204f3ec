//! General properties of the automaton, stated and proved once and for all
//! over the spec-level grid model.

use crate::life::{
    alive, glyph, grid_wf, ind, neighbor_count, render_pos, render_row, render_rows, render_spec,
    step_cell,
};
use vstd::prelude::*;

verus! {

/// At an interior cell (touching no edge), the clipped window loses nothing:
/// the neighbor count is the plain count over all 8 surrounding cells.
pub proof fn lemma_interior_neighbor_count(
    g: Seq<Seq<bool>>,
    width: int,
    height: int,
    i: int,
    j: int,
)
    requires
        grid_wf(g, width, height),
        1 <= i < height - 1,
        1 <= j < width - 1,
    ensures
        neighbor_count(g, i, j) == ind(g[i - 1][j - 1]) + ind(g[i - 1][j]) + ind(g[i - 1][j + 1])
            + ind(g[i][j - 1]) + ind(g[i][j + 1]) + ind(g[i + 1][j - 1]) + ind(g[i + 1][j]) + ind(
            g[i + 1][j + 1],
        ),
{
    assert(g[i - 1].len() == width);
    assert(g[i].len() == width);
    assert(g[i + 1].len() == width);
}

/// At the top-left corner of a grid with at least 2 rows and 2 columns, the
/// window covers exactly the 3 cells that exist: no position outside the
/// grid — in particular none with a negative index — contributes anything.
pub proof fn lemma_corner_neighbor_count(g: Seq<Seq<bool>>, width: int, height: int)
    requires
        grid_wf(g, width, height),
        width >= 2,
        height >= 2,
    ensures
        neighbor_count(g, 0, 0) == ind(g[0][1]) + ind(g[1][0]) + ind(g[1][1]),
{
    assert(g[0].len() == width);
    assert(g[1].len() == width);
    assert(!alive(g, -1, -1));
    assert(!alive(g, -1, 0));
    assert(!alive(g, -1, 1));
    assert(!alive(g, 0, -1));
    assert(!alive(g, 1, -1));
}

/// A grid with no live cell at all stays that way: the rule maps every cell
/// of an empty grid to dead.
pub proof fn lemma_empty_grid_stays_empty(g: Seq<Seq<bool>>, width: int, height: int)
    requires
        grid_wf(g, width, height),
        forall|i: int, j: int| 0 <= i < height && 0 <= j < width ==> !(#[trigger] g[i][j]),
    ensures
        forall|i: int, j: int| 0 <= i < height && 0 <= j < width ==> !step_cell(g, i, j),
{
    assert forall|a: int, b: int| !alive(g, a, b) by {
        if 0 <= a < height && 0 <= b < g[a].len() {
            assert(g[a].len() == width);
            assert(!g[a][b]);
        }
    }
    assert forall|i: int, j: int| 0 <= i < height && 0 <= j < width implies !step_cell(g, i, j) by {
        assert(neighbor_count(g, i, j) == 0);
        assert(!g[i][j]);
    }
}

/// A live cell with no live neighbor dies after one step, wherever it sits.
pub proof fn lemma_isolated_cell_dies(g: Seq<Seq<bool>>, width: int, height: int, i: int, j: int)
    requires
        grid_wf(g, width, height),
        0 <= i < height,
        0 <= j < width,
        g[i][j],
        neighbor_count(g, i, j) == 0,
    ensures
        !step_cell(g, i, j),
{
}

/// Rendering a grid of `height` rows and `width` columns yields exactly
/// `height` newline-terminated lines of `width` glyphs each — no glyph is a
/// newline — followed by one final newline, i.e. one trailing blank line.
pub proof fn lemma_render_shape(g: Seq<Seq<bool>>, width: int, height: int)
    requires
        grid_wf(g, width, height),
    ensures
        render_spec(g).len() == height * (width + 1) + 1,
        forall|i: int, j: int|
            0 <= i < height && 0 <= j < width ==> render_spec(g)[#[trigger] render_pos(
                width,
                i,
                j,
            )] == glyph(g[i][j]),
        forall|b: bool| #[trigger] glyph(b) != '\n',
        forall|i: int|
            0 <= i < height ==> render_spec(g)[#[trigger] render_pos(width, i, width)] == '\n',
        render_spec(g)[height * (width + 1)] == '\n',
{
    lemma_render_rows_shape(g, width, height, height);
    assert forall|i: int, j: int|
        0 <= i < height && 0 <= j <= width implies render_spec(g)[#[trigger] render_pos(
        width,
        i,
        j,
    )] == render_row(g[i])[j] by {
        assert(render_pos(width, i, j) < height * (width + 1)) by (nonlinear_arith)
            requires
                i <= height - 1,
                0 <= j <= width,
                0 <= i,
                width >= 1,
        ;
        assert(render_rows(g, height)[render_pos(width, i, j)] == render_row(g[i])[j]);
    }
    assert forall|i: int, j: int|
        0 <= i < height && 0 <= j < width implies render_spec(g)[#[trigger] render_pos(
        width,
        i,
        j,
    )] == glyph(g[i][j]) by {
        assert(g[i].len() == width);
        assert(render_row(g[i])[j] == glyph(g[i][j]));
    }
    assert forall|b: bool| #[trigger] glyph(b) != '\n' by {
        if b {
            assert(glyph(b) == '#');
        } else {
            assert(glyph(b) == '.');
        }
    }
    assert forall|i: int| 0 <= i < height implies render_spec(g)[#[trigger] render_pos(
        width,
        i,
        width,
    )] == '\n' by {
        assert(g[i].len() == width);
        assert(render_row(g[i])[width] == '\n');
    }
}

/// The first `n` rendered rows occupy `n * (width + 1)` characters, and the
/// character at offset `j` within chunk `i` is that of row `i`.
proof fn lemma_render_rows_shape(g: Seq<Seq<bool>>, width: int, height: int, n: int)
    requires
        grid_wf(g, width, height),
        0 <= n <= height,
    ensures
        render_rows(g, n).len() == n * (width + 1),
        forall|i: int, j: int|
            0 <= i < n && 0 <= j <= width ==> render_rows(g, n)[#[trigger] render_pos(
                width,
                i,
                j,
            )] == render_row(g[i])[j],
    decreases n,
{
    if n == 0 {
        assert(render_rows(g, 0).len() == 0);
    } else {
        lemma_render_rows_shape(g, width, height, n - 1);
        assert(g[n - 1].len() == width);
        assert(render_rows(g, n) == render_rows(g, n - 1) + render_row(g[n - 1]));
        assert((n - 1) * (width + 1) + (width + 1) == n * (width + 1)) by (nonlinear_arith);
        assert forall|i: int, j: int|
            0 <= i < n && 0 <= j <= width implies render_rows(g, n)[#[trigger] render_pos(
            width,
            i,
            j,
        )] == render_row(g[i])[j] by {
            if i < n - 1 {
                assert(render_pos(width, i, j) < (n - 1) * (width + 1)) by (nonlinear_arith)
                    requires
                        i <= n - 2,
                        0 <= j <= width,
                        0 <= i,
                        width >= 1,
                ;
                assert(render_rows(g, n)[render_pos(width, i, j)] == render_rows(g, n - 1)[
                    render_pos(width, i, j)]);
            } else {
                assert(i == n - 1);
                assert(render_pos(width, i, j) == render_rows(g, n - 1).len() + j);
                assert(render_rows(g, n)[render_pos(width, i, j)] == render_row(g[n - 1])[j]);
            }
        }
    }
}

} // verus!
