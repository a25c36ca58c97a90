//! Properties of the model that hold for every grid, proved once.
use crate::life::{
    as_count, cell_at, coords_in_grid, index_of, is_named, lemma_index_in_grid, lemma_row_col_of,
    lemma_wrap_bounds, live_neighbors, mark_alive, next_generation, toggled, wrap_next, wrap_prev,
};
use vstd::prelude::*;

verus! {

/// `k` generations after `s`.
pub open spec fn generations(s: Seq<bool>, width: int, height: int, k: nat) -> Seq<bool>
    decreases k,
{
    if k == 0 {
        s
    } else {
        next_generation(generations(s, width, height, (k - 1) as nat), width, height)
    }
}

/// Toggling the same cell twice gives back the original cells.
pub proof fn lemma_toggle_twice(s: Seq<bool>, width: int, height: int, row: int, col: int)
    requires
        s.len() == width * height,
        0 <= row < height,
        0 <= col < width,
    ensures
        toggled(toggled(s, width, row, col), width, row, col) == s,
{
    lemma_index_in_grid(width, height, row, col);
    assert(toggled(toggled(s, width, row, col), width, row, col) =~= s);
}

/// After cells are set alive, every named cell is alive and every other cell
/// keeps its earlier state.
pub proof fn lemma_set_cells_monotone(
    s: Seq<bool>,
    width: int,
    height: int,
    pairs: Seq<(u32, u32)>,
)
    requires
        1 <= width,
        s.len() == width * height,
        coords_in_grid(pairs, width, height),
    ensures
        mark_alive(s, width, pairs).len() == s.len(),
        forall|k: int|
            0 <= k < pairs.len() ==> cell_at(
                mark_alive(s, width, pairs),
                width,
                (#[trigger] pairs[k]).0 as int,
                pairs[k].1 as int,
            ),
        forall|i: int|
            0 <= i < s.len() && !is_named(pairs, width, i) ==> #[trigger] mark_alive(
                s,
                width,
                pairs,
            )[i] == s[i],
{
    assert forall|k: int| 0 <= k < pairs.len() implies cell_at(
        mark_alive(s, width, pairs),
        width,
        (#[trigger] pairs[k]).0 as int,
        pairs[k].1 as int,
    ) by {
        lemma_index_in_grid(width, height, pairs[k].0 as int, pairs[k].1 as int);
        assert(is_named(pairs, width, index_of(width, pairs[k].0 as int, pairs[k].1 as int)));
    }
}

/// The next generation depends on the current cells and dimensions alone:
/// equal grids step to equal grids.
pub proof fn lemma_tick_deterministic(
    s1: Seq<bool>,
    s2: Seq<bool>,
    width: int,
    height: int,
)
    requires
        s1 == s2,
    ensures
        next_generation(s1, width, height) == next_generation(s2, width, height),
{
}

/// The edges wrap: the cell in the last row and last column is the
/// north-west neighbour of the cell at (0, 0), so it is counted when alive.
pub proof fn lemma_corner_wraps(s: Seq<bool>, width: int, height: int)
    requires
        1 <= width,
        1 <= height,
        s.len() == width * height,
    ensures
        wrap_prev(0, height) == height - 1,
        wrap_prev(0, width) == width - 1,
        live_neighbors(s, width, height, 0, 0) >= as_count(
            cell_at(s, width, height - 1, width - 1),
        ),
{
}

/// An empty grid stays empty for any number of generations.
pub proof fn lemma_empty_stays_empty(s: Seq<bool>, width: int, height: int, k: nat)
    requires
        1 <= width,
        s.len() == width * height,
        forall|i: int| 0 <= i < s.len() ==> !#[trigger] s[i],
    ensures
        generations(s, width, height, k).len() == s.len(),
        forall|i: int| 0 <= i < s.len() ==> !#[trigger] generations(s, width, height, k)[i],
    decreases k,
{
    if k > 0 {
        lemma_empty_stays_empty(s, width, height, (k - 1) as nat);
        let prev = generations(s, width, height, (k - 1) as nat);
        assert forall|i: int| 0 <= i < s.len() implies !#[trigger] next_generation(
            prev,
            width,
            height,
        )[i] by {
            lemma_all_dead_neighbors(prev, width, height, i);
        }
    }
}

/// Whether (`row`, `col`) is one of the four cells of the 2 by 2 block whose
/// top-left cell is (`top`, `left`).
pub open spec fn in_block(row: int, col: int, top: int, left: int) -> bool {
    (row == top || row == top + 1) && (col == left || col == left + 1)
}

/// A 2 by 2 block alone on a grid of at least 4 by 4 is a still life: the
/// next generation equals it.
pub proof fn lemma_block_still_life(s: Seq<bool>, width: int, height: int, top: int, left: int)
    requires
        4 <= width,
        4 <= height,
        0 <= top && top + 1 < height,
        0 <= left && left + 1 < width,
        s.len() == width * height,
        forall|r: int, c: int|
            0 <= r < height && 0 <= c < width ==> #[trigger] cell_at(s, width, r, c) == in_block(
                r,
                c,
                top,
                left,
            ),
    ensures
        next_generation(s, width, height) == s,
{
    assert forall|i: int| 0 <= i < s.len() implies #[trigger] next_generation(s, width, height)[i]
        == s[i] by {
        lemma_row_col_of(width, height, i);
        let r = i / width;
        let c = i % width;
        lemma_wrap_bounds(r, height);
        lemma_wrap_bounds(c, width);
        assert(s[i] == cell_at(s, width, r, c));
    }
    assert(next_generation(s, width, height) =~= s);
}

proof fn lemma_all_dead_neighbors(s: Seq<bool>, width: int, height: int, i: int)
    requires
        1 <= width,
        s.len() == width * height,
        0 <= i < s.len(),
        forall|j: int| 0 <= j < s.len() ==> !#[trigger] s[j],
    ensures
        live_neighbors(s, width, height, i / width, i % width) == 0,
{
    lemma_row_col_of(width, height, i);
    let r = i / width;
    let c = i % width;
    lemma_wrap_bounds(r, height);
    lemma_wrap_bounds(c, width);
    let rs = seq![wrap_prev(r, height), r, wrap_next(r, height)];
    let cs = seq![wrap_prev(c, width), c, wrap_next(c, width)];
    assert forall|a: int, b: int| 0 <= a < 3 && 0 <= b < 3 implies !cell_at(s, width, rs[a], cs[b]) by {
        lemma_index_in_grid(width, height, rs[a], cs[b]);
    }
    assert(!cell_at(s, width, rs[0], cs[0]));
    assert(!cell_at(s, width, rs[0], cs[1]));
    assert(!cell_at(s, width, rs[0], cs[2]));
    assert(!cell_at(s, width, rs[1], cs[0]));
    assert(!cell_at(s, width, rs[1], cs[2]));
    assert(!cell_at(s, width, rs[2], cs[0]));
    assert(!cell_at(s, width, rs[2], cs[1]));
    assert(!cell_at(s, width, rs[2], cs[2]));
}

} // verus!
