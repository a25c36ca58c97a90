//! The mathematical model of a generation: cells in row-major order on a
//! torus, the Moore neighbourhood and the birth/survival rule.
use vstd::prelude::*;

verus! {

/// What a universe is, abstractly: its dimensions and one boolean per cell,
/// row by row.
pub struct Grid {
    pub width: nat,
    pub height: nat,
    pub cells: Seq<bool>,
}

/// Dimensions that a universe accepts: both at least one, and every cell
/// index representable as a `u32`.
pub open spec fn valid_dims(width: int, height: int) -> bool {
    1 <= width && 1 <= height && width * height <= u32::MAX
}

/// The position of cell (`row`, `col`) in a row-major sequence.
pub open spec fn index_of(width: int, row: int, col: int) -> int {
    row * width + col
}

pub open spec fn cell_at(s: Seq<bool>, width: int, row: int, col: int) -> bool {
    s[index_of(width, row, col)]
}

/// The coordinate before `x` on a cycle of length `n`.
pub open spec fn wrap_prev(x: int, n: int) -> int {
    if x == 0 {
        n - 1
    } else {
        x - 1
    }
}

/// The coordinate after `x` on a cycle of length `n`.
pub open spec fn wrap_next(x: int, n: int) -> int {
    if x == n - 1 {
        0
    } else {
        x + 1
    }
}

pub open spec fn as_count(b: bool) -> nat {
    if b {
        1
    } else {
        0
    }
}

/// How many of the eight toroidally wrapped neighbours of (`row`, `col`) are
/// alive.
pub open spec fn live_neighbors(s: Seq<bool>, width: int, height: int, row: int, col: int) -> nat {
    let n = wrap_prev(row, height);
    let so = wrap_next(row, height);
    let w = wrap_prev(col, width);
    let e = wrap_next(col, width);
    as_count(cell_at(s, width, n, w)) + as_count(cell_at(s, width, n, col))
        + as_count(cell_at(s, width, n, e)) + as_count(cell_at(s, width, row, w))
        + as_count(cell_at(s, width, row, e)) + as_count(cell_at(s, width, so, w))
        + as_count(cell_at(s, width, so, col)) + as_count(cell_at(s, width, so, e))
}

/// The rule: a live cell stays alive with two or three live neighbours, a dead
/// one comes alive with exactly three; every other cell is dead next.
pub open spec fn next_state(alive: bool, neighbors: nat) -> bool {
    if alive {
        neighbors == 2 || neighbors == 3
    } else {
        neighbors == 3
    }
}

/// The generation after `s`, each cell decided from `s` alone.
pub open spec fn next_generation(s: Seq<bool>, width: int, height: int) -> Seq<bool> {
    Seq::new(
        s.len(),
        |i: int| next_state(s[i], live_neighbors(s, width, height, i / width, i % width)),
    )
}

/// A grid of the given size with every cell dead.
pub open spec fn all_dead(width: int, height: int) -> Seq<bool> {
    Seq::new((width * height) as nat, |i: int| false)
}

/// `s` with cell (`row`, `col`) flipped.
pub open spec fn toggled(s: Seq<bool>, width: int, row: int, col: int) -> Seq<bool> {
    s.update(index_of(width, row, col), !cell_at(s, width, row, col))
}

/// Every pair names a cell inside a `width` by `height` grid.
pub open spec fn coords_in_grid(pairs: Seq<(u32, u32)>, width: int, height: int) -> bool {
    forall|k: int| 0 <= k < pairs.len() ==> (#[trigger] pairs[k]).0 < height && pairs[k].1 < width
}

/// Cell `i` is one of those that `pairs` names as (row, column).
pub open spec fn is_named(pairs: Seq<(u32, u32)>, width: int, i: int) -> bool {
    exists|k: int| 0 <= k < pairs.len() && index_of(width, (#[trigger] pairs[k]).0 as int, pairs[k].1 as int) == i
}

/// `s` with every cell that `pairs` names made alive, the others as they were.
pub open spec fn mark_alive(s: Seq<bool>, width: int, pairs: Seq<(u32, u32)>) -> Seq<bool> {
    Seq::new(s.len(), |i: int| s[i] || is_named(pairs, width, i))
}

/// Cell `i` belongs to the nine-cell lightweight spaceship whose corner is at
/// column `x`, row `y` of a grid `width` cells wide.
pub open spec fn in_spaceship(i: int, x: int, y: int, width: int) -> bool {
    let o = y * width + x;
    ||| i == o
    ||| i == o + 1
    ||| i == o + 2
    ||| i == o + 3
    ||| i == o + width
    ||| i == o + 2 * width
    ||| i == o + 1 + 3 * width
    ||| i == o + 4 + width
    ||| i == o + 4 + 3 * width
}

/// `s` with the spaceship at (`x`, `y`) made alive, the other cells as they were.
pub open spec fn with_spaceship(s: Seq<bool>, x: int, y: int, width: int) -> Seq<bool> {
    Seq::new(s.len(), |i: int| s[i] || in_spaceship(i, x, y, width))
}

/// The seed pattern of a default universe: two spaceships on a 128 by 128 grid.
pub open spec fn default_seed() -> Seq<bool> {
    with_spaceship(with_spaceship(all_dead(128, 128), 30, 30, 128), 24, 14, 128)
}

/// The glyph that shows a cell: a filled square when alive, a hollow one
/// when dead.
pub open spec fn glyph(alive: bool) -> char {
    if alive {
        '\u{25fc}'
    } else {
        '\u{25fb}'
    }
}

/// The first `cols` glyphs of row `row`.
pub open spec fn row_prefix(s: Seq<bool>, width: int, row: int, cols: int) -> Seq<char> {
    Seq::new(cols as nat, |c: int| glyph(cell_at(s, width, row, c)))
}

/// The first `rows` rows as text, each row's glyphs followed by a line break.
pub open spec fn rendered(s: Seq<bool>, width: int, rows: int) -> Seq<char>
    decreases rows,
{
    if rows <= 0 {
        Seq::empty()
    } else {
        rendered(s, width, rows - 1) + row_prefix(s, width, rows - 1, width) + seq!['\n']
    }
}

/// Both neighbours of a coordinate on a cycle lie on the cycle.
pub proof fn lemma_wrap_bounds(x: int, n: int)
    requires
        0 <= x < n,
    ensures
        0 <= wrap_prev(x, n) < n,
        0 <= wrap_next(x, n) < n,
{
}

/// A cell index lies in the grid when its row and column do.
pub proof fn lemma_index_in_grid(width: int, height: int, row: int, col: int)
    requires
        0 <= row < height,
        0 <= col < width,
    ensures
        0 <= index_of(width, row, col) < width * height,
{
    assert(0 <= row * width + col < width * height) by (nonlinear_arith)
        requires
            0 <= row < height,
            0 <= col < width,
    ;
}

/// The row and column of a cell index, and the index back from them.
pub proof fn lemma_row_col_of(width: int, height: int, i: int)
    requires
        1 <= width,
        0 <= i < width * height,
    ensures
        0 <= i / width < height,
        0 <= i % width < width,
        index_of(width, i / width, i % width) == i,
{
    vstd::arithmetic::div_mod::lemma_fundamental_div_mod(i, width);
    vstd::arithmetic::div_mod::lemma_mod_pos_bound(i, width);
    let q = i / width;
    let r = i % width;
    vstd::arithmetic::mul::lemma_mul_is_commutative(width, q);
    assert(0 <= q < height) by (nonlinear_arith)
        requires
            i == width * q + r,
            0 <= r < width,
            0 <= i < width * height,
            1 <= width,
    ;
}

/// The index of (`row`, `col`) gives back that row and column.
pub proof fn lemma_index_row_col(width: int, row: int, col: int)
    requires
        1 <= width,
        0 <= col < width,
    ensures
        index_of(width, row, col) / width == row,
        index_of(width, row, col) % width == col,
{
    vstd::arithmetic::div_mod::lemma_fundamental_div_mod_converse_div(
        row * width + col,
        width,
        row,
        col,
    );
    vstd::arithmetic::div_mod::lemma_fundamental_div_mod_converse_mod(
        row * width + col,
        width,
        row,
        col,
    );
}

} // verus!
