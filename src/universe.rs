//! The universe: its dimensions, its packed cells, and the operations that
//! read and change them.
use crate::bitset::{
    bits_of, block_bit, blocks_of, copy_bits, get_bit, new_clear, push_char, set_bit,
};
use crate::life::{
    all_dead, as_count, cell_at, coords_in_grid, default_seed, index_of, is_named,
    lemma_index_in_grid, lemma_index_row_col, lemma_wrap_bounds, live_neighbors, mark_alive,
    next_generation, rendered, row_prefix, toggled, valid_dims, with_spaceship, Grid,
};
use fixedbitset::FixedBitSet;
use vstd::prelude::*;

verus! {

/// Why an operation on a universe was refused.
#[derive(Debug, Clone, Copy, PartialEq, Eq, Structural)]
pub enum UniverseError {
    /// A row or column lies outside the grid.
    InvalidCoordinate,
    /// A width or height of zero.
    DegenerateGrid,
}

/// A Game of Life grid that wraps at all four edges.
pub struct Universe {
    width: u32,
    height: u32,
    cells: FixedBitSet,
}

impl View for Universe {
    type V = Grid;

    closed spec fn view(&self) -> Grid {
        Grid { width: self.width as nat, height: self.height as nat, cells: bits_of(self.cells) }
    }
}

/// Makes alive the nine cells of a lightweight spaceship whose corner is at
/// column `x_pos`, row `y_pos`.
fn generate_spaceship(cells: &mut FixedBitSet, x_pos: u32, y_pos: u32, canvas_width: u32)
    requires
        (y_pos * canvas_width + x_pos) + 4 + 3 * canvas_width < bits_of(*old(cells)).len(),
        (y_pos * canvas_width + x_pos) + 4 + 3 * canvas_width <= u32::MAX,
    ensures
        bits_of(*final(cells)) == with_spaceship(
            bits_of(*old(cells)),
            x_pos as int,
            y_pos as int,
            canvas_width as int,
        ),
{
    let ghost before = bits_of(*cells);
    let offset: usize = ((y_pos * canvas_width) + x_pos) as usize;
    let width: usize = canvas_width as usize;
    set_bit(cells, offset, true);
    set_bit(cells, offset + 1, true);
    set_bit(cells, offset + 2, true);
    set_bit(cells, offset + 3, true);
    set_bit(cells, offset + width, true);
    set_bit(cells, offset + 2 * width, true);
    set_bit(cells, offset + 1 + 3 * width, true);
    set_bit(cells, offset + 4 + width, true);
    set_bit(cells, offset + 4 + 3 * width, true);
    assert(bits_of(*cells) =~= with_spaceship(before, x_pos as int, y_pos as int, canvas_width as int));
}

impl Universe {
    /// A 128 by 128 universe seeded with two lightweight spaceships, at
    /// (column 30, row 30) and (column 24, row 14).
    pub fn new() -> (r: Universe)
        ensures
            r.wf(),
            r@.width == 128,
            r@.height == 128,
            r@.cells == default_seed(),
    {
        let width: u32 = 128;
        let height: u32 = 128;
        let size: usize = (width * height) as usize;
        let mut cells = new_clear(size);
        generate_spaceship(&mut cells, 30, 30, width);
        generate_spaceship(&mut cells, 24, 14, width);
        Universe { width, height, cells }
    }

    /// A universe of the given size with every cell dead; a zero dimension is
    /// refused.
    pub fn with_size(width: u32, height: u32) -> (r: Result<Universe, UniverseError>)
        requires
            width * height <= u32::MAX,
        ensures
            (width == 0 || height == 0) <==> r is Err,
            r matches Err(e) ==> e == UniverseError::DegenerateGrid,
            r matches Ok(u) ==> u.wf() && u@ == (Grid {
                width: width as nat,
                height: height as nat,
                cells: all_dead(width as int, height as int),
            }),
    {
        if width == 0 || height == 0 {
            return Err(UniverseError::DegenerateGrid);
        }
        let cells = new_clear((width * height) as usize);
        Ok(Universe { width, height, cells })
    }

    pub fn width(&self) -> (r: u32)
        ensures
            r == self@.width,
    {
        self.width
    }

    pub fn height(&self) -> (r: u32)
        ensures
            r == self@.height,
    {
        self.height
    }

    /// The cells packed into 32-bit blocks, for a host that reads them
    /// directly: cell `i` (row-major) is bit `i % 32` of block `i / 32`.
    pub fn cells(&self) -> (r: &[u32])
        ensures
            r@.len() == (self@.cells.len() + 31) / 32,
            forall|i: int| 0 <= i < self@.cells.len() ==> #[trigger] block_bit(r@, i) == self@.cells[i],
    {
        blocks_of(&self.cells)
    }

    /// The grid as text: one glyph per cell, each row ended by a line break.
    pub fn render(&self) -> (r: String)
        requires
            self.wf(),
        ensures
            r@ == rendered(self@.cells, self@.width as int, self@.height as int),
    {
        let ghost s = self@.cells;
        let ghost w = self@.width as int;
        let mut out = String::new();
        let mut row: u32 = 0;
        while row < self.height
            invariant
                self.wf(),
                s == self@.cells,
                w == self@.width,
                0 <= row <= self@.height,
                out@ == rendered(s, w, row as int),
            decreases self@.height - row,
        {
            let mut col: u32 = 0;
            while col < self.width
                invariant
                    self.wf(),
                    s == self@.cells,
                    w == self@.width,
                    0 <= row < self@.height,
                    0 <= col <= w,
                    out@ == rendered(s, w, row as int) + row_prefix(s, w, row as int, col as int),
                decreases w - col,
            {
                let idx: usize = self.get_index(row, col);
                let symbol = if get_bit(&self.cells, idx) {
                    '\u{25fc}'
                } else {
                    '\u{25fb}'
                };
                push_char(&mut out, symbol);
                assert(row_prefix(s, w, row as int, col + 1) =~= row_prefix(s, w, row as int, col as int).push(symbol));
                col += 1;
            }
            push_char(&mut out, '\n');
            row += 1;
        }
        out
    }

    /// The cells as a bit set, bit `row * width + column` for each cell.
    pub fn get_cells(&self) -> (r: &FixedBitSet)
        ensures
            bits_of(*r) == self@.cells,
    {
        &self.cells
    }

    /// Sets the width and clears every cell; a zero width is refused and
    /// leaves the universe as it was.
    pub fn set_width(&mut self, width: u32) -> (r: Result<(), UniverseError>)
        requires
            old(self).wf(),
            width * old(self)@.height <= u32::MAX,
        ensures
            final(self).wf(),
            width == 0 <==> r is Err,
            r matches Err(e) ==> e == UniverseError::DegenerateGrid && final(self)@ == old(self)@,
            r is Ok ==> final(self)@ == (Grid {
                width: width as nat,
                height: old(self)@.height,
                cells: all_dead(width as int, old(self)@.height as int),
            }),
    {
        if width == 0 {
            return Err(UniverseError::DegenerateGrid);
        }
        self.width = width;
        self.cells = new_clear((width * self.height) as usize);
        Ok(())
    }

    /// Sets the height and clears every cell; a zero height is refused and
    /// leaves the universe as it was.
    pub fn set_height(&mut self, height: u32) -> (r: Result<(), UniverseError>)
        requires
            old(self).wf(),
            old(self)@.width * height <= u32::MAX,
        ensures
            final(self).wf(),
            height == 0 <==> r is Err,
            r matches Err(e) ==> e == UniverseError::DegenerateGrid && final(self)@ == old(self)@,
            r is Ok ==> final(self)@ == (Grid {
                width: old(self)@.width,
                height: height as nat,
                cells: all_dead(old(self)@.width as int, height as int),
            }),
    {
        if height == 0 {
            return Err(UniverseError::DegenerateGrid);
        }
        self.height = height;
        self.cells = new_clear((self.width * height) as usize);
        Ok(())
    }

    /// Flips the cell at (`row`, `column`); a cell outside the grid is refused
    /// and nothing changes.
    pub fn toggle_cell(&mut self, row: u32, column: u32) -> (r: Result<(), UniverseError>)
        requires
            old(self).wf(),
        ensures
            final(self).wf(),
            final(self)@.width == old(self)@.width,
            final(self)@.height == old(self)@.height,
            (row < old(self)@.height && column < old(self)@.width) <==> r is Ok,
            r matches Err(e) ==> e == UniverseError::InvalidCoordinate && final(self)@ == old(self)@,
            r is Ok ==> final(self)@.cells == toggled(
                old(self)@.cells,
                old(self)@.width as int,
                row as int,
                column as int,
            ),
    {
        if row >= self.height || column >= self.width {
            return Err(UniverseError::InvalidCoordinate);
        }
        let idx: usize = self.get_index(row, column);
        let alive = get_bit(&self.cells, idx);
        set_bit(&mut self.cells, idx, !alive);
        Ok(())
    }

    /// Makes alive every cell named by a (row, column) pair and leaves the
    /// others as they were. If any pair lies outside the grid, nothing changes.
    pub fn set_cells(&mut self, cells: &[(u32, u32)]) -> (r: Result<(), UniverseError>)
        requires
            old(self).wf(),
        ensures
            final(self).wf(),
            final(self)@.width == old(self)@.width,
            final(self)@.height == old(self)@.height,
            coords_in_grid(cells@, old(self)@.width as int, old(self)@.height as int) <==> r is Ok,
            r matches Err(e) ==> e == UniverseError::InvalidCoordinate && final(self)@ == old(self)@,
            r is Ok ==> final(self)@.cells == mark_alive(
                old(self)@.cells,
                old(self)@.width as int,
                cells@,
            ),
    {
        let mut k: usize = 0;
        while k < cells.len()
            invariant
                self.wf(),
                self@ == old(self)@,
                0 <= k <= cells@.len(),
                forall|j: int| 0 <= j < k ==> (#[trigger] cells@[j]).0 < self@.height && cells@[j].1 < self@.width,
            decreases cells@.len() - k,
        {
            let (row, col) = cells[k];
            if row >= self.height || col >= self.width {
                return Err(UniverseError::InvalidCoordinate);
            }
            k += 1;
        }
        let ghost w = self@.width as int;
        let ghost before = self@.cells;
        let mut k: usize = 0;
        while k < cells.len()
            invariant
                self.wf(),
                w == self@.width,
                self@.height == old(self)@.height,
                before.len() == self@.cells.len(),
                coords_in_grid(cells@, w, self@.height as int),
                0 <= k <= cells@.len(),
                self@.cells =~= mark_alive(before, w, cells@.take(k as int)),
            decreases cells@.len() - k,
        {
            let (row, col) = cells[k];
            let idx: usize = self.get_index(row, col);
            set_bit(&mut self.cells, idx, true);
            proof {
                let named = cells@.take(k as int + 1);
                assert forall|i: int| 0 <= i < before.len() implies is_named(named, w, i) == (
                is_named(cells@.take(k as int), w, i) || i == idx) by {
                    if is_named(cells@.take(k as int), w, i) {
                        let j = choose|j: int| 0 <= j < k && index_of(w, (#[trigger] cells@.take(k as int)[j]).0 as int, cells@.take(k as int)[j].1 as int) == i;
                        assert(named[j] == cells@.take(k as int)[j]);
                    }
                    if i == idx {
                        assert(named[k as int] == cells@[k as int]);
                    }
                }
            }
            k += 1;
        }
        proof {
            assert(cells@.take(cells@.len() as int) =~= cells@);
        }
        Ok(())
    }
    /// The dimensions are valid and there is exactly one bit per cell.
    pub open spec fn wf(&self) -> bool {
        &&& valid_dims(self@.width as int, self@.height as int)
        &&& self@.cells.len() == self@.width * self@.height
    }

    fn get_index(&self, row: u32, column: u32) -> (r: usize)
        requires
            self.wf(),
            row < self@.height,
            column < self@.width,
        ensures
            r == index_of(self@.width as int, row as int, column as int),
            r < self@.cells.len(),
    {
        proof {
            lemma_index_in_grid(self.width as int, self.height as int, row as int, column as int);
        }
        (row * self.width + column) as usize
    }

    /// One if the cell is alive, zero if not.
    fn alive_count_at(&self, row: u32, column: u32) -> (r: u8)
        requires
            self.wf(),
            row < self@.height,
            column < self@.width,
        ensures
            r == as_count(cell_at(self@.cells, self@.width as int, row as int, column as int)),
    {
        let idx: usize = self.get_index(row, column);
        if get_bit(&self.cells, idx) {
            1
        } else {
            0
        }
    }

    fn live_neighbor_count(&self, row: u32, column: u32) -> (r: u8)
        requires
            self.wf(),
            row < self@.height,
            column < self@.width,
        ensures
            r == live_neighbors(self@.cells, self@.width as int, self@.height as int, row as int, column as int),
    {
        let north: u32 = if row == 0 {
            self.height - 1
        } else {
            row - 1
        };
        let south: u32 = if row == self.height - 1 {
            0
        } else {
            row + 1
        };
        let west: u32 = if column == 0 {
            self.width - 1
        } else {
            column - 1
        };
        let east: u32 = if column == self.width - 1 {
            0
        } else {
            column + 1
        };

        proof {
            lemma_wrap_bounds(row as int, self.height as int);
            lemma_wrap_bounds(column as int, self.width as int);
        }
        let nw: u8 = self.alive_count_at(north, west);
        let n: u8 = self.alive_count_at(north, column);
        let ne: u8 = self.alive_count_at(north, east);
        let w: u8 = self.alive_count_at(row, west);
        let e: u8 = self.alive_count_at(row, east);
        let sw: u8 = self.alive_count_at(south, west);
        let s: u8 = self.alive_count_at(south, column);
        let se: u8 = self.alive_count_at(south, east);
        nw + n + ne + w + e + sw + s + se
    }

    /// Advances the universe by one generation. Every cell's next state is
    /// computed from the current generation into a separate buffer, which
    /// then replaces the cells.
    pub fn tick(&mut self)
        requires
            old(self).wf(),
        ensures
            final(self).wf(),
            final(self)@.width == old(self)@.width,
            final(self)@.height == old(self)@.height,
            final(self)@.cells == next_generation(
                old(self)@.cells,
                old(self)@.width as int,
                old(self)@.height as int,
            ),
    {
        let ghost w = self@.width as int;
        let ghost h = self@.height as int;
        let ghost target = next_generation(self@.cells, w, h);
        let mut next = copy_bits(&self.cells);
        let mut row: u32 = 0;
        while row < self.height
            invariant
                self.wf(),
                w == self@.width,
                h == self@.height,
                target == next_generation(self@.cells, w, h),
                bits_of(next).len() == w * h,
                0 <= row <= h,
                forall|i: int| 0 <= i < row * w ==> #[trigger] bits_of(next)[i] == target[i],
            decreases h - row,
        {
            let mut col: u32 = 0;
            while col < self.width
                invariant
                    self.wf(),
                    w == self@.width,
                    h == self@.height,
                    target == next_generation(self@.cells, w, h),
                    bits_of(next).len() == w * h,
                    0 <= row < h,
                    0 <= col <= w,
                    forall|i: int| 0 <= i < row * w + col ==> #[trigger] bits_of(next)[i] == target[i],
                decreases w - col,
            {
                let idx: usize = self.get_index(row, col);
                let cell = get_bit(&self.cells, idx);
                let neighbors: u8 = self.live_neighbor_count(row, col);
                let alive = match (cell, neighbors) {
                    (true, x) if x < 2 => false,
                    (true, 2) | (true, 3) => true,
                    (true, x) if x > 3 => false,
                    (false, 3) => true,
                    (otherwise, _) => otherwise,
                };
                proof {
                    lemma_index_row_col(w, row as int, col as int);
                }
                set_bit(&mut next, idx, alive);
                col += 1;
            }
            proof {
                assert((row + 1) * w == row * w + w) by (nonlinear_arith);
            }
            row += 1;
        }
        self.cells = next;
        proof {
            assert(h * w == w * h) by (nonlinear_arith);
            assert(bits_of(self.cells) =~= target);
        }
    }
}

} // verus!
