use wasm_game_of_life::universe::{Universe, UniverseError};

fn alive(u: &Universe, row: u32, col: u32) -> bool {
    u.get_cells().contains((row * u.width() + col) as usize)
}

fn live_cells(u: &Universe) -> Vec<(u32, u32)> {
    let mut out = Vec::new();
    for row in 0..u.height() {
        for col in 0..u.width() {
            if alive(u, row, col) {
                out.push((row, col));
            }
        }
    }
    out
}

fn snapshot(u: &Universe) -> Vec<bool> {
    (0..(u.width() * u.height()) as usize)
        .map(|i| u.get_cells().contains(i))
        .collect()
}

#[test]
fn block_on_four_by_four_is_still() {
    let mut u = Universe::with_size(4, 4).unwrap();
    u.set_cells(&[(1, 1), (1, 2), (2, 1), (2, 2)]).unwrap();
    u.tick();
    assert_eq!(live_cells(&u), vec![(1, 1), (1, 2), (2, 1), (2, 2)]);
}

#[test]
fn block_off_centre_is_still() {
    let mut u = Universe::with_size(7, 6).unwrap();
    u.set_cells(&[(3, 4), (3, 5), (4, 4), (4, 5)]).unwrap();
    u.tick();
    u.tick();
    assert_eq!(live_cells(&u), vec![(3, 4), (3, 5), (4, 4), (4, 5)]);
}

fn glider_moves_by_one_diagonal(width: u32, height: u32) {
    let glider = [(0u32, 1u32), (1, 2), (2, 0), (2, 1), (2, 2)];
    let mut u = Universe::with_size(width, height).unwrap();
    u.set_cells(&glider).unwrap();
    for _ in 0..4 {
        u.tick();
    }
    let mut expected: Vec<(u32, u32)> = glider.iter().map(|&(r, c)| (r + 1, c + 1)).collect();
    expected.sort();
    assert_eq!(live_cells(&u), expected);
}

#[test]
fn glider_translates_after_four_ticks() {
    glider_moves_by_one_diagonal(8, 8);
    glider_moves_by_one_diagonal(20, 12);
}

#[test]
fn glider_wraps_around_the_edges() {
    let mut u = Universe::with_size(6, 6).unwrap();
    u.set_cells(&[(3, 4), (4, 5), (5, 3), (5, 4), (5, 5)]).unwrap();
    for _ in 0..4 {
        u.tick();
    }
    assert_eq!(live_cells(&u), vec![(0, 0), (0, 4), (0, 5), (4, 5), (5, 0)]);
}

#[test]
fn empty_grid_stays_empty() {
    for (w, h) in [(1u32, 1u32), (3, 5), (9, 4)] {
        let mut u = Universe::with_size(w, h).unwrap();
        for _ in 0..10 {
            u.tick();
        }
        assert!(live_cells(&u).is_empty());
    }
}

#[test]
fn corner_counts_opposite_corner() {
    let mut u = Universe::with_size(5, 5).unwrap();
    u.set_cells(&[(4, 4), (4, 0), (0, 4)]).unwrap();
    u.tick();
    assert!(alive(&u, 0, 0));
}

#[test]
fn lone_corner_cell_dies() {
    let mut u = Universe::with_size(5, 5).unwrap();
    u.set_cells(&[(4, 4)]).unwrap();
    u.tick();
    assert!(live_cells(&u).is_empty());
}

#[test]
fn blinker_oscillates() {
    let mut u = Universe::with_size(5, 5).unwrap();
    u.set_cells(&[(2, 1), (2, 2), (2, 3)]).unwrap();
    u.tick();
    assert_eq!(live_cells(&u), vec![(1, 2), (2, 2), (3, 2)]);
    u.tick();
    assert_eq!(live_cells(&u), vec![(2, 1), (2, 2), (2, 3)]);
}

#[test]
fn overcrowded_cell_dies() {
    let mut u = Universe::with_size(5, 5).unwrap();
    u.set_cells(&[(2, 2), (1, 1), (1, 2), (1, 3), (2, 1)]).unwrap();
    u.tick();
    assert!(!alive(&u, 2, 2));
    assert!(!alive(&u, 1, 2));
    assert!(alive(&u, 1, 1));
}

#[test]
fn tick_is_deterministic() {
    let mut a = Universe::new();
    let mut b = Universe::new();
    for _ in 0..5 {
        a.tick();
        b.tick();
        assert_eq!(snapshot(&a), snapshot(&b));
    }
}

#[test]
fn toggle_twice_restores_cell() {
    let mut u = Universe::with_size(4, 3).unwrap();
    u.set_cells(&[(0, 0)]).unwrap();
    let before = snapshot(&u);
    u.toggle_cell(2, 3).unwrap();
    assert!(alive(&u, 2, 3));
    assert_eq!(live_cells(&u), vec![(0, 0), (2, 3)]);
    u.toggle_cell(2, 3).unwrap();
    assert_eq!(snapshot(&u), before);
    u.toggle_cell(0, 0).unwrap();
    assert!(!alive(&u, 0, 0));
}

#[test]
fn toggle_outside_grid_is_refused() {
    let mut u = Universe::with_size(4, 3).unwrap();
    assert_eq!(u.toggle_cell(3, 0), Err(UniverseError::InvalidCoordinate));
    assert_eq!(u.toggle_cell(0, 4), Err(UniverseError::InvalidCoordinate));
    assert!(live_cells(&u).is_empty());
}

#[test]
fn set_cells_keeps_other_cells() {
    let mut u = Universe::with_size(4, 4).unwrap();
    u.toggle_cell(3, 3).unwrap();
    u.set_cells(&[(0, 1), (0, 1), (2, 2)]).unwrap();
    assert_eq!(live_cells(&u), vec![(0, 1), (2, 2), (3, 3)]);
    u.set_cells(&[(2, 2)]).unwrap();
    assert_eq!(live_cells(&u), vec![(0, 1), (2, 2), (3, 3)]);
    u.set_cells(&[]).unwrap();
    assert_eq!(live_cells(&u), vec![(0, 1), (2, 2), (3, 3)]);
}

#[test]
fn set_cells_outside_grid_changes_nothing() {
    let mut u = Universe::with_size(4, 4).unwrap();
    assert_eq!(u.set_cells(&[(1, 1), (4, 0)]), Err(UniverseError::InvalidCoordinate));
    assert_eq!(u.set_cells(&[(0, 4)]), Err(UniverseError::InvalidCoordinate));
    assert!(live_cells(&u).is_empty());
}

#[test]
fn zero_dimensions_are_refused() {
    assert!(matches!(Universe::with_size(0, 4), Err(UniverseError::DegenerateGrid)));
    assert!(matches!(Universe::with_size(4, 0), Err(UniverseError::DegenerateGrid)));
    assert!(matches!(Universe::with_size(0, 0), Err(UniverseError::DegenerateGrid)));
    let mut u = Universe::with_size(3, 3).unwrap();
    u.toggle_cell(1, 1).unwrap();
    assert_eq!(u.set_width(0), Err(UniverseError::DegenerateGrid));
    assert_eq!(u.set_height(0), Err(UniverseError::DegenerateGrid));
    assert_eq!((u.width(), u.height()), (3, 3));
    assert_eq!(live_cells(&u), vec![(1, 1)]);
}

#[test]
fn resize_reallocates_and_clears() {
    let mut u = Universe::with_size(3, 3).unwrap();
    u.set_cells(&[(0, 0), (2, 2)]).unwrap();
    u.set_width(5).unwrap();
    assert_eq!((u.width(), u.height()), (5, 3));
    assert_eq!(u.get_cells().len(), 15);
    assert!(live_cells(&u).is_empty());
    u.toggle_cell(2, 4).unwrap();
    u.set_height(7).unwrap();
    assert_eq!((u.width(), u.height()), (5, 7));
    assert_eq!(u.get_cells().len(), 35);
    assert!(live_cells(&u).is_empty());
}

#[test]
fn sized_grid_has_one_bit_per_cell() {
    let u = Universe::with_size(6, 9).unwrap();
    assert_eq!((u.width(), u.height()), (6, 9));
    assert_eq!(u.get_cells().len(), 54);
    assert_eq!(u.cells().len(), 2);
}

#[test]
fn default_universe_holds_two_spaceships() {
    let u = Universe::new();
    assert_eq!((u.width(), u.height()), (128, 128));
    assert_eq!(u.get_cells().len(), 128 * 128);
    let mut expected = Vec::new();
    for (x, y) in [(30u32, 30u32), (24, 14)] {
        for (dr, dc) in [(0u32, 0u32), (0, 1), (0, 2), (0, 3), (1, 0), (2, 0), (3, 1), (1, 4), (3, 4)] {
            expected.push((y + dr, x + dc));
        }
    }
    expected.sort();
    assert_eq!(live_cells(&u), expected);
}

#[test]
fn cells_are_packed_into_blocks() {
    let mut u = Universe::with_size(8, 8).unwrap();
    u.set_cells(&[(0, 0), (4, 1), (7, 7)]).unwrap();
    assert_eq!(u.cells(), &[1u32, (1u32 << 1) | (1u32 << 31)][..]);
}

#[test]
fn render_draws_one_glyph_per_cell() {
    let mut u = Universe::with_size(3, 2).unwrap();
    u.set_cells(&[(0, 1), (1, 2)]).unwrap();
    assert_eq!(u.render(), "\u{25fb}\u{25fc}\u{25fb}\n\u{25fb}\u{25fb}\u{25fc}\n");
}
