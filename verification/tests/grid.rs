use game_of_life::grid::{Cell, IndexOutOfRange, Universe};

fn dead_universe(width: u32, height: u32) -> Universe {
    let seed = vec![false; (width as usize) * (height as usize)];
    Universe::new(width, height, &seed)
}

fn live_cells(u: &Universe) -> Vec<(u32, u32)> {
    let bits = u.get_cells();
    let mut out = Vec::new();
    for row in 0..u.height() {
        for col in 0..u.width() {
            if bits.contains((row * u.width() + col) as usize) {
                out.push((row, col));
            }
        }
    }
    out
}

#[test]
fn new_takes_one_draw_per_cell() {
    let seed = vec![true, false, false, true, true, false];
    let u = Universe::new(3, 2, &seed);
    assert_eq!(u.width(), 3);
    assert_eq!(u.height(), 2);
    assert_eq!(live_cells(&u), vec![(0, 0), (1, 0), (1, 1)]);
}

#[test]
fn toggle_cell_flips_exactly_one_cell() {
    let mut u = dead_universe(4, 4);
    assert_eq!(u.toggle_cell(2, 1), Ok(()));
    assert_eq!(live_cells(&u), vec![(2, 1)]);
    assert_eq!(u.toggle_cell(2, 1), Ok(()));
    assert_eq!(live_cells(&u), vec![]);
}

#[test]
fn toggle_cell_out_of_range_fails_and_preserves_state() {
    let mut u = dead_universe(3, 4);
    u.toggle_cell(1, 1).unwrap();
    let before = u.get_cells().clone();
    assert_eq!(u.toggle_cell(u.height(), 0), Err(IndexOutOfRange));
    assert_eq!(u.toggle_cell(0, u.width()), Err(IndexOutOfRange));
    assert_eq!(u.get_cells(), &before);
    assert_eq!(u.width(), 3);
    assert_eq!(u.height(), 4);
}

#[test]
fn corner_counts_opposite_corner_as_neighbour() {
    let mut u = dead_universe(3, 3);
    u.toggle_cell(0, 0).unwrap();
    assert_eq!(u.live_neighbour_count(2, 2), 1);
}

#[test]
fn every_wrapped_neighbour_is_counted() {
    // All eight neighbours of the corner cell, found across the wrapped edges.
    let mut u = dead_universe(5, 5);
    u.set_cells(&[(4, 4), (4, 0), (4, 1), (0, 4), (0, 1), (1, 4), (1, 0), (1, 1)])
        .unwrap();
    assert_eq!(u.live_neighbour_count(0, 0), 8);
}

#[test]
fn lone_cell_dies_of_underpopulation() {
    let mut u = dead_universe(5, 5);
    u.toggle_cell(2, 2).unwrap();
    u.tick();
    assert_eq!(live_cells(&u), vec![]);
}

#[test]
fn crowded_cell_dies_of_overpopulation() {
    // The centre of a plus sign has four live neighbours and dies.
    let mut u = dead_universe(7, 7);
    u.set_cells(&[(2, 3), (3, 2), (3, 3), (3, 4), (4, 3)]).unwrap();
    u.tick();
    assert!(!live_cells(&u).contains(&(3, 3)));
    // Each arm of the plus survives with two or three live neighbours.
    assert!(live_cells(&u).contains(&(2, 3)));
}

#[test]
fn dead_cell_with_three_neighbours_is_born() {
    let mut u = dead_universe(6, 6);
    u.set_cells(&[(1, 1), (1, 2), (2, 1)]).unwrap();
    u.tick();
    assert!(live_cells(&u).contains(&(2, 2)));
}

#[test]
fn block_still_life_is_stable() {
    let mut u = dead_universe(6, 6);
    u.set_cells(&[(2, 2), (2, 3), (3, 2), (3, 3)]).unwrap();
    let before = u.get_cells().clone();
    for _ in 0..7 {
        u.tick();
        assert_eq!(u.get_cells(), &before);
    }
}

#[test]
fn blinker_oscillates_with_period_two() {
    let mut u = dead_universe(5, 5);
    u.set_cells(&[(1, 0), (1, 1), (1, 2)]).unwrap();
    u.tick();
    assert_eq!(live_cells(&u), vec![(0, 1), (1, 1), (2, 1)]);
    u.tick();
    assert_eq!(live_cells(&u), vec![(1, 0), (1, 1), (1, 2)]);
}

#[test]
fn tick_is_deterministic() {
    let seed: Vec<bool> = (0..36).map(|i| i % 3 == 0 || i % 7 == 0).collect();
    let mut a = Universe::new(6, 6, &seed);
    let mut b = Universe::new(6, 6, &seed);
    a.tick();
    b.tick();
    assert_eq!(a.get_cells(), b.get_cells());
}

#[test]
fn set_width_discards_state() {
    let mut u = dead_universe(4, 4);
    u.set_cells(&[(1, 1)]).unwrap();
    u.set_width(7);
    assert_eq!(u.width(), 7);
    assert_eq!(u.height(), 4);
    assert_eq!(live_cells(&u), vec![]);
}

#[test]
fn set_height_discards_state() {
    let mut u = dead_universe(4, 4);
    u.set_cells(&[(2, 3)]).unwrap();
    u.set_height(2);
    assert_eq!(u.width(), 4);
    assert_eq!(u.height(), 2);
    assert_eq!(live_cells(&u), vec![]);
}

#[test]
fn set_cells_out_of_range_fails_and_preserves_state() {
    let mut u = dead_universe(3, 3);
    let before = u.get_cells().clone();
    assert_eq!(u.set_cells(&[(1, 1), (3, 0)]), Err(IndexOutOfRange));
    assert_eq!(u.set_cells(&[(0, 3)]), Err(IndexOutOfRange));
    assert_eq!(u.get_cells(), &before);
}

#[test]
fn clear_kills_every_cell() {
    let seed = vec![true; 12];
    let mut u = Universe::new(4, 3, &seed);
    u.clear();
    assert_eq!(live_cells(&u), vec![]);
    assert_eq!(u.width(), 4);
    assert_eq!(u.height(), 3);
}

#[test]
fn reset_reseeds_every_cell() {
    let mut u = Universe::new(2, 2, &vec![true, true, true, true]);
    u.reset(&vec![false, true, false, true]);
    assert_eq!(live_cells(&u), vec![(0, 1), (1, 1)]);
}

#[test]
fn render_has_height_lines_of_width_glyphs() {
    let mut u = dead_universe(4, 3);
    u.toggle_cell(1, 2).unwrap();
    let text = u.render();
    let lines: Vec<&str> = text.lines().collect();
    assert_eq!(lines.len(), 3);
    for line in &lines {
        assert_eq!(line.chars().count(), 4);
    }
    assert!(text.ends_with('\n'));
}

#[test]
fn render_maps_cells_to_glyphs() {
    let mut u = dead_universe(2, 1);
    u.toggle_cell(0, 0).unwrap();
    assert_eq!(u.render(), "⬛⬜\n");
}

#[test]
fn cells_and_get_cells_expose_the_same_view() {
    let mut u = dead_universe(3, 3);
    u.toggle_cell(1, 2).unwrap();
    assert_eq!(u.cells(), u.get_cells());
    assert!(u.cells().contains(5));
}

#[test]
fn cell_states_are_distinct() {
    assert_ne!(Cell::Alive, Cell::Dead);
    assert_eq!(Cell::Alive, Cell::Alive.clone());
}

#[test]
fn empty_grid_operations_are_total() {
    let mut u = dead_universe(0, 0);
    u.tick();
    u.clear();
    assert_eq!(u.render(), "");
    assert_eq!(u.toggle_cell(0, 0), Err(IndexOutOfRange));
}
