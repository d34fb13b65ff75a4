use game_of_life::Cell;
use game_of_life::GridError;
use game_of_life::Universe;

fn assert_alive_exactly(u: &Universe, alive: &[(u32, u32)]) {
    let w = u.width();
    let h = u.height();
    let cells = u.get_cells();
    assert_eq!(cells.len(), (w as usize) * (h as usize));
    for r in 0..h {
        for c in 0..w {
            let idx = (r * w + c) as usize;
            let expected = if alive.contains(&(r, c)) {
                Cell::Alive
            } else {
                Cell::Dead
            };
            assert_eq!(cells[idx], expected, "cell ({}, {})", r, c);
        }
    }
}

#[test]
fn new_universe_is_all_dead_64_by_64() {
    let u = Universe::new();
    assert_eq!(u.width(), 64);
    assert_eq!(u.height(), 64);
    let cells = u.cells();
    assert_eq!(cells.len(), 64 * 64);
    assert!(cells.iter().all(|c| *c == Cell::Dead));
}

#[test]
fn index_formula_and_bounds() {
    let u = Universe::new();
    assert_eq!(u.get_index(0, 0), Ok(0));
    assert_eq!(u.get_index(2, 3), Ok(2 * 64 + 3));
    assert_eq!(u.get_index(63, 63), Ok(64 * 64 - 1));
    assert_eq!(u.get_index(64, 0), Err(GridError::OutOfBounds));
}

#[test]
fn toggle_cell_flips_in_place() {
    let mut u = Universe::new();
    assert_eq!(u.toggle_cell(1, 2), Ok(()));
    assert_eq!(u.get_cells()[64 + 2], Cell::Alive);
    assert_eq!(u.toggle_cell(1, 2), Ok(()));
    assert_eq!(u.get_cells()[64 + 2], Cell::Dead);
    let before = u.cells();
    assert_eq!(u.toggle_cell(64, 0), Err(GridError::OutOfBounds));
    assert_eq!(u.cells(), before);
}

#[test]
fn toroidal_wrap_at_corner() {
    let mut u = Universe::new();
    u.set_width(5);
    u.set_height(5);
    let neighbors = [
        (4, 4),
        (4, 0),
        (4, 1),
        (0, 4),
        (0, 1),
        (1, 4),
        (1, 0),
        (1, 1),
    ];
    u.set_cells(&neighbors).unwrap();
    assert_eq!(u.live_neighbor_count(0, 0), 8);
    assert_eq!(u.live_neighbor_count(2, 2), 1);
}

#[test]
fn blinker_oscillates() {
    let mut u = Universe::new();
    u.set_width(5);
    u.set_height(5);
    u.set_cells(&[(1, 0), (1, 1), (1, 2)]).unwrap();
    assert_eq!(u.tick(), Ok(()));
    assert_alive_exactly(&u, &[(0, 1), (1, 1), (2, 1)]);
    assert_eq!(u.tick(), Ok(()));
    assert_alive_exactly(&u, &[(1, 0), (1, 1), (1, 2)]);
}

#[test]
fn resize_resets_all_cells() {
    let mut u = Universe::new();
    u.toggle_cell(3, 4).unwrap();
    u.toggle_cell(0, 0).unwrap();
    u.set_width(10);
    assert_eq!(u.width(), 10);
    assert_eq!(u.height(), 64);
    let cells = u.cells();
    assert_eq!(cells.len(), 10 * 64);
    assert!(cells.iter().all(|c| *c == Cell::Dead));
    u.toggle_cell(1, 1).unwrap();
    u.set_height(3);
    assert_eq!(u.height(), 3);
    let cells = u.cells();
    assert_eq!(cells.len(), 10 * 3);
    assert!(cells.iter().all(|c| *c == Cell::Dead));
}

#[test]
fn parse_literal_pattern() {
    let u = Universe::new();
    let pattern = u.parse_text_input("O.\nO.\n.O");
    assert_eq!(pattern, vec![(0, 0), (1, 0), (2, 1)]);
}

#[test]
fn parse_permissive_and_empty() {
    let u = Universe::new();
    assert_eq!(u.parse_text_input(""), vec![]);
    assert_eq!(u.parse_text_input("..\n.."), vec![]);
    assert_eq!(u.parse_text_input("O\r\nO"), vec![(0, 0), (1, 0)]);
    assert_eq!(u.parse_text_input("x.O"), vec![(0, 1)]);
}

#[test]
fn placement_out_of_bounds_leaves_grid_unchanged() {
    let mut u = Universe::new();
    u.set_width(5);
    u.set_height(5);
    u.toggle_cell(0, 0).unwrap();
    let before = u.cells();
    assert_eq!(
        u.place_item_on_grid(4, 3, "OOO"),
        Err(GridError::OutOfBounds)
    );
    assert_eq!(u.cells(), before);
    assert_eq!(u.place_item_on_grid(5, 0, "O"), Err(GridError::OutOfBounds));
    assert_eq!(u.cells(), before);
    assert_eq!(u.place_item_on_grid(3, 2, "OO"), Ok(()));
    assert_alive_exactly(&u, &[(0, 0), (3, 2), (3, 3)]);
}

#[test]
fn placement_keeps_earlier_content() {
    let mut u = Universe::new();
    u.set_width(6);
    u.set_height(4);
    u.toggle_cell(3, 5).unwrap();
    assert_eq!(u.place_item_on_grid(1, 1, "O.O\n.O."), Ok(()));
    assert_alive_exactly(&u, &[(3, 5), (1, 1), (1, 3), (2, 2)]);
}

#[test]
fn spaceship_placement_and_bounds() {
    let mut u = Universe::new();
    u.set_width(10);
    u.set_height(10);
    assert_eq!(u.add_spaceship(0, 0), Ok(()));
    assert_alive_exactly(
        &u,
        &[
            (0, 0),
            (1, 0),
            (2, 0),
            (3, 0),
            (0, 1),
            (4, 1),
            (0, 2),
            (1, 3),
            (4, 3),
        ],
    );
    u.all_dead();
    let before = u.cells();
    assert_eq!(u.add_spaceship(6, 6), Err(GridError::OutOfBounds));
    assert_eq!(u.cells(), before);
}

#[test]
fn set_cells_checks_bounds() {
    let mut u = Universe::new();
    u.set_width(4);
    u.set_height(4);
    let before = u.cells();
    assert_eq!(
        u.set_cells(&[(0, 0), (4, 0)]),
        Err(GridError::OutOfBounds)
    );
    assert_eq!(u.cells(), before);
    assert_eq!(u.set_cells(&[(0, 0), (3, 3)]), Ok(()));
    assert_alive_exactly(&u, &[(0, 0), (3, 3)]);
}

#[test]
fn clear_all_idempotent() {
    let mut u = Universe::new();
    u.randomise();
    u.all_dead();
    let once = u.cells();
    u.all_dead();
    let twice = u.cells();
    assert_eq!(once, twice);
    assert!(twice.iter().all(|c| *c == Cell::Dead));
    assert_eq!(twice.len(), 64 * 64);
}

#[test]
fn randomise_with_injected_bits() {
    let mut u = Universe::new();
    u.set_width(4);
    u.set_height(2);
    let bits: Vec<bool> = (0..8).map(|i| i % 3 == 0).collect();
    u.randomise_with(&bits);
    let cells = u.cells();
    for i in 0..8 {
        let expected = if i % 3 == 0 { Cell::Alive } else { Cell::Dead };
        assert_eq!(cells[i], expected);
    }
}

#[test]
fn randomise_keeps_dimensions() {
    let mut u = Universe::new();
    u.randomise();
    assert_eq!(u.width(), 64);
    assert_eq!(u.height(), 64);
    assert_eq!(u.cells().len(), 64 * 64);
}

#[test]
fn render_deterministic_snapshot() {
    let mut u = Universe::new();
    u.set_width(2);
    u.set_height(2);
    u.toggle_cell(0, 1).unwrap();
    let first = u.render();
    let second = u.render();
    assert_eq!(first, second);
    assert_eq!(first, "\u{25fb}\u{25fc}\n\u{25fb}\u{25fb}\n");
}

#[test]
fn tick_rejects_degenerate_grid() {
    let mut u = Universe::new();
    u.set_width(0);
    assert_eq!(u.tick(), Err(GridError::DegenerateGrid));
    assert_eq!(u.cells().len(), 0);
    let mut v = Universe::new();
    v.set_height(0);
    assert_eq!(v.tick(), Err(GridError::DegenerateGrid));
}

#[test]
fn tick_applies_life_rules() {
    let mut u = Universe::new();
    u.set_width(8);
    u.set_height(8);
    // A 2x2 block is a still life: every live cell has 3 live neighbours.
    u.set_cells(&[(2, 2), (2, 3), (3, 2), (3, 3)]).unwrap();
    assert_eq!(u.tick(), Ok(()));
    assert_alive_exactly(&u, &[(2, 2), (2, 3), (3, 2), (3, 3)]);
    // A lone live cell dies of underpopulation.
    let mut v = Universe::new();
    v.set_width(8);
    v.set_height(8);
    v.set_cells(&[(4, 4)]).unwrap();
    assert_eq!(v.tick(), Ok(()));
    assert_alive_exactly(&v, &[]);
}
