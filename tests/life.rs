use life_grid::{Cell, Universe};

const D: u8 = 0;
const A: u8 = 1;

fn cells_of(u: &Universe) -> Vec<Cell> {
    let mut out = Vec::new();
    for row in 0..u.height() {
        for col in 0..u.width() {
            out.push(u.get_cell_state(row, col));
        }
    }
    out
}

fn expect(pattern: &[u8]) -> Vec<Cell> {
    pattern.iter().map(|&b| if b == A { Cell::Alive } else { Cell::Dead }).collect()
}

#[test]
fn new_has_one_cell_per_position() {
    let u = Universe::new(7, 5);
    assert_eq!(u.width(), 7);
    assert_eq!(u.height(), 5);
    assert!(u.dirty());
    assert_eq!(cells_of(&u).len(), 35);
    assert_eq!(u.get_index(4, 6), 34);
}

#[test]
fn shape_is_kept_after_ticks() {
    let mut u = Universe::new(6, 4);
    for _ in 0..5 {
        u.tick();
        assert_eq!(u.width(), 6);
        assert_eq!(u.height(), 4);
        assert_eq!(cells_of(&u).len(), 24);
    }
}

#[test]
fn odd_bytes_give_live_cells() {
    let u = Universe::from_random_bytes(2, 2, &vec![3, 4, 255, 128]);
    assert_eq!(cells_of(&u), vec![Cell::Alive, Cell::Dead, Cell::Alive, Cell::Dead]);
    assert!(u.dirty());
}

#[test]
fn index_is_row_major() {
    let u = Universe::from_random_bytes(4, 3, &vec![0; 12]);
    assert_eq!(u.get_index(0, 0), 0);
    assert_eq!(u.get_index(1, 0), 4);
    assert_eq!(u.get_index(2, 3), 11);
}

#[test]
fn corner_and_edge_counts_on_full_grid() {
    let u = Universe::from_random_bytes(4, 4, &vec![A; 16]);
    assert_eq!(u.live_neighbors(0, 0), 3);
    assert_eq!(u.live_neighbors(3, 3), 3);
    assert_eq!(u.live_neighbors(0, 3), 3);
    assert_eq!(u.live_neighbors(0, 1), 5);
    assert_eq!(u.live_neighbors(2, 0), 5);
    assert_eq!(u.live_neighbors(1, 1), 8);
    assert_eq!(u.live_neighbors(2, 2), 8);
}

#[test]
fn opposite_edges_do_not_wrap() {
    // Only the last column is alive; the first column must not see it.
    let u = Universe::from_random_bytes(4, 3, &vec![D, D, D, A, D, D, D, A, D, D, D, A]);
    assert_eq!(u.live_neighbors(1, 0), 0);
    assert_eq!(u.live_neighbors(1, 2), 3);
}

#[test]
fn two_by_two_corner_sees_three_cells() {
    let u = Universe::from_random_bytes(2, 2, &vec![D, A, A, A]);
    assert_eq!(u.live_neighbors(0, 0), 3);
    let u = Universe::from_random_bytes(2, 2, &vec![A, D, A, D]);
    assert_eq!(u.live_neighbors(0, 0), 1);
    let u = Universe::from_random_bytes(2, 2, &vec![A, D, D, D]);
    assert_eq!(u.live_neighbors(0, 0), 0);
}

#[test]
fn same_input_gives_same_generation() {
    let bytes = vec![A, D, A, A, D, D, A, A, D, A, D, A, A, A, D, D, A, D, D, A];
    let mut a = Universe::from_random_bytes(5, 4, &bytes);
    let mut b = Universe::from_random_bytes(5, 4, &bytes);
    a.tick();
    b.tick();
    assert_eq!(cells_of(&a), cells_of(&b));
    assert_eq!(a.dirty(), b.dirty());
    a.tick();
    b.tick();
    assert_eq!(cells_of(&a), cells_of(&b));
}

#[test]
fn block_is_a_still_life() {
    let bytes = vec![
        D, D, D, D,
        D, A, A, D,
        D, A, A, D,
        D, D, D, D,
    ];
    let mut u = Universe::from_random_bytes(4, 4, &bytes);
    u.tick();
    assert_eq!(cells_of(&u), expect(&bytes));
    assert!(!u.dirty());
}

#[test]
fn dead_cell_with_three_neighbors_is_born() {
    let mut u = Universe::from_random_bytes(3, 3, &vec![A, A, A, D, D, D, D, D, D]);
    assert_eq!(u.live_neighbors(1, 1), 3);
    u.tick();
    assert_eq!(u.get_cell_state(1, 1), Cell::Alive);
}

#[test]
fn dead_cell_with_two_neighbors_stays_dead() {
    let mut u = Universe::from_random_bytes(3, 3, &vec![A, D, A, D, D, D, D, D, D]);
    assert_eq!(u.live_neighbors(1, 1), 2);
    u.tick();
    assert_eq!(u.get_cell_state(1, 1), Cell::Dead);
}

#[test]
fn dead_cell_with_four_neighbors_stays_dead() {
    let mut u = Universe::from_random_bytes(3, 3, &vec![A, D, A, D, D, D, A, D, A]);
    assert_eq!(u.live_neighbors(1, 1), 4);
    u.tick();
    assert_eq!(u.get_cell_state(1, 1), Cell::Dead);
}

#[test]
fn live_cell_alone_dies() {
    let mut u = Universe::from_random_bytes(3, 3, &vec![D, D, D, D, A, D, D, D, D]);
    assert_eq!(u.live_neighbors(1, 1), 0);
    u.tick();
    assert_eq!(u.get_cell_state(1, 1), Cell::Dead);
    assert!(u.dirty());
}

#[test]
fn live_cell_with_one_neighbor_dies() {
    let mut u = Universe::from_random_bytes(3, 3, &vec![A, D, D, D, A, D, D, D, D]);
    assert_eq!(u.live_neighbors(1, 1), 1);
    u.tick();
    assert_eq!(u.get_cell_state(1, 1), Cell::Dead);
}

#[test]
fn live_cell_with_two_or_three_neighbors_survives() {
    let mut u = Universe::from_random_bytes(3, 3, &vec![A, D, D, D, A, D, D, D, A]);
    assert_eq!(u.live_neighbors(1, 1), 2);
    u.tick();
    assert_eq!(u.get_cell_state(1, 1), Cell::Alive);
    let mut u = Universe::from_random_bytes(3, 3, &vec![A, D, A, D, A, D, D, D, A]);
    assert_eq!(u.live_neighbors(1, 1), 3);
    u.tick();
    assert_eq!(u.get_cell_state(1, 1), Cell::Alive);
}

#[test]
fn live_cell_with_four_neighbors_dies() {
    let mut u = Universe::from_random_bytes(3, 3, &vec![A, D, A, D, A, D, A, D, A]);
    assert_eq!(u.live_neighbors(1, 1), 4);
    u.tick();
    assert_eq!(u.get_cell_state(1, 1), Cell::Dead);
}

#[test]
fn blinker_turns_upright() {
    let mut u = Universe::from_random_bytes(3, 3, &vec![
        D, D, D,
        A, A, A,
        D, D, D,
    ]);
    assert_eq!(u.live_neighbors(1, 1), 2);
    u.tick();
    let upright = expect(&[
        D, A, D,
        D, A, D,
        D, A, D,
    ]);
    assert_eq!(cells_of(&u), upright);
    assert!(u.dirty());
}

#[test]
fn blinker_flips_back_on_larger_grid() {
    let start = vec![
        D, D, D, D, D,
        D, D, D, D, D,
        D, A, A, A, D,
        D, D, D, D, D,
        D, D, D, D, D,
    ];
    let upright = vec![
        D, D, D, D, D,
        D, D, A, D, D,
        D, D, A, D, D,
        D, D, A, D, D,
        D, D, D, D, D,
    ];
    let mut u = Universe::from_random_bytes(5, 5, &start);
    u.tick();
    assert_eq!(cells_of(&u), expect(&upright));
    u.tick();
    assert_eq!(cells_of(&u), expect(&start));
    assert!(u.dirty());
}

#[test]
fn empty_grid_stays_empty_and_clean() {
    let mut u = Universe::from_random_bytes(3, 2, &vec![D; 6]);
    assert!(u.dirty());
    u.tick();
    assert_eq!(cells_of(&u), vec![Cell::Dead; 6]);
    assert!(!u.dirty());
}

#[test]
fn single_row_grid() {
    let mut u = Universe::from_random_bytes(5, 1, &vec![A, A, A, D, A]);
    assert_eq!(u.live_neighbors(0, 0), 1);
    assert_eq!(u.live_neighbors(0, 1), 2);
    assert_eq!(u.live_neighbors(0, 3), 2);
    u.tick();
    assert_eq!(cells_of(&u), expect(&[D, A, D, D, D]));
}
