use life::universe::{Cell, Universe};

fn grid(width: u32, height: u32, alive: &[(u32, u32)]) -> Universe {
    let mut cells = vec![Cell::Dead; (width * height) as usize];
    for &(row, col) in alive {
        cells[(row * width + col) as usize] = Cell::Alive;
    }
    Universe::new(width, height, cells).expect("well-formed grid")
}

fn alive_count(universe: &Universe) -> usize {
    let mut count = 0;
    for row in 0..universe.height() {
        for col in 0..universe.width() {
            if universe.get_cell(row, col) == Cell::Alive {
                count += 1;
            }
        }
    }
    count
}

#[test]
fn new_accepts_well_formed_grid() {
    let universe = grid(4, 3, &[(0, 1), (2, 3)]);
    assert_eq!(universe.width(), 4);
    assert_eq!(universe.height(), 3);
    assert_eq!(universe.get_cell(0, 1), Cell::Alive);
    assert_eq!(universe.get_cell(2, 3), Cell::Alive);
    assert_eq!(universe.get_cell(0, 0), Cell::Dead);
    assert_eq!(alive_count(&universe), 2);
}

#[test]
fn new_rejects_zero_width() {
    assert!(Universe::new(0, 4, Vec::new()).is_none());
}

#[test]
fn new_rejects_zero_height() {
    assert!(Universe::new(4, 0, Vec::new()).is_none());
}

#[test]
fn new_rejects_wrong_cell_count() {
    let cells = vec![Cell::Dead; 15];
    assert!(Universe::new(4, 4, cells).is_none());
    let cells = vec![Cell::Dead; 17];
    assert!(Universe::new(4, 4, cells).is_none());
}

#[test]
fn cell_projection_is_zero_one() {
    assert_eq!(Cell::Dead.as_u8(), 0);
    assert_eq!(Cell::Alive.as_u8(), 1);
}

#[test]
fn get_index_is_row_major() {
    let universe = grid(4, 4, &[]);
    assert_eq!(universe.get_index(0, 0), 0);
    assert_eq!(universe.get_index(0, 3), 3);
    assert_eq!(universe.get_index(1, 2), 6);
    assert_eq!(universe.get_index(3, 3), 15);
}

#[test]
fn neighbor_count_stays_within_bounds() {
    // An all-alive grid maximizes every count: 8 live neighbors per cell.
    let all = [
        (0, 0), (0, 1), (0, 2),
        (1, 0), (1, 1), (1, 2),
        (2, 0), (2, 1), (2, 2),
    ];
    let universe = grid(3, 3, &all);
    for row in 0..3 {
        for col in 0..3 {
            assert_eq!(universe.live_neighbor_count(row, col), 8);
        }
    }
}

#[test]
fn neighbor_count_on_single_cell_grid() {
    // On a 1x1 torus the wrap deltas are 0, 0, 1 in each direction, so 5 of
    // the 9 delta pairs survive the self-skip and each wraps to the cell
    // itself.
    let universe = grid(1, 1, &[(0, 0)]);
    assert_eq!(universe.live_neighbor_count(0, 0), 5);
}

#[test]
fn neighbor_count_of_blinker_cells() {
    let universe = grid(4, 4, &[(0, 1), (1, 1), (2, 1)]);
    assert_eq!(universe.live_neighbor_count(1, 1), 2);
    assert_eq!(universe.live_neighbor_count(1, 0), 3);
    assert_eq!(universe.live_neighbor_count(1, 2), 3);
    assert_eq!(universe.live_neighbor_count(3, 1), 2);
    assert_eq!(universe.live_neighbor_count(1, 3), 0);
}

#[test]
fn toroidal_wraparound_between_corners() {
    let universe = grid(4, 4, &[(3, 3)]);
    assert_eq!(universe.live_neighbor_count(0, 0), 1);
    let universe = grid(4, 4, &[(0, 0)]);
    assert_eq!(universe.live_neighbor_count(3, 3), 1);
}

#[test]
fn empty_grid_stays_empty() {
    let mut universe = grid(5, 3, &[]);
    universe.tick();
    assert_eq!(universe.width(), 5);
    assert_eq!(universe.height(), 3);
    for row in 0..3 {
        for col in 0..5 {
            assert_eq!(universe.get_cell(row, col), Cell::Dead);
        }
    }
}

#[test]
fn blinker_tick_matches_golden_grid() {
    // The vertical line of three live cells in column 1 of a 4x4 torus must
    // turn into a horizontal line of three live cells in row 1.
    let mut universe = grid(4, 4, &[(0, 1), (1, 1), (2, 1)]);
    universe.tick();
    let expected = [
        [Cell::Dead, Cell::Dead, Cell::Dead, Cell::Dead],
        [Cell::Alive, Cell::Alive, Cell::Alive, Cell::Dead],
        [Cell::Dead, Cell::Dead, Cell::Dead, Cell::Dead],
        [Cell::Dead, Cell::Dead, Cell::Dead, Cell::Dead],
    ];
    for row in 0..4 {
        for col in 0..4 {
            assert_eq!(
                universe.get_cell(row, col),
                expected[row as usize][col as usize],
                "cell ({}, {})",
                row,
                col
            );
        }
    }
}

#[test]
fn tick_is_deterministic() {
    let alive = [(0, 1), (1, 1), (2, 1), (3, 0)];
    let mut first = grid(4, 4, &alive);
    let mut second = grid(4, 4, &alive);
    first.tick();
    second.tick();
    for row in 0..4 {
        for col in 0..4 {
            assert_eq!(first.get_cell(row, col), second.get_cell(row, col));
        }
    }
}

#[test]
fn population_can_increase() {
    // Three cells in an L: the corner they enclose is born, all three survive.
    let mut universe = grid(4, 4, &[(0, 0), (0, 1), (1, 0)]);
    assert_eq!(alive_count(&universe), 3);
    universe.tick();
    assert_eq!(alive_count(&universe), 4);
    assert_eq!(universe.get_cell(1, 1), Cell::Alive);
}

#[test]
fn population_can_decrease() {
    // A lone cell dies of underpopulation and nothing is born.
    let mut universe = grid(4, 4, &[(2, 2)]);
    assert_eq!(alive_count(&universe), 1);
    universe.tick();
    assert_eq!(alive_count(&universe), 0);
}
