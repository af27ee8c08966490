use life::render::render;
use life::universe::{Cell, Universe};

fn grid(width: u32, height: u32, alive: &[(u32, u32)]) -> Universe {
    let mut cells = vec![Cell::Dead; (width * height) as usize];
    for &(row, col) in alive {
        cells[(row * width + col) as usize] = Cell::Alive;
    }
    Universe::new(width, height, cells).expect("well-formed grid")
}

#[test]
fn render_blinker_grid() {
    let universe = grid(4, 4, &[(0, 1), (1, 1), (2, 1)]);
    assert_eq!(render(&universe), "-+--\n-+--\n-+--\n----\n");
}

#[test]
fn render_after_tick() {
    let mut universe = grid(4, 4, &[(0, 1), (1, 1), (2, 1)]);
    universe.tick();
    assert_eq!(render(&universe), "----\n+++-\n----\n----\n");
}

#[test]
fn render_single_cell_grids() {
    assert_eq!(render(&grid(1, 1, &[])), "-\n");
    assert_eq!(render(&grid(1, 1, &[(0, 0)])), "+\n");
}

#[test]
fn render_is_idempotent() {
    let universe = grid(3, 2, &[(0, 0), (1, 2)]);
    let first = render(&universe);
    let second = render(&universe);
    assert_eq!(first, second);
    assert_eq!(first, "+--\n--+\n");
}
