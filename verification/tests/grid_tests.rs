use std::str::FromStr;

use gameoflife::grid::{CellState, Direction};
use gameoflife::Grid;

fn identity(grid: Grid) -> Grid {
    grid.format().parse().expect("Failed to parse grid")
}

#[test]
fn grid_test_empty() {
    let grid = Grid::from_str("").unwrap();
    assert_eq!(grid, Grid::default());
}

#[test]
fn random_identity() {
    for _ in 0..100 {
        let grid = Grid::random();
        assert_eq!(identity(grid.clone()), grid);
    }
}

/// Any live cell with fewer than two live neighbours dies, as if caused by underpopulation.
#[test]
fn underpopulation() {
    assert!(!CellState::Alive.next(0).is_alive());
    assert!(!CellState::Alive.next(1).is_alive());
}

/// Any live cell with two or three live neighbours lives on to the next generation.
#[test]
fn lives_on() {
    assert!(CellState::Alive.next(2).is_alive());
    assert!(CellState::Alive.next(3).is_alive());
}

/// Any live cell with more than three live neighbours dies, as if by overpopulation.
#[test]
fn overpopulation() {
    assert!(!CellState::Alive.next(4).is_alive());
    assert!(!CellState::Alive.next(5).is_alive());
    assert!(!CellState::Alive.next(6).is_alive());
    assert!(!CellState::Alive.next(7).is_alive());
    assert!(!CellState::Alive.next(8).is_alive());
}

/// Any dead cell with exactly three live neighbours becomes a live cell, as if by reproduction.
#[test]
fn reproduction() {
    assert!(CellState::Dead.next(3).is_alive());
    assert!(!CellState::Dead.next(0).is_alive());
    assert!(!CellState::Dead.next(2).is_alive());
    assert!(!CellState::Dead.next(4).is_alive());
}

/// The all-dead board is a fixed point of the generation step.
#[test]
fn dead_board_is_stable() {
    let grid = Grid::default();
    assert_eq!(grid.next(), grid);
}

/// A single live cell has no live neighbours and dies.
#[test]
fn lone_cell_dies() {
    let grid = Grid::parse("........\n...o....\n");
    assert_eq!(grid.next(), Grid::default());
}

/// A 2-by-2 block of live cells is a still life.
#[test]
fn block_is_still_life() {
    let grid = Grid::parse(
        "................\n\
         .oo.............\n\
         .oo.............\n",
    );
    assert_eq!(grid.next(), grid);
}

/// A block in the top-left corner: every boundary cell is handled
/// without wrapping, and the corner block is still a still life.
#[test]
fn corner_block_is_still_life() {
    let grid = Grid::parse(
        "oo..............\n\
         oo..............\n",
    );
    assert_eq!(grid.next(), grid);
}

/// A lone live corner cell with one diagonal neighbour dies, and
/// nothing is born: the outside of the board counts as dead.
#[test]
fn corner_cell_dies() {
    let grid = Grid::parse(
        "o...............\n\
         .o..............\n",
    );
    assert_eq!(grid.next(), Grid::default());
}

/// A dead cell with exactly three live neighbours comes alive.
#[test]
fn birth_on_three_neighbours() {
    let before = Grid::parse("ooo.............\n");
    let after = Grid::parse(
        ".o..............\n\
         .o..............\n",
    );
    assert_eq!(before.next(), after);
}

/// The text form is sixteen lines of sixteen glyphs, each line closed
/// by a newline.
#[test]
fn format_shape_and_glyphs() {
    let grid = Grid::parse(".o\n");
    let formatted = grid.format();
    let lines: Vec<&str> = formatted.lines().collect();
    assert_eq!(lines.len(), 16);
    assert_eq!(lines[0], ".o..............");
    for line in &lines[1..] {
        assert_eq!(*line, "................");
    }
    assert!(formatted.ends_with('\n'));
}

/// Lines longer than the side, more lines than the side, and strange
/// characters are all tolerated: parsing never fails.
#[test]
fn parse_malformed_input() {
    let long = "o".repeat(100);
    let mut text = String::new();
    for _ in 0..40 {
        text.push_str(&long);
        text.push('\n');
    }
    let grid = Grid::parse(&text);
    let full: String = ("oooooooooooooooo\n").repeat(16);
    assert_eq!(grid, Grid::parse(&full));

    let odd = Grid::parse("a?~ \t\u{e9}zz\n");
    let formatted = odd.format();
    assert_eq!(formatted.lines().next().unwrap(), "oooooooo........");
}

/// Any character other than the dead glyph reads as a live cell.
#[test]
fn parse_non_dead_glyphs_are_alive() {
    let grid = Grid::parse("xXo*\n");
    assert_eq!(grid, Grid::parse("oooo\n"));
}

/// A carriage return directly before a newline belongs to the line
/// break; anywhere else it is an ordinary, non-dead character.
#[test]
fn parse_carriage_returns() {
    assert_eq!(Grid::parse("oo\r\n.o\r\n"), Grid::parse("oo\n.o\n"));
    assert_eq!(Grid::parse(".\r.\n"), Grid::parse(".o.\n"));
    assert_eq!(Grid::parse(".\r"), Grid::parse(".o\n"));
    assert_eq!(Grid::parse(".\r\n"), Grid::parse(".\n"));
}

/// Each direction maps to its (row, column) offset.
#[test]
fn grid_direction_offsets() {
    assert_eq!(Direction::North.get_coordinates(), (-1, 0));
    assert_eq!(Direction::NorthEast.get_coordinates(), (-1, 1));
    assert_eq!(Direction::East.get_coordinates(), (0, 1));
    assert_eq!(Direction::SouthEast.get_coordinates(), (1, 1));
    assert_eq!(Direction::South.get_coordinates(), (1, 0));
    assert_eq!(Direction::SouthWest.get_coordinates(), (1, -1));
    assert_eq!(Direction::West.get_coordinates(), (0, -1));
    assert_eq!(Direction::NorthWest.get_coordinates(), (-1, -1));
}

/// Parsing the text form of a parsed board gives the board back.
#[test]
fn roundtrip_of_parsed_board() {
    let grid = Grid::parse(
        ".o.o.o.o.o.o.o.o\n\
         o.o.o.o.o.o.o.o.\n\
         ....oooo....oooo\n",
    );
    assert_eq!(Grid::parse(&grid.format()), grid);
}
