use gameoflife::conway::CellState::{Alive, Dead};
use gameoflife::conway::{
    apply_conways_rules, conway_next_generation, count_neighbour, count_neighbours, die,
    format_grid, is_livable_condition, is_overpopulation, is_underpopulation, parser, resurrect,
    Direction, Grid,
};

#[test]
fn main_test_empty() {
    let grid = parser(
        "........\n\
         ........\n\
         ........\n\
         ........\n\
         ........\n\
         ........\n\
         ........\n\
         ........\n",
    );

    let next = conway_next_generation(&grid);

    assert_eq!(next, grid)
}

#[test]
fn test_parse_one_cell() {
    let grid = Grid {
        rows: vec![
            vec![Dead, Dead, Dead, Dead, Dead, Dead, Dead, Dead],
            vec![Dead, Alive, Dead, Dead, Dead, Dead, Dead, Dead],
            vec![Dead, Dead, Dead, Dead, Dead, Dead, Dead, Dead],
            vec![Dead, Dead, Dead, Dead, Dead, Dead, Dead, Dead],
            vec![Dead, Dead, Dead, Dead, Dead, Dead, Dead, Dead],
            vec![Dead, Dead, Dead, Dead, Dead, Dead, Dead, Dead],
            vec![Dead, Dead, Dead, Dead, Dead, Dead, Dead, Dead],
            vec![Dead, Dead, Dead, Dead, Dead, Dead, Dead, Dead],
        ],
    };

    let res = parser(
        "........\n\
         .X......\n\
         ........\n\
         ........\n\
         ........\n\
         ........\n\
         ........\n\
         ........\n",
    );
    assert_eq!(res, grid);
}

#[test]
fn test_format_one_cell_grid() {
    let grid = parser(
        "........\n\
         .X......\n\
         ........\n\
         ........\n\
         ........\n\
         ........\n\
         ........\n\
         ........\n",
    );

    let expected_grid = "........\n\
                         .X......\n\
                         ........\n\
                         ........\n\
                         ........\n\
                         ........\n\
                         ........\n\
                         ........\n";

    let formated_grid = format_grid(&grid);
    assert_eq!(formated_grid, expected_grid);
}

#[test]
fn test_parse_antipanic() {
    parser(
        ".X......\n\
         .XX.....X\n\
         .X......\n\
         ........\n\
         ........\n\
         ........\n\
         ........\n\
         ........\n",
    );
}

#[test]
fn test_parse_empty() {
    let res = parser(
        "........\n\
         ........\n\
         ........\n\
         ........\n\
         ........\n\
         ........\n\
         ........\n\
         ........\n",
    );
    assert_eq!(res, Grid::default());
}

#[test]
fn test_1_cellule_en_vie_doit_mourrir() {
    let grid = parser(
        "........\n\
         ........\n\
         .X......\n\
         ........\n\
         ........\n\
         ........\n\
         ........\n\
         ........\n",
    );

    let next = conway_next_generation(&grid);

    assert_eq!(next, Grid::default());
}

#[test]
fn test_un_carre_ne_doit_pas_bouger() {
    let grid = parser(
        "........\n\
         .XX.....\n\
         .XX.....\n\
         ........\n\
         ........\n\
         ........\n\
         ........\n\
         ........\n",
    );

    let next = conway_next_generation(&grid);

    assert_eq!(next, grid);
}

/// One step of the glider: the canonical next shape, derived by
/// applying the rule to each cell by hand.
#[test]
fn glider_advances_one_generation() {
    let grid = parser(
        ".X......\n\
         ..X.....\n\
         XXX.....\n\
         ........\n\
         ........\n\
         ........\n\
         ........\n\
         ........\n",
    );

    let expected = parser(
        "........\n\
         X.X.....\n\
         .XX.....\n\
         .X......\n\
         ........\n\
         ........\n\
         ........\n\
         ........\n",
    );

    let next = conway_next_generation(&grid);

    assert_eq!(next, expected);
}

/// The lower-case mark parses as a live cell too, and formatting
/// writes it back with the upper-case glyph.
#[test]
fn lower_case_mark_is_alive() {
    let grid = parser("x.\n");
    let upper = parser("X.\n");
    assert_eq!(grid, upper);
    assert!(format_grid(&grid).starts_with("X......."));
}

/// Any character other than the dead glyph reads as a live cell.
#[test]
fn non_dead_characters_are_alive() {
    let grid = parser("o*?a.b\n");
    assert_eq!(grid, parser("XXXX.X\n"));
}

/// A carriage return before a newline belongs to the line break; the
/// parsed board is the same with either line ending.
#[test]
fn carriage_return_line_breaks() {
    let with_crlf = parser(".X..\r\nX...\r\n");
    let with_lf = parser(".X..\nX...\n");
    assert_eq!(with_crlf, with_lf);
}

/// A live cell in the top-left corner is handled without wrapping:
/// with one neighbour it dies, and the step completes.
#[test]
fn corner_cell_is_safe() {
    let grid = parser(
        "X.......\n\
         .X......\n",
    );
    let next = conway_next_generation(&grid);
    assert_eq!(next, Grid::default());
}

/// The three named conditions of the rule, at their boundaries.
#[test]
fn rule_conditions() {
    assert!(is_livable_condition(3));
    assert!(!is_livable_condition(2));
    assert!(!is_livable_condition(4));
    assert!(is_overpopulation(4));
    assert!(!is_overpopulation(3));
    assert!(is_underpopulation(1));
    assert!(is_underpopulation(0));
    assert!(!is_underpopulation(2));
}

/// `resurrect` and `die` touch exactly one cell.
#[test]
fn resurrect_and_die_write_one_cell() {
    let mut grid = Grid::default();
    resurrect(&mut grid, 2, 3);
    assert_eq!(
        grid,
        parser(
            "........\n\
             ........\n\
             ...X....\n"
        )
    );
    die(&mut grid, 2, 3);
    assert_eq!(grid, Grid::default());
}

/// Applying the rule to one cell writes the expected state there and
/// leaves the rest of the board alone.
#[test]
fn apply_rules_writes_expected_cell() {
    let mut starved = parser("X.......\n");
    apply_conways_rules(Alive, 1, 0, 0, &mut starved);
    assert_eq!(starved, Grid::default());

    let mut born = Grid::default();
    apply_conways_rules(Dead, 3, 4, 4, &mut born);
    assert_eq!(
        born,
        parser(
            "........\n\
             ........\n\
             ........\n\
             ........\n\
             ....X...\n"
        )
    );

    let mut kept = parser("X.......\n");
    apply_conways_rules(Alive, 2, 0, 0, &mut kept);
    assert_eq!(kept, parser("X.......\n"));
}

/// Neighbour counting, as a whole and direction by direction.
#[test]
fn neighbour_counts() {
    let grid = parser(
        ".X......\n\
         XX......\n",
    );
    assert_eq!(count_neighbours(&grid, 0, 0), 3);
    assert_eq!(count_neighbours(&grid, 1, 1), 2);
    assert_eq!(count_neighbours(&grid, 7, 7), 0);
    assert_eq!(count_neighbour(&grid, 0, 0, Direction::East), 1);
    assert_eq!(count_neighbour(&grid, 0, 0, Direction::South), 1);
    assert_eq!(count_neighbour(&grid, 0, 0, Direction::SouthEast), 1);
    assert_eq!(count_neighbour(&grid, 0, 0, Direction::North), 0);
    assert_eq!(count_neighbour(&grid, 0, 0, Direction::West), 0);
}

/// Each direction maps to its (row, column) offset.
#[test]
fn conway_direction_offsets() {
    assert_eq!(Direction::North.get_coordinates(), (-1, 0));
    assert_eq!(Direction::NorthEast.get_coordinates(), (-1, 1));
    assert_eq!(Direction::East.get_coordinates(), (0, 1));
    assert_eq!(Direction::SouthEast.get_coordinates(), (1, 1));
    assert_eq!(Direction::South.get_coordinates(), (1, 0));
    assert_eq!(Direction::SouthWest.get_coordinates(), (1, -1));
    assert_eq!(Direction::West.get_coordinates(), (0, -1));
    assert_eq!(Direction::NorthWest.get_coordinates(), (-1, -1));
}

/// Parsing the text form of a parsed board gives the board back.
#[test]
fn parser_format_identity() {
    let grid = parser(
        ".X.X.X.X\n\
         X.X.X.X.\n\
         ..XX..XX\n",
    );
    assert_eq!(parser(&format_grid(&grid)), grid);
}
