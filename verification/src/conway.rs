//! An 8-by-8 Game of Life board written as free functions, with `X`
//! (or `x`) for a live cell and `.` for a dead one. The update rule,
//! split into small named conditions, writes into a copy of the board,
//! so the neighbor counts always read the previous generation.

use vstd::prelude::*;

use crate::grid::add_offset;
use crate::life;
use crate::text;

verus! {

/// Side length of the square board.
pub const GRID_SIZE: usize = 8;

/// Glyph of a live cell in the text form.
pub const ALIVE_CHAR: char = 'X';

/// Glyph of a dead cell in the text form.
pub const DEAD_CHAR: char = '.';

/// The state of one cell.
#[derive(Debug, Copy, Clone, PartialEq, Eq, Structural)]
pub enum CellState {
    Dead,
    Alive,
}

impl CellState {
    /// Whether this state is the live one.
    pub open spec fn spec_alive(self) -> bool {
        self == CellState::Alive
    }

    pub fn is_alive(&self) -> (r: bool)
        ensures
            r == self.spec_alive(),
    {
        *self == CellState::Alive
    }
}

/// One of the eight neighbor directions of a cell.
#[derive(Clone, Copy)]
pub enum Direction {
    North,
    NorthEast,
    East,
    SouthEast,
    South,
    SouthWest,
    West,
    NorthWest,
}

impl Direction {
    /// The (row, column) offset of the neighbor in this direction.
    pub open spec fn offset(self) -> (int, int) {
        match self {
            Direction::North => (-1, 0),
            Direction::NorthEast => (-1, 1),
            Direction::East => (0, 1),
            Direction::SouthEast => (1, 1),
            Direction::South => (1, 0),
            Direction::SouthWest => (1, -1),
            Direction::West => (0, -1),
            Direction::NorthWest => (-1, -1),
        }
    }

    pub fn get_coordinates(&self) -> (r: (isize, isize))
        ensures
            r.0 as int == self.offset().0,
            r.1 as int == self.offset().1,
    {
        match self {
            Direction::North => (-1, 0),
            Direction::NorthEast => (-1, 1),
            Direction::East => (0, 1),
            Direction::SouthEast => (1, 1),
            Direction::South => (1, 0),
            Direction::SouthWest => (1, -1),
            Direction::West => (0, -1),
            Direction::NorthWest => (-1, -1),
        }
    }
}

/// A square board of cells, stored row-major.
#[derive(Debug, Clone)]
pub struct Grid {
    pub rows: Vec<Vec<CellState>>,
}

impl View for Grid {
    type V = Seq<Seq<bool>>;

    /// A board is modeled as its matrix of liveness flags.
    open spec fn view(&self) -> Seq<Seq<bool>> {
        Seq::new(self.rows@.len(), |i: int| self.rows@[i]@.map_values(|c: CellState| c.spec_alive()))
    }
}

impl Grid {
    /// A well-formed board: a full square of side `GRID_SIZE`.
    pub open spec fn wf(&self) -> bool {
        life::wf_grid(self@, GRID_SIZE as nat)
    }
}

/// The cell at row `x`, column `y` of the board.
fn cell_at(grid: &Grid, x: usize, y: usize) -> (c: CellState)
    requires
        grid.wf(),
        x < GRID_SIZE,
        y < GRID_SIZE,
    ensures
        c.spec_alive() == grid@[x as int][y as int],
{
    proof {
        assert(grid.rows@.len() == grid@.len());
        assert(grid@[x as int] == grid.rows@[x as int]@.map_values(|c: CellState| c.spec_alive()));
    }
    grid.rows[x][y]
}

/// A fresh board holding the same cells as `grid`.
fn copy_of(grid: &Grid) -> (r: Grid)
    requires
        grid.wf(),
    ensures
        r.wf(),
        r@ == grid@,
{
    let mut rows: Vec<Vec<CellState>> = Vec::new();
    let mut i: usize = 0;
    while i < GRID_SIZE
        invariant
            grid.wf(),
            i <= GRID_SIZE,
            rows@.len() == i,
            forall|p: int| 0 <= p < i ==> (#[trigger] rows@[p])@.len() == GRID_SIZE,
            forall|p: int, q: int|
                0 <= p < i && 0 <= q < GRID_SIZE ==> (#[trigger] rows@[p]@[q]).spec_alive()
                    == grid@[p][q],
        decreases GRID_SIZE - i,
    {
        let mut row: Vec<CellState> = Vec::new();
        let mut j: usize = 0;
        while j < GRID_SIZE
            invariant
                grid.wf(),
                i < GRID_SIZE,
                j <= GRID_SIZE,
                row@.len() == j,
                forall|q: int|
                    0 <= q < j ==> (#[trigger] row@[q]).spec_alive() == grid@[i as int][q],
            decreases GRID_SIZE - j,
        {
            row.push(cell_at(grid, i, j));
            j = j + 1;
        }
        rows.push(row);
        i = i + 1;
    }
    let r = Grid { rows };
    proof {
        assert(r@ =~~= grid@);
    }
    r
}

/// Whether a dead cell with this many live neighbors comes alive.
pub fn is_livable_condition(neighbours: u8) -> (r: bool)
    ensures
        r == (neighbours == 3),
{
    neighbours == 3
}

/// Whether a live cell with this many live neighbors dies of crowding.
pub fn is_overpopulation(neighbours: u8) -> (r: bool)
    ensures
        r == (neighbours > 3),
{
    neighbours > 3
}

/// Whether a live cell with this many live neighbors dies of solitude.
pub fn is_underpopulation(neighbours: u8) -> (r: bool)
    ensures
        r == (neighbours < 2),
{
    neighbours < 2
}

/// Sets the cell at `(x, y)` alive, leaving every other cell alone.
pub fn resurrect(res: &mut Grid, x: usize, y: usize)
    requires
        old(res).wf(),
        x < GRID_SIZE,
        y < GRID_SIZE,
    ensures
        final(res).wf(),
        final(res)@ == old(res)@.update(x as int, old(res)@[x as int].update(y as int, true)),
{
    proof {
        assert(res.rows@.len() == res@.len());
        assert(res@[x as int] == res.rows@[x as int]@.map_values(|c: CellState| c.spec_alive()));
    }
    res.rows[x][y] = CellState::Alive;
    proof {
        assert(res@ =~~= old(res)@.update(x as int, old(res)@[x as int].update(y as int, true)));
    }
}

/// Sets the cell at `(x, y)` dead, leaving every other cell alone.
pub fn die(res: &mut Grid, x: usize, y: usize)
    requires
        old(res).wf(),
        x < GRID_SIZE,
        y < GRID_SIZE,
    ensures
        final(res).wf(),
        final(res)@ == old(res)@.update(x as int, old(res)@[x as int].update(y as int, false)),
{
    proof {
        assert(res.rows@.len() == res@.len());
        assert(res@[x as int] == res.rows@[x as int]@.map_values(|c: CellState| c.spec_alive()));
    }
    res.rows[x][y] = CellState::Dead;
    proof {
        assert(res@ =~~= old(res)@.update(x as int, old(res)@[x as int].update(y as int, false)));
    }
}

/// What the rule writes at one cell of the result board: `alive` and
/// `n` describe the cell in the previous generation, `prev` is what
/// the result board held there before; an untouched cell keeps `prev`.
pub open spec fn rule_write(alive: bool, n: int, prev: bool) -> bool {
    if alive {
        if n < 2 || n > 3 {
            false
        } else {
            prev
        }
    } else {
        if n == 3 {
            true
        } else {
            prev
        }
    }
}

/// Applies the update rule for one cell, writing into `res`: a live
/// cell dies of under- or overpopulation, a dead cell with exactly
/// three live neighbors is born, and otherwise `res` is untouched.
pub fn apply_conways_rules(cell: CellState, neighbours: u8, x: usize, y: usize, res: &mut Grid)
    requires
        old(res).wf(),
        x < GRID_SIZE,
        y < GRID_SIZE,
    ensures
        final(res).wf(),
        final(res)@ == old(res)@.update(
            x as int,
            old(res)@[x as int].update(
                y as int,
                rule_write(cell.spec_alive(), neighbours as int, old(res)@[x as int][y as int]),
            ),
        ),
{
    match cell {
        CellState::Alive => {
            if is_underpopulation(neighbours) || is_overpopulation(neighbours) {
                die(res, x, y);
            }
        },
        CellState::Dead => {
            if is_livable_condition(neighbours) {
                resurrect(res, x, y);
            }
        },
    }
    proof {
        assert(res@ =~~= old(res)@.update(
            x as int,
            old(res)@[x as int].update(
                y as int,
                rule_write(cell.spec_alive(), neighbours as int, old(res)@[x as int][y as int]),
            ),
        ));
    }
}

/// One if the neighbor of `(x, y)` in the given direction lies on the
/// board and is live, zero otherwise. Total in `x` and `y`: positions
/// off the board simply have no live neighbors there.
pub fn count_neighbour(grid: &Grid, x: usize, y: usize, direction: Direction) -> (r: u8)
    requires
        grid.wf(),
    ensures
        r as int == life::b2i(
            life::alive_at(
                grid@,
                x as int + direction.offset().0,
                y as int + direction.offset().1,
            ),
        ),
{
    let increment = direction.get_coordinates();
    let nx = add_offset(x, increment.0);
    let ny = add_offset(y, increment.1);
    match (nx, ny) {
        (Some(px), Some(py)) => {
            if px < GRID_SIZE && py < GRID_SIZE {
                if cell_at(grid, px, py).is_alive() {
                    1
                } else {
                    0
                }
            } else {
                0
            }
        },
        _ => 0,
    }
}

/// The number of live cells among the eight neighbors of `(x, y)`,
/// with positions outside the board counting as dead. Total in `x`
/// and `y`, like the count it computes.
pub fn count_neighbours(grid: &Grid, x: usize, y: usize) -> (n: u8)
    requires
        grid.wf(),
    ensures
        n as int == life::live_neighbors(grid@, x as int, y as int),
{
    let n = count_neighbour(grid, x, y, Direction::North) + count_neighbour(
        grid,
        x,
        y,
        Direction::NorthEast,
    ) + count_neighbour(grid, x, y, Direction::East) + count_neighbour(
        grid,
        x,
        y,
        Direction::SouthEast,
    ) + count_neighbour(grid, x, y, Direction::South) + count_neighbour(
        grid,
        x,
        y,
        Direction::SouthWest,
    ) + count_neighbour(grid, x, y, Direction::West) + count_neighbour(
        grid,
        x,
        y,
        Direction::NorthWest,
    );
    n
}

/// The next generation of the whole board: every cell is replaced
/// according to the update rule, computed entirely from `grid`.
pub fn conway_next_generation(grid: &Grid) -> (r: Grid)
    requires
        grid.wf(),
    ensures
        r.wf(),
        r@ == life::step(grid@),
{
    let mut res = copy_of(grid);
    let mut x: usize = 0;
    while x < GRID_SIZE
        invariant
            grid.wf(),
            res.wf(),
            x <= GRID_SIZE,
            forall|p: int, q: int|
                0 <= p < x && 0 <= q < GRID_SIZE ==> #[trigger] res@[p][q] == life::next_state(
                    grid@[p][q],
                    life::live_neighbors(grid@, p, q),
                ),
            forall|p: int, q: int|
                x <= p < GRID_SIZE && 0 <= q < GRID_SIZE ==> #[trigger] res@[p][q] == grid@[p][q],
        decreases GRID_SIZE - x,
    {
        let mut y: usize = 0;
        while y < GRID_SIZE
            invariant
                grid.wf(),
                res.wf(),
                x < GRID_SIZE,
                y <= GRID_SIZE,
                forall|p: int, q: int|
                    0 <= p < x && 0 <= q < GRID_SIZE ==> #[trigger] res@[p][q] == life::next_state(
                        grid@[p][q],
                        life::live_neighbors(grid@, p, q),
                    ),
                forall|q: int|
                    0 <= q < y ==> #[trigger] res@[x as int][q] == life::next_state(
                        grid@[x as int][q],
                        life::live_neighbors(grid@, x as int, q),
                    ),
                forall|q: int|
                    y <= q < GRID_SIZE ==> #[trigger] res@[x as int][q] == grid@[x as int][q],
                forall|p: int, q: int|
                    x < p < GRID_SIZE && 0 <= q < GRID_SIZE ==> #[trigger] res@[p][q]
                        == grid@[p][q],
            decreases GRID_SIZE - y,
        {
            let cell = cell_at(grid, x, y);
            let neighbours = count_neighbours(grid, x, y);
            apply_conways_rules(cell, neighbours, x, y, &mut res);
            y = y + 1;
        }
        x = x + 1;
    }
    proof {
        assert(res@ =~~= life::step(grid@));
    }
    res
}

/// Whether a character of the text form marks a live cell: every
/// character but the dead glyph does.
pub open spec fn char_alive(c: char) -> bool {
    c != DEAD_CHAR
}

/// The glyph that stands for a cell in the text form.
pub open spec fn glyph_of(b: bool) -> char {
    if b {
        ALIVE_CHAR
    } else {
        DEAD_CHAR
    }
}

/// The board described by a list of text lines: cell `(i, j)` is live
/// exactly when line `i` exists, has a character at column `j`, and
/// that character is not the dead glyph. Missing cells are dead and
/// extra input is ignored.
pub open spec fn grid_of_lines(lines: Seq<Seq<char>>) -> Seq<Seq<bool>> {
    Seq::new(
        GRID_SIZE as nat,
        |i: int|
            Seq::new(
                GRID_SIZE as nat,
                |j: int| i < lines.len() && j < lines[i].len() && char_alive(lines[i][j]),
            ),
    )
}

/// The board parsed from a string: its lines, read as `grid_of_lines`.
pub open spec fn parse_chars(s: Seq<char>) -> Seq<Seq<bool>> {
    grid_of_lines(text::split_lines(s))
}

/// The glyphs of one row of the board.
pub open spec fn row_chars(row: Seq<bool>) -> Seq<char> {
    row.map_values(|b: bool| glyph_of(b))
}

/// The glyphs of every row of the board.
pub open spec fn rows_chars(g: Seq<Seq<bool>>) -> Seq<Seq<char>> {
    g.map_values(|r: Seq<bool>| row_chars(r))
}

/// The text form of a board: one line of glyphs per row, each row
/// followed by a newline.
pub open spec fn format_chars(g: Seq<Seq<bool>>) -> Seq<char> {
    text::join_lines(rows_chars(g))
}

/// The board described by the given text; parsing never fails,
/// whatever the input holds.
pub fn parser(grid: &str) -> (g: Grid)
    ensures
        g.wf(),
        g@ == parse_chars(grid@),
{
    let lines = text::split_lines_exec(grid);
    let g = parser_slice(&lines);
    proof {
        assert(g@ =~~= parse_chars(grid@));
    }
    g
}

/// The board described by a list of lines, as `grid_of_lines` says.
pub fn parser_slice(lines: &Vec<String>) -> (g: Grid)
    ensures
        g.wf(),
        g@ == grid_of_lines(text::views_of(lines@)),
{
    let mut rows: Vec<Vec<CellState>> = Vec::new();
    let mut i: usize = 0;
    while i < GRID_SIZE
        invariant
            i <= GRID_SIZE,
            rows@.len() == i,
            forall|p: int| 0 <= p < i ==> (#[trigger] rows@[p])@.len() == GRID_SIZE,
            forall|p: int, q: int|
                0 <= p < i && 0 <= q < GRID_SIZE ==> (#[trigger] rows@[p]@[q]).spec_alive() == (p
                    < lines@.len() && q < lines@[p]@.len() && char_alive(lines@[p]@[q])),
        decreases GRID_SIZE - i,
    {
        let mut row: Vec<CellState> = Vec::new();
        if i < lines.len() {
            let line: &String = &lines[i];
            let m = line.as_str().unicode_len();
            let mut j: usize = 0;
            while j < GRID_SIZE
                invariant
                    i < lines@.len(),
                    line@ == lines@[i as int]@,
                    m == lines@[i as int]@.len(),
                    j <= GRID_SIZE,
                    row@.len() == j,
                    forall|q: int|
                        0 <= q < j ==> (#[trigger] row@[q]).spec_alive() == (q < lines@[i as int]@.len()
                            && char_alive(lines@[i as int]@[q])),
                decreases GRID_SIZE - j,
            {
                let alive = if j < m {
                    let c = line.as_str().get_char(j);
                    c != DEAD_CHAR
                } else {
                    false
                };
                row.push(
                    if alive {
                        CellState::Alive
                    } else {
                        CellState::Dead
                    },
                );
                j = j + 1;
            }
        } else {
            let mut j: usize = 0;
            while j < GRID_SIZE
                invariant
                    i >= lines@.len(),
                    j <= GRID_SIZE,
                    row@.len() == j,
                    forall|q: int| 0 <= q < j ==> !(#[trigger] row@[q]).spec_alive(),
                decreases GRID_SIZE - j,
            {
                row.push(CellState::Dead);
                j = j + 1;
            }
        }
        rows.push(row);
        i = i + 1;
    }
    let g = Grid { rows };
    proof {
        assert(g@ =~~= grid_of_lines(text::views_of(lines@)));
    }
    g
}

/// The text form of a board: `GRID_SIZE` lines of `GRID_SIZE` glyphs,
/// each line closed by a newline.
pub fn format_grid(grid: &Grid) -> (r: String)
    requires
        grid.wf(),
    ensures
        r@ == format_chars(grid@),
{
    let mut out = String::new();
    let mut i: usize = 0;
    proof {
        assert(rows_chars(grid@.take(0)) =~= Seq::<Seq<char>>::empty());
        assert(out@ =~= format_chars(grid@.take(0)));
    }
    while i < GRID_SIZE
        invariant
            grid.wf(),
            i <= GRID_SIZE,
            out@ == format_chars(grid@.take(i as int)),
        decreases GRID_SIZE - i,
    {
        let ghost prefix = out@;
        let mut j: usize = 0;
        while j < GRID_SIZE
            invariant
                grid.wf(),
                i < GRID_SIZE,
                j <= GRID_SIZE,
                out@ == prefix + row_chars(grid@[i as int]).take(j as int),
            decreases GRID_SIZE - j,
        {
            let cell = cell_at(grid, i, j);
            let c = if cell.is_alive() {
                ALIVE_CHAR
            } else {
                DEAD_CHAR
            };
            proof {
                assert(c == glyph_of(grid@[i as int][j as int]));
                assert(row_chars(grid@[i as int]).take(j as int + 1) =~= row_chars(
                    grid@[i as int],
                ).take(j as int).push(c));
            }
            text::push_char(&mut out, c);
            proof {
                assert(out@ =~= prefix + row_chars(grid@[i as int]).take(j as int + 1));
            }
            j = j + 1;
        }
        text::push_char(&mut out, '\n');
        proof {
            assert(row_chars(grid@[i as int]).take(GRID_SIZE as int) =~= row_chars(
                grid@[i as int],
            ));
            text::lemma_join_lines_push(rows_chars(grid@.take(i as int)), row_chars(grid@[i as int]));
            assert(rows_chars(grid@.take(i as int)).push(row_chars(grid@[i as int])) =~= rows_chars(
                grid@.take(i as int + 1),
            ));
            assert(out@ =~= format_chars(grid@.take(i as int + 1)));
        }
        i = i + 1;
    }
    proof {
        assert(grid@.take(GRID_SIZE as int) =~= grid@);
    }
    out
}

/// The round-trip law: parsing the text form of any well-formed board
/// gives the board back.
pub proof fn lemma_parser_format_roundtrip(g: Seq<Seq<bool>>)
    requires
        life::wf_grid(g, GRID_SIZE as nat),
    ensures
        parse_chars(format_chars(g)) == g,
{
    let rows = rows_chars(g);
    assert forall|i: int| 0 <= i < rows.len() implies !(#[trigger] rows[i]).contains('\n') by {
        if rows[i].contains('\n') {
            let k = choose|k: int| 0 <= k < rows[i].len() && rows[i][k] == '\n';
            assert(rows[i][k] == glyph_of(g[i][k]));
        }
    }
    assert forall|i: int| 0 <= i < rows.len() implies text::strip_cr(#[trigger] rows[i]) == rows[i]
        by {
        assert(rows[i].last() == glyph_of(g[i][GRID_SIZE - 1]));
    }
    text::lemma_split_join(rows);
    assert forall|i: int, j: int|
        0 <= i < GRID_SIZE && 0 <= j < GRID_SIZE implies parse_chars(format_chars(g))[i][j] == g[i][j]
        by {
        assert(rows[i][j] == glyph_of(g[i][j]));
    }
    assert(parse_chars(format_chars(g)) =~~= g);
}

/// Structural equality of two boards, cell by cell.
fn grid_eq(a: &Grid, b: &Grid) -> (r: bool)
    ensures
        r == (a@ == b@),
{
    if a.rows.len() != b.rows.len() {
        return false;
    }
    let n = a.rows.len();
    let mut i: usize = 0;
    while i < n
        invariant
            n == a.rows@.len(),
            n == b.rows@.len(),
            i <= n,
            forall|p: int| 0 <= p < i ==> a@[p] == b@[p],
        decreases n - i,
    {
        let ra = &a.rows[i];
        let rb = &b.rows[i];
        if ra.len() != rb.len() {
            proof {
                assert(a@[i as int].len() != b@[i as int].len());
            }
            return false;
        }
        let m = ra.len();
        let mut j: usize = 0;
        while j < m
            invariant
                i < a.rows@.len(),
                i < b.rows@.len(),
                ra@ == a.rows@[i as int]@,
                rb@ == b.rows@[i as int]@,
                m == a.rows@[i as int]@.len(),
                m == b.rows@[i as int]@.len(),
                j <= m,
                forall|q: int| 0 <= q < j ==> a@[i as int][q] == b@[i as int][q],
            decreases m - j,
        {
            let ca = ra[j];
            let cb = rb[j];
            if ca.is_alive() != cb.is_alive() {
                proof {
                    assert(a@[i as int][j as int] != b@[i as int][j as int]);
                }
                return false;
            }
            j = j + 1;
        }
        proof {
            assert(a@[i as int] =~= b@[i as int]);
        }
        i = i + 1;
    }
    proof {
        assert(a@ =~~= b@);
    }
    true
}

impl PartialEq for Grid {
    fn eq(&self, other: &Grid) -> (r: bool) {
        grid_eq(self, other)
    }
}

impl vstd::std_specs::cmp::PartialEqSpecImpl for Grid {
    open spec fn obeys_eq_spec() -> bool {
        true
    }

    open spec fn eq_spec(&self, other: &Grid) -> bool {
        self@ == other@
    }
}

impl Default for Grid {
    /// The board with every cell dead.
    fn default() -> (g: Grid)
        ensures
            g.wf(),
            g@ == life::dead_grid(GRID_SIZE as nat),
    {
        let mut rows: Vec<Vec<CellState>> = Vec::new();
        let mut i: usize = 0;
        while i < GRID_SIZE
            invariant
                i <= GRID_SIZE,
                rows@.len() == i,
                forall|p: int| 0 <= p < i ==> (#[trigger] rows@[p])@.len() == GRID_SIZE,
                forall|p: int, q: int|
                    0 <= p < i && 0 <= q < GRID_SIZE ==> !(#[trigger] rows@[p]@[q]).spec_alive(),
            decreases GRID_SIZE - i,
        {
            let mut row: Vec<CellState> = Vec::new();
            let mut j: usize = 0;
            while j < GRID_SIZE
                invariant
                    j <= GRID_SIZE,
                    row@.len() == j,
                    forall|q: int| 0 <= q < j ==> !(#[trigger] row@[q]).spec_alive(),
                decreases GRID_SIZE - j,
            {
                row.push(CellState::Dead);
                j = j + 1;
            }
            rows.push(row);
            i = i + 1;
        }
        let g = Grid { rows };
        proof {
            assert(g@ =~~= life::dead_grid(GRID_SIZE as nat));
        }
        g
    }
}

} // verus!
