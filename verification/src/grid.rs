//! A 16-by-16 Game of Life board with `o` for a live cell and `.` for
//! a dead one. Construction is random or by parsing text; a generation
//! step builds a fresh board, so the neighbor scan never reads a
//! partially updated state.

use vstd::prelude::*;

use crate::life;
use crate::text;

verus! {

/// Side length of the square board.
pub const GRID_SIZE: usize = 16;

/// Glyph of a live cell in the text form.
pub const ALIVE_CHAR: char = 'o';

/// Glyph of a dead cell in the text form.
pub const DEAD_CHAR: char = '.';

/// The state of one cell.
#[derive(Debug, Copy, Clone, PartialEq, Eq, Structural)]
pub enum CellState {
    Dead,
    Alive,
}

impl CellState {
    /// Whether this state is the live one.
    pub open spec fn spec_alive(self) -> bool {
        self == CellState::Alive
    }

    pub fn is_alive(&self) -> (r: bool)
        ensures
            r == self.spec_alive(),
    {
        *self == CellState::Alive
    }

    /// The state of this cell in the next generation, given its count
    /// of live neighbors.
    pub fn next(self, neighbours: u8) -> (r: Self)
        ensures
            r.spec_alive() == life::next_state(self.spec_alive(), neighbours as int),
    {
        match (self, neighbours) {
            (CellState::Alive, 2) | (CellState::Alive, 3) => CellState::Alive,
            (CellState::Dead, 3) => CellState::Alive,
            _ => CellState::Dead,
        }
    }

    /// A state drawn uniformly at random; nothing is known of the
    /// outcome of any one draw.
    pub fn random() -> Self {
        match random_bool() {
            false => CellState::Dead,
            true => CellState::Alive,
        }
    }
}

/// Relies on `rand::random::<bool>`: one draw from the process-wide
/// generator. Nothing can be promised of a random outcome.
#[verifier::external_body]
fn random_bool() -> bool {
    rand::random::<bool>()
}

/// One of the eight neighbor directions of a cell.
#[derive(Clone, Copy)]
pub enum Direction {
    North,
    NorthEast,
    East,
    SouthEast,
    South,
    SouthWest,
    West,
    NorthWest,
}

impl Direction {
    /// The (row, column) offset of the neighbor in this direction.
    pub open spec fn offset(self) -> (int, int) {
        match self {
            Direction::North => (-1, 0),
            Direction::NorthEast => (-1, 1),
            Direction::East => (0, 1),
            Direction::SouthEast => (1, 1),
            Direction::South => (1, 0),
            Direction::SouthWest => (1, -1),
            Direction::West => (0, -1),
            Direction::NorthWest => (-1, -1),
        }
    }

    pub fn get_coordinates(&self) -> (r: (isize, isize))
        ensures
            r.0 as int == self.offset().0,
            r.1 as int == self.offset().1,
    {
        match self {
            Direction::North => (-1, 0),
            Direction::NorthEast => (-1, 1),
            Direction::East => (0, 1),
            Direction::SouthEast => (1, 1),
            Direction::South => (1, 0),
            Direction::SouthWest => (1, -1),
            Direction::West => (0, -1),
            Direction::NorthWest => (-1, -1),
        }
    }
}

/// A square board of cells, stored row-major.
#[derive(Debug, Clone)]
pub struct Grid {
    cells: Vec<Vec<CellState>>,
}

impl View for Grid {
    type V = Seq<Seq<bool>>;

    /// A board is modeled as its matrix of liveness flags.
    closed spec fn view(&self) -> Seq<Seq<bool>> {
        Seq::new(self.cells@.len(), |i: int| self.cells@[i]@.map_values(|c: CellState| c.spec_alive()))
    }
}

/// Whether a character of the text form marks a live cell: every
/// character but the dead glyph does.
pub open spec fn char_alive(c: char) -> bool {
    c != DEAD_CHAR
}

/// The glyph that stands for a cell in the text form.
pub open spec fn glyph_of(b: bool) -> char {
    if b {
        ALIVE_CHAR
    } else {
        DEAD_CHAR
    }
}

/// The board described by a list of text lines: cell `(i, j)` is live
/// exactly when line `i` exists, has a character at column `j`, and
/// that character is not the dead glyph. Missing cells are dead and
/// extra input is ignored.
pub open spec fn grid_of_lines(lines: Seq<Seq<char>>) -> Seq<Seq<bool>> {
    Seq::new(
        GRID_SIZE as nat,
        |i: int|
            Seq::new(
                GRID_SIZE as nat,
                |j: int| i < lines.len() && j < lines[i].len() && char_alive(lines[i][j]),
            ),
    )
}

/// The board parsed from a string: its lines, read as `grid_of_lines`.
pub open spec fn parse_chars(s: Seq<char>) -> Seq<Seq<bool>> {
    grid_of_lines(text::split_lines(s))
}

/// The glyphs of one row of the board.
pub open spec fn row_chars(row: Seq<bool>) -> Seq<char> {
    row.map_values(|b: bool| glyph_of(b))
}

/// The glyphs of every row of the board.
pub open spec fn rows_chars(g: Seq<Seq<bool>>) -> Seq<Seq<char>> {
    g.map_values(|r: Seq<bool>| row_chars(r))
}

/// The text form of a board: one line of glyphs per row, each row
/// followed by a newline.
pub open spec fn format_chars(g: Seq<Seq<bool>>) -> Seq<char> {
    text::join_lines(rows_chars(g))
}

impl Grid {
    /// A well-formed board: a full square of side `GRID_SIZE`.
    pub open spec fn wf(&self) -> bool {
        life::wf_grid(self@, GRID_SIZE as nat)
    }

    /// A board whose cells are drawn independently at random.
    pub fn random() -> (g: Grid)
        ensures
            g.wf(),
    {
        let mut cells: Vec<Vec<CellState>> = Vec::new();
        let mut i: usize = 0;
        while i < GRID_SIZE
            invariant
                i <= GRID_SIZE,
                cells@.len() == i,
                forall|p: int| 0 <= p < i ==> (#[trigger] cells@[p])@.len() == GRID_SIZE,
            decreases GRID_SIZE - i,
        {
            let mut row: Vec<CellState> = Vec::new();
            let mut j: usize = 0;
            while j < GRID_SIZE
                invariant
                    j <= GRID_SIZE,
                    row@.len() == j,
                decreases GRID_SIZE - j,
            {
                row.push(CellState::random());
                j = j + 1;
            }
            cells.push(row);
            i = i + 1;
        }
        let g = Grid { cells };
        proof {
            assert(forall|p: int| 0 <= p < GRID_SIZE ==> (#[trigger] g@[p]).len() == GRID_SIZE);
        }
        g
    }

    /// The next generation: every cell is replaced according to the
    /// update rule, computed entirely from this board.
    pub fn next(&self) -> (r: Grid)
        requires
            self.wf(),
        ensures
            r.wf(),
            r@ == life::step(self@),
    {
        let mut cells: Vec<Vec<CellState>> = Vec::new();
        let mut i: usize = 0;
        while i < GRID_SIZE
            invariant
                self.wf(),
                i <= GRID_SIZE,
                cells@.len() == i,
                forall|p: int| 0 <= p < i ==> (#[trigger] cells@[p])@.len() == GRID_SIZE,
                forall|p: int, q: int|
                    0 <= p < i && 0 <= q < GRID_SIZE ==> (#[trigger] cells@[p]@[q]).spec_alive()
                        == life::next_state(self@[p][q], life::live_neighbors(self@, p, q)),
            decreases GRID_SIZE - i,
        {
            let mut row: Vec<CellState> = Vec::new();
            let mut j: usize = 0;
            while j < GRID_SIZE
                invariant
                    self.wf(),
                    i < GRID_SIZE,
                    j <= GRID_SIZE,
                    row@.len() == j,
                    forall|q: int|
                        0 <= q < j ==> (#[trigger] row@[q]).spec_alive() == life::next_state(
                            self@[i as int][q],
                            life::live_neighbors(self@, i as int, q),
                        ),
                decreases GRID_SIZE - j,
            {
                let neighbours = self.count_alive_neighbours(i, j);
                let cell = self.cell_at(i, j);
                row.push(cell.next(neighbours));
                j = j + 1;
            }
            cells.push(row);
            i = i + 1;
        }
        let g = Grid { cells };
        proof {
            assert(g@ =~~= life::step(self@));
        }
        g
    }

    /// The cell at row `x`, column `y`.
    fn cell_at(&self, x: usize, y: usize) -> (c: CellState)
        requires
            self.wf(),
            x < GRID_SIZE,
            y < GRID_SIZE,
        ensures
            c.spec_alive() == self@[x as int][y as int],
    {
        proof {
            assert(self.cells@.len() == self@.len());
            assert(self@[x as int] == self.cells@[x as int]@.map_values(
                |c: CellState| c.spec_alive(),
            ));
        }
        self.cells[x][y]
    }

    /// The number of live cells among the eight neighbors of `(x, y)`,
    /// with positions outside the board counting as dead.
    fn count_alive_neighbours(&self, x: usize, y: usize) -> (n: u8)
        requires
            self.wf(),
            x < GRID_SIZE,
            y < GRID_SIZE,
        ensures
            n as int == life::live_neighbors(self@, x as int, y as int),
    {
        let mut n: u8 = 0;
        if self.neighbour_alive(x, y, Direction::North) {
            n = n + 1;
        }
        if self.neighbour_alive(x, y, Direction::NorthEast) {
            n = n + 1;
        }
        if self.neighbour_alive(x, y, Direction::East) {
            n = n + 1;
        }
        if self.neighbour_alive(x, y, Direction::SouthEast) {
            n = n + 1;
        }
        if self.neighbour_alive(x, y, Direction::South) {
            n = n + 1;
        }
        if self.neighbour_alive(x, y, Direction::SouthWest) {
            n = n + 1;
        }
        if self.neighbour_alive(x, y, Direction::West) {
            n = n + 1;
        }
        if self.neighbour_alive(x, y, Direction::NorthWest) {
            n = n + 1;
        }
        n
    }

    /// Whether the neighbor of `(x, y)` in direction `d` lies on the
    /// board and is live.
    fn neighbour_alive(&self, x: usize, y: usize, d: Direction) -> (r: bool)
        requires
            self.wf(),
            x < GRID_SIZE,
            y < GRID_SIZE,
        ensures
            r == life::alive_at(self@, x as int + d.offset().0, y as int + d.offset().1),
    {
        let (dx, dy) = d.get_coordinates();
        let nx = add_offset(x, dx);
        let ny = add_offset(y, dy);
        match (nx, ny) {
            (Some(px), Some(py)) => {
                if px < GRID_SIZE && py < GRID_SIZE {
                    self.cell_at(px, py).is_alive()
                } else {
                    false
                }
            },
            _ => false,
        }
    }

    /// The board described by the given text, line by line; parsing
    /// never fails, whatever the input holds.
    pub fn parse(s: &str) -> (g: Grid)
        ensures
            g.wf(),
            g@ == parse_chars(s@),
    {
        let lines = text::split_lines_exec(s);
        let g = Self::from_lines(&lines);
        proof {
            assert(g@ =~~= parse_chars(s@));
        }
        g
    }

    /// The board described by a list of lines, as `grid_of_lines` says.
    fn from_lines(lines: &Vec<String>) -> (g: Grid)
        ensures
            g.wf(),
            g@ == grid_of_lines(text::views_of(lines@)),
    {
        let mut cells: Vec<Vec<CellState>> = Vec::new();
        let mut i: usize = 0;
        while i < GRID_SIZE
            invariant
                i <= GRID_SIZE,
                cells@.len() == i,
                forall|p: int| 0 <= p < i ==> (#[trigger] cells@[p])@.len() == GRID_SIZE,
                forall|p: int, q: int|
                    0 <= p < i && 0 <= q < GRID_SIZE ==> (#[trigger] cells@[p]@[q]).spec_alive()
                        == (p < lines@.len() && q < lines@[p]@.len() && char_alive(lines@[p]@[q])),
            decreases GRID_SIZE - i,
        {
            let mut row: Vec<CellState> = Vec::new();
            if i < lines.len() {
                let line: &String = &lines[i];
                let m = line.as_str().unicode_len();
                let mut j: usize = 0;
                while j < GRID_SIZE
                    invariant
                        i < lines@.len(),
                        line@ == lines@[i as int]@,
                        m == lines@[i as int]@.len(),
                        j <= GRID_SIZE,
                        row@.len() == j,
                        forall|q: int|
                            0 <= q < j ==> (#[trigger] row@[q]).spec_alive() == (q < lines@[i as int]@.len()
                                && char_alive(lines@[i as int]@[q])),
                    decreases GRID_SIZE - j,
                {
                    let alive = if j < m {
                        let c = line.as_str().get_char(j);
                        c != DEAD_CHAR
                    } else {
                        false
                    };
                    row.push(
                        if alive {
                            CellState::Alive
                        } else {
                            CellState::Dead
                        },
                    );
                    j = j + 1;
                }
            } else {
                let mut j: usize = 0;
                while j < GRID_SIZE
                    invariant
                        i >= lines@.len(),
                        j <= GRID_SIZE,
                        row@.len() == j,
                        forall|q: int| 0 <= q < j ==> !(#[trigger] row@[q]).spec_alive(),
                    decreases GRID_SIZE - j,
                {
                    row.push(CellState::Dead);
                    j = j + 1;
                }
            }
            cells.push(row);
            i = i + 1;
        }
        let g = Grid { cells };
        proof {
            assert(g@ =~~= grid_of_lines(text::views_of(lines@)));
        }
        g
    }

    /// The text form of this board: `GRID_SIZE` lines of `GRID_SIZE`
    /// glyphs, each line closed by a newline.
    pub fn format(&self) -> (r: String)
        requires
            self.wf(),
        ensures
            r@ == format_chars(self@),
    {
        let mut out = String::new();
        let mut i: usize = 0;
        proof {
            assert(rows_chars(self@.take(0)) =~= Seq::<Seq<char>>::empty());
            assert(out@ =~= format_chars(self@.take(0)));
        }
        while i < GRID_SIZE
            invariant
                self.wf(),
                i <= GRID_SIZE,
                out@ == format_chars(self@.take(i as int)),
            decreases GRID_SIZE - i,
        {
            let ghost prefix = out@;
            let mut j: usize = 0;
            while j < GRID_SIZE
                invariant
                    self.wf(),
                    i < GRID_SIZE,
                    j <= GRID_SIZE,
                    out@ == prefix + row_chars(self@[i as int]).take(j as int),
                decreases GRID_SIZE - j,
            {
                let cell = self.cells[i][j];
                let c = if cell.is_alive() {
                    ALIVE_CHAR
                } else {
                    DEAD_CHAR
                };
                proof {
                    assert(c == glyph_of(self@[i as int][j as int]));
                    assert(row_chars(self@[i as int]).take(j as int + 1) =~= row_chars(
                        self@[i as int],
                    ).take(j as int).push(c));
                }
                text::push_char(&mut out, c);
                proof {
                    assert(out@ =~= prefix + row_chars(self@[i as int]).take(j as int + 1));
                }
                j = j + 1;
            }
            text::push_char(&mut out, '\n');
            proof {
                assert(row_chars(self@[i as int]).take(GRID_SIZE as int) =~= row_chars(
                    self@[i as int],
                ));
                text::lemma_join_lines_push(rows_chars(self@.take(i as int)), row_chars(self@[i as int]));
                assert(rows_chars(self@.take(i as int)).push(row_chars(self@[i as int])) =~= rows_chars(
                    self@.take(i as int + 1),
                ));
                assert(out@ =~= format_chars(self@.take(i as int + 1)));
            }
            i = i + 1;
        }
        proof {
            assert(self@.take(GRID_SIZE as int) =~= self@);
        }
        out
    }

    /// The round-trip law: parsing the text form of any well-formed
    /// board gives the board back.
    pub proof fn lemma_parse_format_roundtrip(g: Seq<Seq<bool>>)
        requires
            life::wf_grid(g, GRID_SIZE as nat),
        ensures
            parse_chars(format_chars(g)) == g,
    {
        let rows = rows_chars(g);
        assert forall|i: int| 0 <= i < rows.len() implies !(#[trigger] rows[i]).contains('\n') by {
            if rows[i].contains('\n') {
                let k = choose|k: int| 0 <= k < rows[i].len() && rows[i][k] == '\n';
                assert(rows[i][k] == glyph_of(g[i][k]));
            }
        }
        assert forall|i: int| 0 <= i < rows.len() implies text::strip_cr(#[trigger] rows[i])
            == rows[i] by {
            assert(rows[i].last() == glyph_of(g[i][GRID_SIZE - 1]));
        }
        text::lemma_split_join(rows);
        assert forall|i: int, j: int|
            0 <= i < GRID_SIZE && 0 <= j < GRID_SIZE implies parse_chars(format_chars(g))[i][j]
            == g[i][j] by {
            assert(rows[i][j] == glyph_of(g[i][j]));
        }
        assert(parse_chars(format_chars(g)) =~~= g);
    }
}

/// Structural equality of two boards, cell by cell.
fn grid_eq(a: &Grid, b: &Grid) -> (r: bool)
    ensures
        r == (a@ == b@),
{
    if a.cells.len() != b.cells.len() {
        return false;
    }
    let n = a.cells.len();
    let mut i: usize = 0;
    while i < n
        invariant
            n == a.cells@.len(),
            n == b.cells@.len(),
            i <= n,
            forall|p: int| 0 <= p < i ==> a@[p] == b@[p],
        decreases n - i,
    {
        let ra = &a.cells[i];
        let rb = &b.cells[i];
        if ra.len() != rb.len() {
            proof {
                assert(a@[i as int].len() != b@[i as int].len());
            }
            return false;
        }
        let m = ra.len();
        let mut j: usize = 0;
        while j < m
            invariant
                i < a.cells@.len(),
                i < b.cells@.len(),
                ra@ == a.cells@[i as int]@,
                rb@ == b.cells@[i as int]@,
                m == a.cells@[i as int]@.len(),
                m == b.cells@[i as int]@.len(),
                j <= m,
            forall|q: int| 0 <= q < j ==> a@[i as int][q] == b@[i as int][q],
            decreases m - j,
        {
            let ca = ra[j];
            let cb = rb[j];
            if ca.is_alive() != cb.is_alive() {
                proof {
                    assert(a@[i as int][j as int] != b@[i as int][j as int]);
                }
                return false;
            }
            j = j + 1;
        }
        proof {
            assert(a@[i as int] =~= b@[i as int]);
        }
        i = i + 1;
    }
    proof {
        assert(a@ =~~= b@);
    }
    true
}

impl PartialEq for Grid {
    fn eq(&self, other: &Grid) -> (r: bool) {
        grid_eq(self, other)
    }
}

impl vstd::std_specs::cmp::PartialEqSpecImpl for Grid {
    open spec fn obeys_eq_spec() -> bool {
        true
    }

    open spec fn eq_spec(&self, other: &Grid) -> bool {
        self@ == other@
    }
}

impl Default for Grid {
    /// The board with every cell dead.
    fn default() -> (g: Grid)
        ensures
            g.wf(),
            g@ == life::dead_grid(GRID_SIZE as nat),
    {
        let mut cells: Vec<Vec<CellState>> = Vec::new();
        let mut i: usize = 0;
        while i < GRID_SIZE
            invariant
                i <= GRID_SIZE,
                cells@.len() == i,
                forall|p: int| 0 <= p < i ==> (#[trigger] cells@[p])@.len() == GRID_SIZE,
                forall|p: int, q: int|
                    0 <= p < i && 0 <= q < GRID_SIZE ==> !(#[trigger] cells@[p]@[q]).spec_alive(),
            decreases GRID_SIZE - i,
        {
            let mut row: Vec<CellState> = Vec::new();
            let mut j: usize = 0;
            while j < GRID_SIZE
                invariant
                    j <= GRID_SIZE,
                    row@.len() == j,
                    forall|q: int| 0 <= q < j ==> !(#[trigger] row@[q]).spec_alive(),
                decreases GRID_SIZE - j,
            {
                row.push(CellState::Dead);
                j = j + 1;
            }
            cells.push(row);
            i = i + 1;
        }
        let g = Grid { cells };
        proof {
            assert(g@ =~~= life::dead_grid(GRID_SIZE as nat));
        }
        g
    }
}

impl core::str::FromStr for Grid {
    type Err = ();

    /// Parsing never fails: every string, however malformed, gives a
    /// well-formed board, as `parse` describes it.
    fn from_str(s: &str) -> (r: Result<Grid, ()>)
        ensures
            r matches Ok(g) && g.wf() && g@ == parse_chars(s@),
    {
        Ok(Grid::parse(s))
    }
}

/// Moving one step off `x`: the coordinate beside it, or `None` when
/// that would leave the unsigned range.
pub(crate) fn add_offset(x: usize, d: isize) -> (r: Option<usize>)
    requires
        -1 <= d <= 1,
    ensures
        (match r {
            Some(v) => v as int == x as int + d,
            None => x as int + d < 0 || x as int + d > usize::MAX as int,
        }),
{
    if d < 0 {
        if x == 0 {
            None
        } else {
            Some(x - 1)
        }
    } else if d > 0 {
        if x == usize::MAX {
            None
        } else {
            Some(x + 1)
        }
    } else {
        Some(x)
    }
}

} // verus!
