//! The mathematical model of a Game of Life board: a square grid of
//! liveness flags, the neighbor count with hard (non-toroidal) edges,
//! and the fixed update rule, together with the laws the rule obeys.

use vstd::prelude::*;

verus! {

/// A well-formed board model: an `n`-by-`n` matrix of liveness flags.
pub open spec fn wf_grid(g: Seq<Seq<bool>>, n: nat) -> bool {
    &&& g.len() == n
    &&& forall|i: int| 0 <= i < g.len() ==> (#[trigger] g[i]).len() == n
}

/// Whether `(i, j)` lies on the board and holds a live cell.
/// Out-of-range coordinates count as dead: the edges do not wrap.
pub open spec fn alive_at(g: Seq<Seq<bool>>, i: int, j: int) -> bool {
    0 <= i < g.len() && 0 <= j < g[i].len() && g[i][j]
}

/// One if the flag is set, zero otherwise.
pub open spec fn b2i(b: bool) -> int {
    if b {
        1
    } else {
        0
    }
}

/// How many of the 8 cells adjacent to `(i, j)` are on the board and live.
pub open spec fn live_neighbors(g: Seq<Seq<bool>>, i: int, j: int) -> int {
    b2i(alive_at(g, i - 1, j)) + b2i(alive_at(g, i - 1, j + 1)) + b2i(alive_at(g, i, j + 1)) + b2i(
        alive_at(g, i + 1, j + 1),
    ) + b2i(alive_at(g, i + 1, j)) + b2i(alive_at(g, i + 1, j - 1)) + b2i(alive_at(g, i, j - 1))
        + b2i(alive_at(g, i - 1, j - 1))
}

/// The update rule for one cell: a live cell survives with 2 or 3 live
/// neighbors, a dead cell is born with exactly 3, and every other cell
/// is dead in the next generation.
pub open spec fn next_state(alive: bool, neighbors: int) -> bool {
    if alive {
        neighbors == 2 || neighbors == 3
    } else {
        neighbors == 3
    }
}

/// One generation step: every cell is replaced by the rule applied to
/// its old state and its old neighbor count, so no cell of the new
/// board influences another cell of the same step.
pub open spec fn step(g: Seq<Seq<bool>>) -> Seq<Seq<bool>> {
    Seq::new(
        g.len(),
        |i: int| Seq::new(g[i].len(), |j: int| next_state(g[i][j], live_neighbors(g, i, j))),
    )
}

/// The `n`-by-`n` board with every cell dead.
pub open spec fn dead_grid(n: nat) -> Seq<Seq<bool>> {
    Seq::new(n, |i: int| Seq::new(n, |j: int| false))
}

/// The all-dead board is a fixed point: a step changes nothing.
pub proof fn lemma_dead_grid_stable(n: nat)
    ensures
        step(dead_grid(n)) == dead_grid(n),
{
    assert(step(dead_grid(n)) =~~= dead_grid(n));
}

/// Underpopulation: a live cell with fewer than two live neighbors dies.
pub proof fn lemma_underpopulation(g: Seq<Seq<bool>>, i: int, j: int)
    requires
        0 <= i < g.len(),
        0 <= j < g[i].len(),
        g[i][j],
        live_neighbors(g, i, j) < 2,
    ensures
        !step(g)[i][j],
{
}

/// Overpopulation: a live cell with four or more live neighbors dies.
pub proof fn lemma_overpopulation(g: Seq<Seq<bool>>, i: int, j: int)
    requires
        0 <= i < g.len(),
        0 <= j < g[i].len(),
        g[i][j],
        live_neighbors(g, i, j) >= 4,
    ensures
        !step(g)[i][j],
{
}

/// Survival: a live cell with two or three live neighbors lives on.
pub proof fn lemma_survival(g: Seq<Seq<bool>>, i: int, j: int)
    requires
        0 <= i < g.len(),
        0 <= j < g[i].len(),
        g[i][j],
        live_neighbors(g, i, j) == 2 || live_neighbors(g, i, j) == 3,
    ensures
        step(g)[i][j],
{
}

/// Birth: a dead cell comes alive exactly when it has three live
/// neighbors; with any other count it stays dead.
pub proof fn lemma_birth(g: Seq<Seq<bool>>, i: int, j: int)
    requires
        0 <= i < g.len(),
        0 <= j < g[i].len(),
        !g[i][j],
    ensures
        step(g)[i][j] <==> live_neighbors(g, i, j) == 3,
{
}

/// The `n`-by-`n` board whose only live cells are the 2-by-2 block with
/// top-left corner `(r, c)`.
pub open spec fn block_grid(n: nat, r: int, c: int) -> Seq<Seq<bool>> {
    Seq::new(n, |i: int| Seq::new(n, |j: int| (i == r || i == r + 1) && (j == c || j == c + 1)))
}

/// A 2-by-2 block standing alone is a still life: each of its cells has
/// exactly three live neighbors, and a step leaves the board unchanged.
pub proof fn lemma_block_still_life(n: nat, r: int, c: int)
    requires
        0 <= r,
        r + 1 < n,
        0 <= c,
        c + 1 < n,
    ensures
        forall|i: int, j: int|
            (i == r || i == r + 1) && (j == c || j == c + 1) ==> live_neighbors(
                block_grid(n, r, c),
                i,
                j,
            ) == 3,
        step(block_grid(n, r, c)) == block_grid(n, r, c),
{
    assert(step(block_grid(n, r, c)) =~~= block_grid(n, r, c));
}

} // verus!
