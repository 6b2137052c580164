//! Conway's Game of Life on a fixed-size square grid.
//!
//! The grid holds cells that are alive or dead; a live cell may carry a
//! cosmetic color chosen from a small palette. Generations are advanced by a
//! two-phase protocol: the rules are evaluated against a snapshot of the
//! whole grid, collected as a list of deltas, and only then applied, so that
//! no cell ever sees a neighbor that was already updated in the same pass.

use rand::Rng;
use vstd::prelude::*;

verus! {

/// Side length of the default board.
pub const GRID_SIZE: usize = 80;

/// Ticks (microseconds) between automatic generations at the default pace.
pub const TIME_BETWEEN_GENERATIONS: u64 = 100_000;

/// Number of colors in the newborn-cell palette.
pub const PALETTE_SIZE: usize = 3;

/// A cosmetic color for a live cell, drawn from a fixed palette.
#[derive(Clone, Copy, Debug, PartialEq, Eq)]
pub enum CellColor {
    White,
    Cyan,
    Teal,
}

/// One cell of the board: an alive flag plus an advisory color.
///
/// The color never affects rule evaluation; it only says how a live cell is
/// rendered. A dead cell carries no color.
#[derive(Clone, Copy, Debug, PartialEq, Eq)]
pub struct Cell {
    pub alive: bool,
    pub color: Option<CellColor>,
}

/// The ways a request to the simulation can be rejected.
#[derive(Clone, Copy, Debug, PartialEq, Eq)]
pub enum ConwayError {
    /// A row or column lies outside `[0, size)`.
    OutOfRange,
    /// A zero grid size or a zero step interval at construction.
    InvalidConfiguration,
}

impl Cell {
    /// A dead, colorless cell.
    pub fn new() -> (c: Cell)
        ensures
            c == (Cell { alive: false, color: None }),
    {
        Cell { alive: false, color: None }
    }
}

/// A well-formed board view: a square grid, every row as long as there are rows.
pub open spec fn wf_grid(g: Seq<Seq<Cell>>) -> bool {
    forall|r: int| 0 <= r < g.len() ==> (#[trigger] g[r]).len() == g.len()
}

/// 1 if `(r, c)` is inside the grid and alive, else 0; out-of-bounds counts as dead.
pub open spec fn live_at(g: Seq<Seq<Cell>>, r: int, c: int) -> nat {
    if 0 <= r < g.len() && 0 <= c < g[r].len() && g[r][c].alive {
        1nat
    } else {
        0nat
    }
}

/// Number of live cells among the up-to-8 neighbors of `(r, c)`, the cell
/// itself excluded; the 3x3 window is clamped at the grid edges.
pub open spec fn neighbor_count(g: Seq<Seq<Cell>>, r: int, c: int) -> nat {
    live_at(g, r - 1, c - 1) + live_at(g, r - 1, c) + live_at(g, r - 1, c + 1)
        + live_at(g, r, c - 1) + live_at(g, r, c + 1)
        + live_at(g, r + 1, c - 1) + live_at(g, r + 1, c) + live_at(g, r + 1, c + 1)
}

/// The Game-of-Life rule: whether a cell with `alive` status and `n` live
/// neighbors is alive in the next generation.
pub open spec fn next_alive(alive: bool, n: nat) -> bool {
    if alive {
        n == 2 || n == 3
    } else {
        n == 3
    }
}

/// The whole simulation: the board plus the run/pause state machine, the
/// countdown to the next automatic generation, and the generation counter.
///
/// Time is measured in integer ticks (microseconds); the caller converts
/// whatever clock it has into ticks before handing them in.
#[derive(Debug)]
pub struct State {
    pub grid: Vec<Vec<Cell>>,
    pub running: bool,
    /// Ticks between automatic generations; always positive.
    pub step_interval: u64,
    /// Ticks left until the next automatic generation is due.
    pub time_remaining: u64,
    pub generation: u32,
}

impl State {
    /// The board as a sequence of rows.
    pub open spec fn grid_view(&self) -> Seq<Seq<Cell>> {
        Seq::new(self.grid@.len(), |r: int| self.grid@[r]@)
    }

    /// Side length of the board.
    pub open spec fn size(&self) -> nat {
        self.grid@.len()
    }

    /// Well-formedness: a square grid and a positive step interval.
    pub open spec fn wf(&self) -> bool {
        &&& wf_grid(self.grid_view())
        &&& self.step_interval > 0
    }

    /// Both coordinates lie on the board.
    pub open spec fn in_bounds(&self, row: int, col: int) -> bool {
        0 <= row < self.size() && 0 <= col < self.size()
    }
}

/// A square grid of dead, colorless cells.
fn make_dead_grid(n: usize) -> (g: Vec<Vec<Cell>>)
    ensures
        g@.len() == n,
        forall|r: int| 0 <= r < n ==> (#[trigger] g@[r])@.len() == n,
        forall|r: int, c: int|
            0 <= r < n && 0 <= c < n ==> (#[trigger] g@[r]@[c]) == (Cell {
                alive: false,
                color: None,
            }),
{
    let mut g: Vec<Vec<Cell>> = Vec::new();
    let mut r: usize = 0;
    while r < n
        invariant
            r <= n,
            g@.len() == r,
            forall|i: int| 0 <= i < r ==> (#[trigger] g@[i])@.len() == n,
            forall|i: int, j: int|
                0 <= i < r && 0 <= j < n ==> (#[trigger] g@[i]@[j]) == (Cell {
                    alive: false,
                    color: None,
                }),
        decreases n - r,
    {
        let mut row: Vec<Cell> = Vec::new();
        let mut c: usize = 0;
        while c < n
            invariant
                c <= n,
                row@.len() == c,
                forall|j: int| 0 <= j < c ==> (#[trigger] row@[j]) == (Cell {
                    alive: false,
                    color: None,
                }),
            decreases n - c,
        {
            row.push(Cell::new());
            c = c + 1;
        }
        g.push(row);
        r = r + 1;
    }
    g
}

impl State {
    /// A fresh default board: `GRID_SIZE` x `GRID_SIZE`, all cells dead,
    /// paused, at generation 0, pacing set to `TIME_BETWEEN_GENERATIONS`.
    pub fn new() -> (s: State)
        ensures
            s.wf(),
            s.size() == GRID_SIZE,
            forall|r: int, c: int|
                s.in_bounds(r, c) ==> (#[trigger] s.grid_view()[r][c]) == (Cell {
                    alive: false,
                    color: None,
                }),
            !s.running,
            s.step_interval == TIME_BETWEEN_GENERATIONS,
            s.time_remaining == TIME_BETWEEN_GENERATIONS,
            s.generation == 0,
    {
        State {
            grid: make_dead_grid(GRID_SIZE),
            running: false,
            step_interval: TIME_BETWEEN_GENERATIONS,
            time_remaining: TIME_BETWEEN_GENERATIONS,
            generation: 0,
        }
    }

    /// A board of a chosen size and pace. Rejects a zero size or a zero
    /// interval as an invalid configuration.
    pub fn with_config(size: usize, step_interval: u64) -> (r: Result<State, ConwayError>)
        ensures
            r is Ok <==> size > 0 && step_interval > 0,
            r matches Ok(s) ==> {
                &&& s.wf()
                &&& s.size() == size
                &&& forall|i: int, j: int|
                    s.in_bounds(i, j) ==> (#[trigger] s.grid_view()[i][j]) == (Cell {
                        alive: false,
                        color: None,
                    })
                &&& !s.running
                &&& s.step_interval == step_interval
                &&& s.time_remaining == step_interval
                &&& s.generation == 0
            },
            r matches Err(e) ==> e == ConwayError::InvalidConfiguration,
    {
        if size == 0 || step_interval == 0 {
            return Err(ConwayError::InvalidConfiguration);
        }
        Ok(State {
            grid: make_dead_grid(size),
            running: false,
            step_interval,
            time_remaining: step_interval,
            generation: 0,
        })
    }

    /// The write relation of one cell: `post` is `pre` with `(row, col)`
    /// replaced by `cell`, the board shape and every other field untouched.
    pub open spec fn cell_written(pre: State, post: State, row: int, col: int, cell: Cell) -> bool {
        &&& post.size() == pre.size()
        &&& forall|r: int|
            0 <= r < pre.size() ==> (#[trigger] post.grid_view()[r]).len()
                == pre.grid_view()[r].len()
        &&& post.grid_view()[row][col] == cell
        &&& forall|r: int, c: int|
            pre.in_bounds(r, c) && !(r == row && c == col) ==> (#[trigger] post.grid_view()[r][c])
                == pre.grid_view()[r][c]
        &&& post.running == pre.running
        &&& post.step_interval == pre.step_interval
        &&& post.time_remaining == pre.time_remaining
        &&& post.generation == pre.generation
    }

    /// Write one in-bounds cell, leaving everything else as it was.
    fn put_cell(&mut self, row: usize, col: usize, cell: Cell)
        requires
            old(self).wf(),
            old(self).in_bounds(row as int, col as int),
        ensures
            final(self).wf(),
            State::cell_written(*old(self), *final(self), row as int, col as int, cell),
    {
        proof {
            assert(old(self).grid_view()[row as int] == old(self).grid@[row as int]@);
            assert(old(self).grid@[row as int]@.len() == old(self).size());
        }
        let row_ref = &mut self.grid[row];
        row_ref.set(col, cell);
        proof {
            assert forall|r: int| 0 <= r < old(self).size() implies (#[trigger] self.grid_view()[r])
                == (if r == row as int {
                old(self).grid_view()[r].update(col as int, cell)
            } else {
                old(self).grid_view()[r]
            }) by {
                assert(self.grid_view()[r] == self.grid@[r]@);
                assert(old(self).grid_view()[r] == old(self).grid@[r]@);
            }
        }
    }

    /// A copy of the cell at `(row, col)`, or `OutOfRange`.
    pub fn get_cell(&self, row: usize, col: usize) -> (r: Result<Cell, ConwayError>)
        requires
            self.wf(),
        ensures
            r is Ok <==> self.in_bounds(row as int, col as int),
            r matches Ok(c) ==> c == self.grid_view()[row as int][col as int],
            r matches Err(e) ==> e == ConwayError::OutOfRange,
    {
        if row < self.grid.len() && col < self.grid.len() {
            Ok(self.grid[row][col])
        } else {
            Err(ConwayError::OutOfRange)
        }
    }

    /// Write `alive` and `color` of one cell atomically as a pair, or fail
    /// with `OutOfRange` leaving the board untouched.
    pub fn set_cell(&mut self, row: usize, col: usize, alive: bool, color: Option<CellColor>) -> (r:
        Result<(), ConwayError>)
        requires
            old(self).wf(),
        ensures
            final(self).wf(),
            r is Ok <==> old(self).in_bounds(row as int, col as int),
            r is Ok ==> State::cell_written(
                *old(self),
                *final(self),
                row as int,
                col as int,
                Cell { alive, color },
            ),
            r matches Err(e) ==> e == ConwayError::OutOfRange && *final(self) == *old(self),
    {
        if row < self.grid.len() && col < self.grid.len() {
            self.put_cell(row, col, Cell { alive, color });
            Ok(())
        } else {
            Err(ConwayError::OutOfRange)
        }
    }

    /// Flip or set one cell. With `is_alive` given, the flag is set to it;
    /// without, the current flag is flipped. The color is overwritten
    /// verbatim with the `color` argument, including clearing it to `None`
    /// when none is supplied — a re-toggle never restores an earlier color.
    ///
    /// On success the returned `CellChange` reports the position and the new
    /// alive flag, for diagnostics; out of range, the board is left
    /// unmodified and `OutOfRange` comes back.
    pub fn toggle_cell(
        &mut self,
        row: usize,
        col: usize,
        is_alive: Option<bool>,
        color: Option<CellColor>,
    ) -> (r: Result<CellChange, ConwayError>)
        requires
            old(self).wf(),
        ensures
            final(self).wf(),
            r is Ok <==> old(self).in_bounds(row as int, col as int),
            r matches Ok(change) ==> {
                let new_alive = (match is_alive {
                    Some(b) => b,
                    None => !old(self).grid_view()[row as int][col as int].alive,
                });
                &&& State::cell_written(
                    *old(self),
                    *final(self),
                    row as int,
                    col as int,
                    Cell { alive: new_alive, color },
                )
                &&& change == (CellChange { row, col, alive: new_alive })
            },
            r matches Err(e) ==> e == ConwayError::OutOfRange && *final(self) == *old(self),
    {
        if row < self.grid.len() && col < self.grid.len() {
            let new_alive = match is_alive {
                Some(b) => b,
                None => !self.grid[row][col].alive,
            };
            self.put_cell(row, col, Cell { alive: new_alive, color });
            Ok(CellChange { row, col, alive: new_alive })
        } else {
            Err(ConwayError::OutOfRange)
        }
    }

    /// Flip between Paused and Running; either way the countdown restarts at
    /// a full interval, so a freshly started run waits one whole interval
    /// before its first automatic step.
    pub fn toggle_simulation(&mut self)
        ensures
            final(self).running == !old(self).running,
            final(self).time_remaining == old(self).step_interval,
            final(self).grid == old(self).grid,
            final(self).step_interval == old(self).step_interval,
            final(self).generation == old(self).generation,
    {
        self.time_remaining = self.step_interval;
        self.running = !self.running;
    }

    /// Advance the countdown by `dt` ticks. While Paused this is a no-op
    /// returning `false`. While Running it subtracts `dt` (saturating at
    /// zero) and reports whether an automatic step is now due; it does not
    /// perform the step itself.
    pub fn run_timer(&mut self, dt: u64) -> (due: bool)
        ensures
            !old(self).running ==> *final(self) == *old(self) && !due,
            old(self).running ==> {
                &&& final(self).time_remaining == (if old(self).time_remaining >= dt {
                    old(self).time_remaining - dt
                } else {
                    0
                })
                &&& due == (final(self).time_remaining == 0)
                &&& final(self).grid == old(self).grid
                &&& final(self).running == old(self).running
                &&& final(self).step_interval == old(self).step_interval
                &&& final(self).generation == old(self).generation
            },
    {
        if !self.running {
            return false;
        }
        if self.time_remaining >= dt {
            self.time_remaining = self.time_remaining - dt;
        } else {
            self.time_remaining = 0;
        }
        self.time_remaining == 0
    }

    /// Reset every cell to dead and colorless, keeping the board dimensions
    /// and every other field.
    pub fn clear_board(&mut self)
        requires
            old(self).wf(),
        ensures
            final(self).wf(),
            final(self).size() == old(self).size(),
            forall|r: int, c: int|
                old(self).in_bounds(r, c) ==> (#[trigger] final(self).grid_view()[r][c]) == (Cell {
                    alive: false,
                    color: None,
                }),
            final(self).running == old(self).running,
            final(self).step_interval == old(self).step_interval,
            final(self).time_remaining == old(self).time_remaining,
            final(self).generation == old(self).generation,
    {
        let n = self.grid.len();
        self.grid = make_dead_grid(n);
    }
}

/// The observable record of one cell edit: position and the new alive flag.
#[derive(Clone, Copy, Debug, PartialEq, Eq)]
pub struct CellChange {
    pub row: usize,
    pub col: usize,
    pub alive: bool,
}

/// One pending change that a rule pass wants applied to the board.
#[derive(Clone, Copy, Debug, PartialEq, Eq)]
pub struct CellDelta {
    pub row: usize,
    pub col: usize,
    pub alive: bool,
    pub color: Option<CellColor>,
}

/// Relies on rand's `thread_rng` and `Rng::gen_range`: `gen_range(0..n)` on a
/// non-empty range returns a value drawn from that range.
#[verifier::external_body]
fn random_palette_index() -> (r: usize)
    ensures
        r < PALETTE_SIZE,
{
    let mut rng = rand::thread_rng();
    rng.gen_range(0..PALETTE_SIZE)
}

/// The palette, indexed.
pub fn palette_color(index: usize) -> (c: CellColor)
    requires
        index < PALETTE_SIZE,
    ensures
        c == (if index == 0 {
            CellColor::White
        } else if index == 1 {
            CellColor::Cyan
        } else {
            CellColor::Teal
        }),
{
    if index == 0 {
        CellColor::White
    } else if index == 1 {
        CellColor::Cyan
    } else {
        CellColor::Teal
    }
}

/// A color drawn uniformly at random from the palette, for a newborn cell.
/// Nothing beyond its type can be promised of the draw.
pub fn get_random_color() -> CellColor {
    palette_color(random_palette_index())
}

impl State {
    /// Count the live neighbors of an in-range cell: the up-to-8 cells of
    /// the 3x3 block around it, the cell itself excluded, the window clamped
    /// at the board edges (no wrap-around). Out of range, `OutOfRange`.
    pub fn get_neighbour_count(&self, row: usize, col: usize) -> (r: Result<usize, ConwayError>)
        requires
            self.wf(),
        ensures
            r is Ok <==> self.in_bounds(row as int, col as int),
            r matches Ok(n) ==> n == neighbor_count(self.grid_view(), row as int, col as int),
            r matches Err(e) ==> e == ConwayError::OutOfRange,
    {
        let n = self.grid.len();
        if !(row < n && col < n) {
            return Err(ConwayError::OutOfRange);
        }
        proof {
            assert forall|r: int| 0 <= r < self.grid@.len() implies (#[trigger] self.grid@[r])@.len()
                == self.grid@.len() by {
                assert(self.grid_view()[r] == self.grid@[r]@);
            }
        }
        let mut count: usize = 0;
        if row >= 1 {
            if col >= 1 && self.grid[row - 1][col - 1].alive {
                count = count + 1;
            }
            if self.grid[row - 1][col].alive {
                count = count + 1;
            }
            if col + 1 < n && self.grid[row - 1][col + 1].alive {
                count = count + 1;
            }
        }
        if col >= 1 && self.grid[row][col - 1].alive {
            count = count + 1;
        }
        if col + 1 < n && self.grid[row][col + 1].alive {
            count = count + 1;
        }
        if row + 1 < n {
            if col >= 1 && self.grid[row + 1][col - 1].alive {
                count = count + 1;
            }
            if self.grid[row + 1][col].alive {
                count = count + 1;
            }
            if col + 1 < n && self.grid[row + 1][col + 1].alive {
                count = count + 1;
            }
        }
        Ok(count)
    }
}

/// The delta the rules demand for the cell at `(row, col)` of `g`, with
/// `newborn_color` as the color a birth would take: `None` where the cell is
/// unchanged, a colorless death for under- or overpopulation, a colored
/// birth for a dead cell with exactly three live neighbors.
pub open spec fn rule_delta(
    g: Seq<Seq<Cell>>,
    row: int,
    col: int,
    newborn_color: CellColor,
) -> Option<CellDelta> {
    let alive = g[row][col].alive;
    let next = next_alive(alive, neighbor_count(g, row, col));
    if alive == next {
        None
    } else if next {
        Some(CellDelta { row: row as usize, col: col as usize, alive: true, color: Some(newborn_color) })
    } else {
        Some(CellDelta { row: row as usize, col: col as usize, alive: false, color: None })
    }
}

/// `ds` holds, before index `i`, a delta aimed at `(r, c)`.
pub open spec fn covered(ds: Seq<CellDelta>, i: int, r: int, c: int) -> bool {
    exists|k: int| 0 <= k < i && (#[trigger] ds[k]).row == r && ds[k].col == c
}

/// `d` is a delta the rules really demand on `g`: in bounds, a genuine
/// change, with the right new alive flag, colored exactly when it is a birth.
pub open spec fn delta_ok(g: Seq<Seq<Cell>>, d: CellDelta) -> bool {
    let alive = g[d.row as int][d.col as int].alive;
    let next = next_alive(alive, neighbor_count(g, d.row as int, d.col as int));
    &&& d.row < g.len() && d.col < g.len()
    &&& alive != next
    &&& d.alive == next
    &&& (d.alive ==> d.color is Some)
    &&& (!d.alive ==> d.color is None)
}

/// Every cell of `g` that the rules change has a delta in `ds`.
pub open spec fn deltas_complete(g: Seq<Seq<Cell>>, ds: Seq<CellDelta>) -> bool {
    forall|r: int, c: int|
        0 <= r < g.len() && 0 <= c < g.len() && g[r][c].alive != next_alive(
            g[r][c].alive,
            #[trigger] neighbor_count(g, r, c),
        ) ==> covered(ds, ds.len() as int, r, c)
}

/// `a`'s position strictly precedes `b`'s in row-major order.
pub open spec fn pos_lt(a: CellDelta, b: CellDelta) -> bool {
    a.row < b.row || (a.row == b.row && a.col < b.col)
}

/// The deltas are listed in strictly increasing row-major order; in
/// particular no two aim at the same cell.
pub open spec fn deltas_ordered(ds: Seq<CellDelta>) -> bool {
    forall|k1: int, k2: int| 0 <= k1 < k2 < ds.len() ==> pos_lt(#[trigger] ds[k1], #[trigger] ds[k2])
}

impl State {
    /// Scan the whole board against a snapshot of itself and collect, in
    /// row-major order, every change the rules demand, without mutating
    /// anything. Each birth carries a color drawn at random from the
    /// palette.
    #[verifier::loop_isolation(false)]
    pub fn compute_deltas(&self) -> (ds: Vec<CellDelta>)
        requires
            self.wf(),
        ensures
            forall|k: int| 0 <= k < ds@.len() ==> delta_ok(self.grid_view(), #[trigger] ds@[k]),
            deltas_complete(self.grid_view(), ds@),
            deltas_ordered(ds@),
    {
        let n = self.grid.len();
        let mut ds: Vec<CellDelta> = Vec::new();
        let mut row: usize = 0;
        while row < n
            invariant
                row <= n,
                forall|k: int| 0 <= k < ds@.len() ==> delta_ok(self.grid_view(), #[trigger] ds@[k]),
                forall|k: int| 0 <= k < ds@.len() ==> (#[trigger] ds@[k]).row < row,
                deltas_ordered(ds@),
                forall|r: int, c: int|
                    0 <= r < row && 0 <= c < n && self.grid_view()[r][c].alive != next_alive(
                        self.grid_view()[r][c].alive,
                        #[trigger] neighbor_count(self.grid_view(), r, c),
                    ) ==> covered(ds@, ds@.len() as int, r, c),
            decreases n - row,
        {
            let mut col: usize = 0;
            while col < n
                invariant
                    col <= n,
                    forall|k: int|
                        0 <= k < ds@.len() ==> delta_ok(self.grid_view(), #[trigger] ds@[k]),
                    forall|k: int|
                        0 <= k < ds@.len() ==> ((#[trigger] ds@[k]).row < row || (ds@[k].row == row
                            && ds@[k].col < col)),
                    deltas_ordered(ds@),
                    forall|r: int, c: int|
                        (0 <= r < row && 0 <= c < n || r == row && 0 <= c < col)
                            && self.grid_view()[r][c].alive != next_alive(
                            self.grid_view()[r][c].alive,
                            #[trigger] neighbor_count(self.grid_view(), r, c),
                        ) ==> covered(ds@, ds@.len() as int, r, c),
                decreases n - col,
            {
                let color = get_random_color();
                let ghost pre = ds@;
                match self.apply_rules(row, col, color) {
                    Some(d) => {
                        ds.push(d);
                        proof {
                            assert(ds@[pre.len() as int] == d);
                            assert(forall|k: int| 0 <= k < pre.len() ==> ds@[k] == pre[k]);
                            assert forall|r: int, c: int| covered(
                                pre,
                                pre.len() as int,
                                r,
                                c,
                            ) implies covered(ds@, ds@.len() as int, r, c) by {
                                let k = choose|k: int|
                                    0 <= k < pre.len() && (#[trigger] pre[k]).row == r
                                        && pre[k].col == c;
                                assert((ds@[k]).row == r && ds@[k].col == c);
                            }
                            assert(covered(ds@, ds@.len() as int, row as int, col as int)) by {
                                assert((ds@[pre.len() as int]).row == row as int && ds@[pre.len() as int].col == col as int);
                            }
                        }
                    },
                    None => {},
                }
                col = col + 1;
            }
            row = row + 1;
        }
        ds
    }
}

impl State {
    /// Evaluate the Game-of-Life rule for one cell against the current
    /// board, without mutating anything. A live cell with two or three live
    /// neighbors, or a dead one with any count other than three, yields no
    /// delta; a live cell with fewer than two or more than three neighbors
    /// yields a colorless death; a dead cell with exactly three yields a
    /// birth carrying `newborn_color`.
    pub fn apply_rules(&self, row: usize, col: usize, newborn_color: CellColor) -> (r: Option<
        CellDelta,
    >)
        requires
            self.wf(),
            self.in_bounds(row as int, col as int),
        ensures
            r == rule_delta(self.grid_view(), row as int, col as int, newborn_color),
    {
        let count = match self.get_neighbour_count(row, col) {
            Ok(c) => c,
            Err(_) => {
                proof {
                    assert(false);
                }
                0
            },
        };
        let alive = self.grid[row][col].alive;
        if alive && (count < 2 || count > 3) {
            Some(CellDelta { row, col, alive: false, color: None })
        } else if !alive && count == 3 {
            Some(CellDelta { row, col, alive: true, color: Some(newborn_color) })
        } else {
            None
        }
    }
}

/// How one completed generation relates `post` to `pre`: every cell's alive
/// flag follows the rule evaluated on the `pre` board, unchanged cells keep
/// their color, deaths are colorless, births are colored; the generation
/// counter moves up by one and the countdown restarts at a full interval.
pub open spec fn step_relation(pre: State, post: State) -> bool {
    &&& post.size() == pre.size()
    &&& forall|r: int, c: int|
        pre.in_bounds(r, c) ==> {
            let alive = pre.grid_view()[r][c].alive;
            let next = next_alive(alive, neighbor_count(pre.grid_view(), r, c));
            &&& (#[trigger] post.grid_view()[r][c]).alive == next
            &&& (alive == next ==> post.grid_view()[r][c] == pre.grid_view()[r][c])
            &&& (alive && !next ==> post.grid_view()[r][c].color is None)
            &&& (!alive && next ==> post.grid_view()[r][c].color is Some)
        }
    &&& post.running == pre.running
    &&& post.step_interval == pre.step_interval
    &&& post.generation == pre.generation + 1
    &&& post.time_remaining == pre.step_interval
}

impl State {
    /// Advance the board by one generation: evaluate the rules against a
    /// snapshot of the whole board, then apply the collected deltas, so no
    /// cell sees a half-updated neighborhood. Increments the generation
    /// counter and restarts the countdown. Callable whether or not the
    /// simulation is running.
    #[verifier::loop_isolation(false)]
    pub fn generate_next_state(&mut self)
        requires
            old(self).wf(),
            old(self).generation < u32::MAX,
        ensures
            final(self).wf(),
            step_relation(*old(self), *final(self)),
    {
        let ghost g0 = old(self).grid_view();
        let deltas = self.compute_deltas();
        let mut i: usize = 0;
        while i < deltas.len()
            invariant
                i <= deltas@.len(),
                self.wf(),
                self.size() == old(self).size(),
                self.running == old(self).running,
                self.step_interval == old(self).step_interval,
                self.time_remaining == old(self).time_remaining,
                self.generation == old(self).generation,
                forall|k: int|
                    0 <= k < i ==> self.grid_view()[(#[trigger] deltas@[k]).row as int][deltas@[k].col as int]
                        == (Cell { alive: deltas@[k].alive, color: deltas@[k].color }),
                forall|r: int, c: int|
                    old(self).in_bounds(r, c) && !covered(deltas@, i as int, r, c) ==> (
                    #[trigger] self.grid_view()[r][c]) == g0[r][c],
            decreases deltas@.len() - i,
        {
            let d = deltas[i];
            proof {
                assert(delta_ok(g0, deltas@[i as int]));
            }
            self.put_cell(d.row, d.col, Cell { alive: d.alive, color: d.color });
            proof {
                assert forall|k: int| 0 <= k < i + 1 implies self.grid_view()[(
                #[trigger] deltas@[k]).row as int][deltas@[k].col as int] == (Cell {
                    alive: deltas@[k].alive,
                    color: deltas@[k].color,
                }) by {
                    if k < i {
                        assert(pos_lt(deltas@[k], deltas@[i as int]));
                    }
                }
                assert forall|r: int, c: int|
                    old(self).in_bounds(r, c) && !covered(deltas@, i + 1, r, c) implies (
                #[trigger] self.grid_view()[r][c]) == g0[r][c] by {
                    assert(!covered(deltas@, i as int, r, c));
                    assert(!(r == d.row as int && c == d.col as int));
                }
            }
            i = i + 1;
        }
        self.generation = self.generation + 1;
        self.time_remaining = self.step_interval;
        proof {
            assert forall|r: int, c: int| old(self).in_bounds(r, c) implies {
                let alive = g0[r][c].alive;
                let next = next_alive(alive, neighbor_count(g0, r, c));
                &&& (#[trigger] self.grid_view()[r][c]).alive == next
                &&& (alive == next ==> self.grid_view()[r][c] == g0[r][c])
                &&& (alive && !next ==> self.grid_view()[r][c].color is None)
                &&& (!alive && next ==> self.grid_view()[r][c].color is Some)
            } by {
                let alive = g0[r][c].alive;
                let next = next_alive(alive, neighbor_count(g0, r, c));
                if alive != next {
                    assert(covered(deltas@, deltas@.len() as int, r, c));
                    let k = choose|k: int|
                        0 <= k < deltas@.len() && (#[trigger] deltas@[k]).row == r && deltas@[k].col
                            == c;
                    assert(delta_ok(g0, deltas@[k]));
                    assert(self.grid_view()[r][c] == (Cell {
                        alive: deltas@[k].alive,
                        color: deltas@[k].color,
                    }));
                } else {
                    if covered(deltas@, deltas@.len() as int, r, c) {
                        let k = choose|k: int|
                            0 <= k < deltas@.len() && (#[trigger] deltas@[k]).row == r
                                && deltas@[k].col == c;
                        assert(delta_ok(g0, deltas@[k]));
                        assert(false);
                    }
                }
            }
        }
    }
}

impl Default for State {
    /// Same board as `State::new`.
    fn default() -> (s: Self)
        ensures
            s.wf(),
            s.size() == GRID_SIZE,
            forall|r: int, c: int|
                s.in_bounds(r, c) ==> (#[trigger] s.grid_view()[r][c]) == (Cell {
                    alive: false,
                    color: None,
                }),
            !s.running,
            s.step_interval == TIME_BETWEEN_GENERATIONS,
            s.time_remaining == TIME_BETWEEN_GENERATIONS,
            s.generation == 0,
    {
        State::new()
    }
}

/// Law: a neighbor count never exceeds 8; at a corner of the board it never
/// exceeds 3; at a non-corner edge cell it never exceeds 5.
pub proof fn lemma_neighbor_count_bounds(g: Seq<Seq<Cell>>, r: int, c: int)
    requires
        wf_grid(g),
        0 <= r < g.len(),
        0 <= c < g.len(),
    ensures
        neighbor_count(g, r, c) <= 8,
        (r == 0 || r == g.len() - 1) && (c == 0 || c == g.len() - 1) ==> neighbor_count(g, r, c)
            <= 3,
        ((r == 0 || r == g.len() - 1) != (c == 0 || c == g.len() - 1)) ==> neighbor_count(g, r, c)
            <= 5,
{
}

/// A still life: a board that one application of the rules leaves unchanged.
pub open spec fn grid_stable(g: Seq<Seq<Cell>>) -> bool {
    forall|r: int, c: int|
        0 <= r < g.len() && 0 <= c < g.len() ==> g[r][c].alive == next_alive(
            g[r][c].alive,
            #[trigger] neighbor_count(g, r, c),
        )
}

/// Law: a completed generation on a still life leaves the board exactly as
/// it was — every cell, color included — while the generation counter still
/// moves up by one. Applied repeatedly, each step sees the same still board
/// again, so the board never changes however often it is stepped.
pub proof fn lemma_step_on_still_life(pre: State, post: State)
    requires
        pre.wf(),
        post.wf(),
        grid_stable(pre.grid_view()),
        step_relation(pre, post),
    ensures
        post.grid_view() == pre.grid_view(),
        grid_stable(post.grid_view()),
        post.generation == pre.generation + 1,
{
    assert forall|r: int| 0 <= r < pre.size() implies post.grid_view()[r] == pre.grid_view()[r] by {
        assert forall|c: int| 0 <= c < pre.size() implies post.grid_view()[r][c]
            == pre.grid_view()[r][c] by {
            assert(pre.grid_view()[r][c].alive == next_alive(
                pre.grid_view()[r][c].alive,
                neighbor_count(pre.grid_view(), r, c),
            ));
        }
        assert(post.grid_view()[r] =~= pre.grid_view()[r]);
    }
    assert(post.grid_view() =~= pre.grid_view());
}

/// Law: toggling a cell twice with no explicit alive flag restores its
/// original alive flag, while the color is overwritten by each call — the
/// second call's color stands, whatever the cell carried before.
pub proof fn lemma_toggle_twice_restores_alive(
    s0: State,
    s1: State,
    s2: State,
    row: int,
    col: int,
    c1: Option<CellColor>,
    c2: Option<CellColor>,
)
    requires
        s0.in_bounds(row, col),
        State::cell_written(
            s0,
            s1,
            row,
            col,
            Cell { alive: !s0.grid_view()[row][col].alive, color: c1 },
        ),
        State::cell_written(
            s1,
            s2,
            row,
            col,
            Cell { alive: !s1.grid_view()[row][col].alive, color: c2 },
        ),
    ensures
        s2.grid_view()[row][col].alive == s0.grid_view()[row][col].alive,
        s2.grid_view()[row][col].color == c2,
{
}

} // verus!
