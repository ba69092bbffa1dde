use vstd::prelude::*;

use crate::action::{action_of_draw, direction_value, offset, InputDir};
use crate::fitness::{GeneticSearch, FAR, MAX_PLAN, UNEVALUATED};
use crate::grid::{in_bounds, Grid};
use crate::rng::random_below;

verus! {

/// Draws that seeding may spend on one step.
pub const SEED_ATTEMPTS: usize = 8;

/// Fitness given to a fresh plan.
pub const FRESH_FITNESS: i64 = 1000;

/// The first of the draws `base + k ..` whose action can be taken from
/// `(row, col)`, or a no-op when none can.
pub open spec fn seed_pick(g: &Grid, row: int, col: int, draws: Seq<u32>, base: int, k: int) -> InputDir
    decreases SEED_ATTEMPTS - k,
{
    if k >= SEED_ATTEMPTS {
        InputDir::NoOp
    } else {
        let a = action_of_draw((draws[base + k] % 5) as int);
        if g.passable(row + offset(a).0, col + offset(a).1) {
            a
        } else {
            seed_pick(g, row, col, draws, base, k + 1)
        }
    }
}

/// Step `i` of a seeded plan from `(row, col)`: a no-op when the first draw
/// leaves the grid or enters an unobserved cell, else the first draw whose
/// target can be stepped onto.
pub open spec fn seed_step(g: &Grid, row: int, col: int, draws: Seq<u32>, i: int) -> InputDir {
    let a = action_of_draw((draws[i * SEED_ATTEMPTS] % 5) as int);
    if g.cell(row + offset(a).0, col + offset(a).1) is None {
        InputDir::NoOp
    } else {
        seed_pick(g, row, col, draws, i * SEED_ATTEMPTS, 0)
    }
}

/// The first `n` steps of a seeded plan from `(row, col)`, with the cell
/// reached.
pub open spec fn seed_prefix(g: &Grid, row: int, col: int, draws: Seq<u32>, n: nat) -> (
    int,
    int,
    Seq<InputDir>,
)
    decreases n,
{
    if n == 0 {
        (row, col, Seq::empty())
    } else {
        let (r, c, acts) = seed_prefix(g, row, col, draws, (n - 1) as nat);
        let a = seed_step(g, r, c, draws, n - 1);
        (r + offset(a).0, c + offset(a).1, acts.push(a))
    }
}

proof fn lemma_seed_pick_lands(g: &Grid, row: int, col: int, draws: Seq<u32>, base: int, k: int)
    ensures
        ({
            let a = seed_pick(g, row, col, draws, base, k);
            a is NoOp || g.passable(row + offset(a).0, col + offset(a).1)
        }),
    decreases SEED_ATTEMPTS - k,
{
    if k < SEED_ATTEMPTS {
        lemma_seed_pick_lands(g, row, col, draws, base, k + 1);
    }
}

fn seed_step_exec(g: &Grid, row: i64, col: i64, draws: &Vec<u32>, i: usize, n: usize) -> (r: InputDir)
    requires
        g.wf(),
        i < n <= MAX_PLAN,
        draws.len() == n * SEED_ATTEMPTS,
        in_bounds(g.size as int, row as int, col as int),
    ensures
        r == seed_step(g, row as int, col as int, draws@, i as int),
        r is NoOp || g.passable(row + offset(r).0, col + offset(r).1),
{
    assert(i * SEED_ATTEMPTS + SEED_ATTEMPTS <= n * SEED_ATTEMPTS) by (nonlinear_arith)
        requires
            i < n,
    ;
    let base = i * SEED_ATTEMPTS;
    let first = InputDir::from_draw(draws[base] % 5);
    let (fr, fc) = direction_value(&first);
    if g.cell_at(row + fr as i64, col + fc as i64).is_none() {
        return InputDir::NoOp;
    }
    proof {
        lemma_seed_pick_lands(g, row as int, col as int, draws@, base as int, 0);
    }
    let mut k: usize = 0;
    while k < SEED_ATTEMPTS
        invariant
            k <= SEED_ATTEMPTS,
            base + SEED_ATTEMPTS <= draws.len(),
            seed_step(g, row as int, col as int, draws@, i as int) == seed_pick(
                g,
                row as int,
                col as int,
                draws@,
                base as int,
                0,
            ),
            g.wf(),
            in_bounds(g.size as int, row as int, col as int),
            seed_pick(g, row as int, col as int, draws@, base as int, 0) == seed_pick(
                g,
                row as int,
                col as int,
                draws@,
                base as int,
                k as int,
            ),
        decreases SEED_ATTEMPTS - k,
    {
        let a = InputDir::from_draw(draws[base + k] % 5);
        let (dr, dc) = direction_value(&a);
        if g.is_passable(row + dr as i64, col + dc as i64) {
            return a;
        }
        k = k + 1;
    }
    InputDir::NoOp
}

impl GeneticSearch {
    /// A fresh plan from `(x, y)` with the given actions, not evaluated yet.
    pub fn new_with_vector(x: usize, y: usize, vector: Vec<InputDir>) -> (r: GeneticSearch)
        ensures
            r.actions@ == vector@,
            r.origin_row == x,
            r.origin_col == y,
            r.cost == UNEVALUATED,
            r.remaining_distance == FAR,
            r.fitness == FRESH_FITNESS,
    {
        GeneticSearch {
            actions: vector,
            cost: UNEVALUATED,
            remaining_distance: FAR,
            origin_row: x,
            origin_col: y,
            fitness: FRESH_FITNESS,
        }
    }

    /// Appends `n` seeded steps walking from `(x, y)`: each step takes the
    /// first of its draws (in `0..5`, read modulo 5) whose target can be
    /// stepped onto, a no-op when the first draw leaves the observed map or
    /// when no draw fits.
    pub fn generate_sequence_with_draws(&mut self, n: usize, x: usize, y: usize, map: &Grid, draws: &Vec<u32>)
        requires
            map.wf(),
            n <= MAX_PLAN,
            in_bounds(map.size as int, x as int, y as int),
            old(self).actions.len() + n <= MAX_PLAN,
            draws.len() == n * SEED_ATTEMPTS,
        ensures
            final(self).actions@ == old(self).actions@ + seed_prefix(map, x as int, y as int, draws@, n as nat).2,
            final(self).cost == old(self).cost,
            final(self).remaining_distance == old(self).remaining_distance,
            final(self).fitness == old(self).fitness,
            final(self).origin_row == old(self).origin_row,
            final(self).origin_col == old(self).origin_col,
    {
        let ghost start = self.actions@;
        let mut row: i64 = x as i64;
        let mut col: i64 = y as i64;
        let mut i: usize = 0;
        while i < n
            invariant
                i <= n <= MAX_PLAN,
                map.wf(),
                draws.len() == n * SEED_ATTEMPTS,
                in_bounds(map.size as int, row as int, col as int),
                self.cost == old(self).cost,
                self.remaining_distance == old(self).remaining_distance,
                self.fitness == old(self).fitness,
                self.origin_row == old(self).origin_row,
                self.origin_col == old(self).origin_col,
                ({
                    let p = seed_prefix(map, x as int, y as int, draws@, i as nat);
                    &&& row == p.0
                    &&& col == p.1
                    &&& self.actions@ == start + p.2
                }),
            decreases n - i,
        {
            let a = seed_step_exec(map, row, col, draws, i, n);
            let (dr, dc) = direction_value(&a);
            self.actions.push(a);
            assert(self.actions@ =~= start + seed_prefix(map, x as int, y as int, draws@, (i + 1) as nat).2);
            row = row + dr as i64;
            col = col + dc as i64;
            i = i + 1;
        }
    }

    /// Appends `n` randomly seeded steps walking from `(x, y)`.
    pub fn generate_random_sequence(&mut self, n: usize, x: usize, y: usize, map: &Grid)
        requires
            map.wf(),
            n <= MAX_PLAN,
            in_bounds(map.size as int, x as int, y as int),
            old(self).actions.len() + n <= MAX_PLAN,
        ensures
            exists|d: Seq<u32>|
                d.len() == n * SEED_ATTEMPTS && final(self).actions@ == old(self).actions@ + seed_prefix(
                    map,
                    x as int,
                    y as int,
                    d,
                    n as nat,
                ).2,
            final(self).actions.len() == old(self).actions.len() + n,
            final(self).cost == old(self).cost,
            final(self).remaining_distance == old(self).remaining_distance,
            final(self).fitness == old(self).fitness,
            final(self).origin_row == old(self).origin_row,
            final(self).origin_col == old(self).origin_col,
    {
        let total = n * SEED_ATTEMPTS;
        let mut draws: Vec<u32> = Vec::new();
        let mut i: usize = 0;
        while i < total
            invariant
                i <= total,
                draws.len() == i,
            decreases total - i,
        {
            draws.push(random_below(5));
            i = i + 1;
        }
        self.generate_sequence_with_draws(n, x, y, map, &draws);
        proof {
            lemma_seed_len(map, x as int, y as int, draws@, n as nat);
        }
    }

    /// A fresh plan of `n` randomly seeded steps from `(x, y)`.
    pub fn new(n: usize, x: usize, y: usize, map: &Grid) -> (r: GeneticSearch)
        requires
            map.wf(),
            n <= MAX_PLAN,
            in_bounds(map.size as int, x as int, y as int),
        ensures
            r.actions.len() == n,
            r.origin_row == x,
            r.origin_col == y,
            r.cost == UNEVALUATED,
            r.remaining_distance == FAR,
            r.fitness == FRESH_FITNESS,
    {
        let mut g = GeneticSearch::new_with_vector(x, y, Vec::new());
        g.generate_random_sequence(n, x, y, map);
        g
    }
}

proof fn lemma_seed_len(g: &Grid, row: int, col: int, draws: Seq<u32>, n: nat)
    ensures
        seed_prefix(g, row, col, draws, n).2.len() == n,
    decreases n,
{
    if n > 0 {
        lemma_seed_len(g, row, col, draws, (n - 1) as nat);
    }
}

impl Default for GeneticSearch {
    /// An empty plan from the corner, marked as never evaluated.
    fn default() -> (r: GeneticSearch)
        ensures
            r.actions@.len() == 0,
            r.cost == UNEVALUATED,
            r.remaining_distance == UNEVALUATED,
            r.fitness == UNEVALUATED,
            r.origin_row == 0,
            r.origin_col == 0,
    {
        GeneticSearch {
            actions: Vec::new(),
            cost: UNEVALUATED,
            remaining_distance: UNEVALUATED,
            origin_row: 0,
            origin_col: 0,
            fitness: UNEVALUATED,
        }
    }
}

} // verus!
