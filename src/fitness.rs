use vstd::prelude::*;

use crate::action::{alternative_of_draw, direction_value, offset, plain, reverses, same_kind, InputDir};
use crate::grid::{
    genetic_cost, in_bounds, is_good_tile, manhattan, ContentKind, Grid, TerrainKind, MAX_WORLD,
};
use crate::rng::random_below;

verus! {

/// Longest plan the engine evaluates.
pub const MAX_PLAN: usize = 4096;

/// Most resamples that the repair of one step may draw.
pub const MAX_REPAIRS: usize = 16;

/// Largest weight; weights are in hundredths.
pub const MAX_WEIGHT: u32 = 1000;

/// Bound on what one step adds to or takes from a plan's cost.
pub const STEP_BOUND: i64 = 0x4_0000_0000;

/// Cost and fitness given to a plan that was never evaluated.
pub const UNEVALUATED: i64 = 10000;

/// Remaining distance given to a fresh plan.
pub const FAR: i64 = 100;

/// Parameters of the search. The weights are in hundredths: a weight of 25
/// counts a term a quarter.
pub struct EngineConfig {
    /// Number of actions in a plan.
    pub chromosome_len: usize,
    /// Number of generations a search runs.
    pub generations: usize,
    /// Resamples a step onto an impassable cell may try.
    pub repair_attempts: usize,
    /// Weight of the cost of a plan's steps.
    pub w_cost: u32,
    /// Weight of each cancelling move pair, counted ten times.
    pub w_backtrack: u32,
    /// Weight of each null move, counted ten times.
    pub w_null: u32,
    /// Weight of each bonus, counted ten times, in the plan's favour.
    pub w_bonus: u32,
    /// Weight of each step into shallow water, counted fifty times.
    pub w_loiter: u32,
    /// Content kinds that earn a bonus.
    pub rewarded: Vec<ContentKind>,
}

impl EngineConfig {
    pub open spec fn wf(&self) -> bool {
        &&& self.chromosome_len <= MAX_PLAN
        &&& 1 <= self.repair_attempts <= MAX_REPAIRS
        &&& self.w_cost <= MAX_WEIGHT
        &&& self.w_backtrack <= MAX_WEIGHT
        &&& self.w_null <= MAX_WEIGHT
        &&& self.w_bonus <= MAX_WEIGHT
        &&& self.w_loiter <= MAX_WEIGHT
    }

    /// Content of kind `k` earns a bonus when a plan passes over it.
    pub open spec fn rewards(&self, k: ContentKind) -> bool {
        self.rewarded@.contains(k)
    }

    /// The settings the search was tuned with: plans of 24 steps, 300
    /// generations, cost 0.01, backtracking 0.15, null moves 0.25, bonuses
    /// 0.25, shallow water 0.34, and coins, garbage and trees rewarded.
    pub fn tuned() -> (r: EngineConfig)
        ensures
            r.wf(),
            r.chromosome_len == 24,
            r.generations == 300,
            r.w_cost == 1 && r.w_backtrack == 15 && r.w_null == 25 && r.w_bonus == 25 && r.w_loiter == 34,
            r.rewarded@ == seq![ContentKind::Coin, ContentKind::Garbage, ContentKind::Tree],
    {
        EngineConfig {
            chromosome_len: 24,
            generations: 300,
            repair_attempts: 8,
            w_cost: 1,
            w_backtrack: 15,
            w_null: 25,
            w_bonus: 25,
            w_loiter: 34,
            rewarded: vec![ContentKind::Coin, ContentKind::Garbage, ContentKind::Tree],
        }
    }

    /// Kind `k` is rewarded.
    pub fn is_rewarded(&self, k: ContentKind) -> (r: bool)
        ensures
            r == self.rewards(k),
    {
        let mut i: usize = 0;
        while i < self.rewarded.len()
            invariant
                i <= self.rewarded.len(),
                forall|j: int| 0 <= j < i ==> self.rewarded@[j] != k,
            decreases self.rewarded.len() - i,
        {
            if self.rewarded[i] == k {
                return true;
            }
            i = i + 1;
        }
        false
    }
}

/// A candidate plan: a fixed-length sequence of actions from an origin cell,
/// with what its last evaluation found. Lower fitness is better.
pub struct GeneticSearch {
    pub actions: Vec<InputDir>,
    pub cost: i64,
    pub remaining_distance: i64,
    pub origin_row: usize,
    pub origin_col: usize,
    pub fitness: i64,
}

/// Ghost state of an evaluation after a prefix of the plan.
pub struct Walk {
    pub row: int,
    pub col: int,
    pub cost: int,
    pub nulls: nat,
    pub bonuses: nat,
    pub loiters: nat,
    pub credited: Seq<(int, int)>,
    pub actions: Seq<InputDir>,
}

/// What an evaluation of a plan finds.
pub struct Evaluation {
    pub actions: Seq<InputDir>,
    pub cost: int,
    pub remaining: int,
    pub backtracks: nat,
    pub nulls: nat,
    pub bonuses: nat,
    pub loiters: nat,
    pub fitness: int,
}

/// The action with the destroy flag set and the deposit flag cleared.
pub open spec fn flagged(a: InputDir) -> InputDir {
    match a {
        InputDir::Right(_, _) => InputDir::Right(true, false),
        InputDir::Left(_, _) => InputDir::Left(true, false),
        InputDir::Top(_, _) => InputDir::Top(true, false),
        InputDir::Bottom(_, _) => InputDir::Bottom(true, false),
        InputDir::NoOp => InputDir::NoOp,
    }
}

/// Repair of a step that targets an impassable cell: the first of the
/// resamples `k..repair_attempts` whose target can be stepped onto, or a
/// no-op when none can. Resample `k` of step `i` reads draw
/// `i * repair_attempts + k`.
pub open spec fn repair(
    g: &Grid,
    cfg: &EngineConfig,
    row: int,
    col: int,
    a: InputDir,
    draws: Seq<u32>,
    i: int,
    k: int,
) -> InputDir
    decreases cfg.repair_attempts - k,
{
    if k >= cfg.repair_attempts {
        InputDir::NoOp
    } else {
        let alt = alternative_of_draw(a, (draws[i * cfg.repair_attempts + k] % 4) as int);
        if g.passable(row + offset(alt).0, col + offset(alt).1) {
            alt
        } else {
            repair(g, cfg, row, col, a, draws, i, k + 1)
        }
    }
}

/// Carries out the action `b`, whose target can be stepped onto (or which is
/// a no-op): pays the step, counts shallow water, credits a rewarded content
/// not credited before, and records the action with its flags.
pub open spec fn advance(g: &Grid, cfg: &EngineConfig, w: Walk, b: InputDir) -> Walk {
    if b is NoOp {
        Walk { actions: w.actions.push(InputDir::NoOp), ..w }
    } else {
        let nr = w.row + offset(b).0;
        let nc = w.col + offset(b).1;
        let cell = g.cell(nr, nc)->0;
        let paid = w.cost + g.step_cost(w.row, w.col, nr, nc);
        let loiters = if cell.terrain == TerrainKind::ShallowWater {
            w.loiters + 1
        } else {
            w.loiters
        };
        if cell.content is Some && cfg.rewards(cell.content->0.kind) && !w.credited.contains(
            (nr, nc),
        ) {
            Walk {
                row: nr,
                col: nc,
                cost: paid - g.content_value(cell.content->0.kind),
                nulls: w.nulls,
                bonuses: w.bonuses + 1,
                loiters,
                credited: w.credited.push((nr, nc)),
                actions: w.actions.push(flagged(b)),
            }
        } else {
            Walk {
                row: nr,
                col: nc,
                cost: paid,
                nulls: w.nulls,
                bonuses: w.bonuses,
                loiters,
                credited: w.credited,
                actions: w.actions.push(plain(b)),
            }
        }
    }
}

/// One step of an evaluation: action `a`, the `i`-th of the plan.
pub open spec fn eval_step(
    g: &Grid,
    cfg: &EngineConfig,
    w: Walk,
    a: InputDir,
    draws: Seq<u32>,
    i: int,
) -> Walk {
    if a is NoOp {
        Walk { actions: w.actions.push(InputDir::NoOp), ..w }
    } else {
        let nr = w.row + offset(a).0;
        let nc = w.col + offset(a).1;
        if g.cell(nr, nc) is None {
            Walk { nulls: w.nulls + 1, actions: w.actions.push(InputDir::NoOp), ..w }
        } else if !g.passable(nr, nc) {
            let b = repair(g, cfg, w.row, w.col, a, draws, i, 0);
            advance(g, cfg, Walk { nulls: w.nulls + 1, ..w }, b)
        } else {
            advance(g, cfg, w, a)
        }
    }
}

/// The evaluation after the first `n` actions of `acts`, from `(row, col)`.
pub open spec fn walk_prefix(
    g: &Grid,
    cfg: &EngineConfig,
    row: int,
    col: int,
    acts: Seq<InputDir>,
    draws: Seq<u32>,
    n: nat,
) -> Walk
    decreases n,
{
    if n == 0 {
        Walk {
            row,
            col,
            cost: 0,
            nulls: 0,
            bonuses: 0,
            loiters: 0,
            credited: Seq::empty(),
            actions: Seq::empty(),
        }
    } else {
        eval_step(
            g,
            cfg,
            walk_prefix(g, cfg, row, col, acts, draws, (n - 1) as nat),
            acts[n - 1],
            draws,
            n - 1,
        )
    }
}

/// Folds the first `n` actions onto a stack, skipping no-ops: an action that
/// reverses the top of the stack pops it and counts one backtrack, any other
/// is pushed. Returns the stack and the count.
pub open spec fn fold_backtracks(acts: Seq<InputDir>, n: nat) -> (Seq<InputDir>, nat)
    decreases n,
{
    if n == 0 {
        (Seq::empty(), 0)
    } else {
        let (stack, count) = fold_backtracks(acts, (n - 1) as nat);
        let a = acts[n - 1];
        if a is NoOp {
            (stack, count)
        } else if stack.len() > 0 && reverses(a, stack.last()) {
            (stack.drop_last(), count + 1)
        } else {
            (stack.push(a), count)
        }
    }
}

/// Number of cancelling move pairs in a plan.
pub open spec fn backtracks(acts: Seq<InputDir>) -> nat {
    fold_backtracks(acts, acts.len()).1
}

/// Fitness in hundredths: cost, backtracks, null moves and shallow-water
/// steps weigh against a plan, bonuses for it.
pub open spec fn fitness_of(
    cfg: &EngineConfig,
    cost: int,
    backtracks: int,
    nulls: int,
    bonuses: int,
    loiters: int,
) -> int {
    cost * cfg.w_cost + backtracks * 10 * cfg.w_backtrack + nulls * 10 * cfg.w_null - bonuses * 10
        * cfg.w_bonus + loiters * 50 * cfg.w_loiter
}

/// Evaluation of the plan `acts` from `(row, col)` toward `dest`, repairs
/// reading `draws`.
pub open spec fn evaluation(
    g: &Grid,
    cfg: &EngineConfig,
    row: int,
    col: int,
    acts: Seq<InputDir>,
    dest: (int, int),
    draws: Seq<u32>,
) -> Evaluation {
    let w = walk_prefix(g, cfg, row, col, acts, draws, acts.len());
    let back = backtracks(w.actions);
    Evaluation {
        actions: w.actions,
        cost: w.cost,
        remaining: manhattan(w.row, w.col, dest.0, dest.1),
        backtracks: back,
        nulls: w.nulls,
        bonuses: w.bonuses,
        loiters: w.loiters,
        fitness: fitness_of(cfg, w.cost, back as int, w.nulls as int, w.bonuses as int, w.loiters as int),
    }
}

/// The cells of a credit list, as mathematical pairs.
pub open spec fn as_cells(v: Seq<(i64, i64)>) -> Seq<(int, int)> {
    v.map_values(|p: (i64, i64)| (p.0 as int, p.1 as int))
}

/// Every resample that the repair picks can be stepped onto, and carries no flag.
pub proof fn lemma_repair_lands(
    g: &Grid,
    cfg: &EngineConfig,
    row: int,
    col: int,
    a: InputDir,
    draws: Seq<u32>,
    i: int,
    k: int,
)
    ensures
        ({
            let b = repair(g, cfg, row, col, a, draws, i, k);
            &&& b == plain(b)
            &&& b is NoOp || g.passable(row + offset(b).0, col + offset(b).1)
        }),
    decreases cfg.repair_attempts - k,
{
    if k < cfg.repair_attempts {
        lemma_repair_lands(g, cfg, row, col, a, draws, i, k + 1);
    }
}

fn with_destroy(a: InputDir) -> (r: InputDir)
    ensures
        r == flagged(a),
{
    match a {
        InputDir::Right(_, _) => InputDir::Right(true, false),
        InputDir::Left(_, _) => InputDir::Left(true, false),
        InputDir::Top(_, _) => InputDir::Top(true, false),
        InputDir::Bottom(_, _) => InputDir::Bottom(true, false),
        InputDir::NoOp => InputDir::NoOp,
    }
}

fn credited_contains(credited: &Vec<(i64, i64)>, r: i64, c: i64) -> (res: bool)
    ensures
        res == as_cells(credited@).contains((r as int, c as int)),
{
    let mut i: usize = 0;
    while i < credited.len()
        invariant
            i <= credited.len(),
            forall|j: int| 0 <= j < i ==> as_cells(credited@)[j] != (r as int, c as int),
        decreases credited.len() - i,
    {
        if credited[i].0 == r && credited[i].1 == c {
            assert(as_cells(credited@)[i as int] == (r as int, c as int));
            return true;
        }
        i = i + 1;
    }
    false
}

/// Repair of step `i` from `(row, col)`, exactly as `repair` states it.
fn repair_step(
    g: &Grid,
    cfg: &EngineConfig,
    row: i64,
    col: i64,
    a: InputDir,
    draws: &Vec<u32>,
    i: usize,
    n: usize,
) -> (r: InputDir)
    requires
        g.wf(),
        cfg.wf(),
        i < n,
        n <= MAX_PLAN,
        draws.len() == n * cfg.repair_attempts,
        -1 <= row <= MAX_WORLD,
        -1 <= col <= MAX_WORLD,
    ensures
        r == repair(g, cfg, row as int, col as int, a, draws@, i as int, 0),
{
    let attempts = cfg.repair_attempts;
    let mut k: usize = 0;
    while k < attempts
        invariant
            k <= attempts,
            attempts == cfg.repair_attempts,
            1 <= attempts <= MAX_REPAIRS,
            i < n <= MAX_PLAN,
            draws.len() == n * attempts,
            g.wf(),
            -1 <= row <= MAX_WORLD,
            -1 <= col <= MAX_WORLD,
            repair(g, cfg, row as int, col as int, a, draws@, i as int, 0) == repair(
                g,
                cfg,
                row as int,
                col as int,
                a,
                draws@,
                i as int,
                k as int,
            ),
        decreases attempts - k,
    {
        assert(i * attempts + k < n * attempts) by (nonlinear_arith)
            requires
                i < n,
                k < attempts,
        ;
        let idx = i * attempts + k;
        let alt = a.alternative(draws[idx] % 4);
        let (dr, dc) = direction_value(&alt);
        if g.is_passable(row + dr as i64, col + dc as i64) {
            return alt;
        }
        k = k + 1;
    }
    InputDir::NoOp
}

/// Number of cancelling move pairs in a plan.
pub fn count_backtracks(acts: &Vec<InputDir>) -> (r: u64)
    requires
        acts.len() <= MAX_PLAN,
    ensures
        r == backtracks(acts@),
        r <= acts.len(),
{
    let mut stack: Vec<InputDir> = Vec::new();
    let mut count: u64 = 0;
    let mut i: usize = 0;
    while i < acts.len()
        invariant
            i <= acts.len() <= MAX_PLAN,
            stack@ == fold_backtracks(acts@, i as nat).0,
            count == fold_backtracks(acts@, i as nat).1,
            count <= i,
        decreases acts.len() - i,
    {
        let a = acts[i];
        if a != InputDir::NoOp {
            if stack.len() > 0 && a.is_reverse(&stack[stack.len() - 1]) {
                stack.pop();
                count = count + 1;
            } else {
                stack.push(a);
            }
        }
        i = i + 1;
    }
    count
}

/// Fitness in hundredths, as `fitness_of` states it.
pub fn weigh(
    cfg: &EngineConfig,
    cost: i64,
    backtracks: u64,
    nulls: u64,
    bonuses: u64,
    loiters: u64,
) -> (r: i64)
    requires
        cfg.wf(),
        -(MAX_PLAN as int) * STEP_BOUND <= cost <= (MAX_PLAN as int) * STEP_BOUND,
        backtracks <= MAX_PLAN,
        nulls <= MAX_PLAN,
        bonuses <= MAX_PLAN,
        loiters <= MAX_PLAN,
    ensures
        r == fitness_of(cfg, cost as int, backtracks as int, nulls as int, bonuses as int, loiters as int),
{
    let wc = cfg.w_cost as i64;
    let wb = cfg.w_backtrack as i64;
    let wn = cfg.w_null as i64;
    let wo = cfg.w_bonus as i64;
    let wl = cfg.w_loiter as i64;
    let b = backtracks as i64;
    let n = nulls as i64;
    let o = bonuses as i64;
    let l = loiters as i64;
    assert(-0x100_0000_0000_0000 <= cost * wc <= 0x100_0000_0000_0000) by (nonlinear_arith)
        requires
            -(MAX_PLAN as int) * STEP_BOUND <= cost <= (MAX_PLAN as int) * STEP_BOUND,
            0 <= wc <= 1000,
    ;
    assert(0 <= b * 10 * wb <= 50_000_000) by (nonlinear_arith)
        requires
            0 <= b <= 4096,
            0 <= wb <= 1000,
    ;
    assert(0 <= n * 10 * wn <= 50_000_000) by (nonlinear_arith)
        requires
            0 <= n <= 4096,
            0 <= wn <= 1000,
    ;
    assert(0 <= o * 10 * wo <= 50_000_000) by (nonlinear_arith)
        requires
            0 <= o <= 4096,
            0 <= wo <= 1000,
    ;
    assert(0 <= l * 50 * wl <= 250_000_000) by (nonlinear_arith)
        requires
            0 <= l <= 4096,
            0 <= wl <= 1000,
    ;
    cost * wc + b * 10 * wb + n * 10 * wn - o * 10 * wo + l * 50 * wl
}

impl GeneticSearch {
    /// The plan's fields hold what the evaluation `e` found.
    pub open spec fn records(&self, e: Evaluation) -> bool {
        &&& self.actions@ == e.actions
        &&& self.cost == e.cost
        &&& self.remaining_distance == e.remaining
        &&& self.fitness == e.fitness
    }

    /// Evaluates the plan toward `destination`: walks it from its origin,
    /// turning steps that leave the grid or enter unobserved cells into
    /// no-ops, repairing steps onto impassable cells with the resamples that
    /// `draws` give, paying each step, crediting bonuses, and then records
    /// cost, remaining distance and fitness.
    pub fn evaluate_with_draws(
        &mut self,
        map: &Grid,
        destination: (usize, usize),
        cfg: &EngineConfig,
        draws: &Vec<u32>,
    )
        requires
            map.wf(),
            cfg.wf(),
            old(self).actions.len() <= MAX_PLAN,
            in_bounds(map.size as int, old(self).origin_row as int, old(self).origin_col as int),
            destination.0 <= MAX_WORLD,
            destination.1 <= MAX_WORLD,
            draws.len() == old(self).actions.len() * cfg.repair_attempts,
        ensures
            final(self).records(
                evaluation(
                    map,
                    cfg,
                    old(self).origin_row as int,
                    old(self).origin_col as int,
                    old(self).actions@,
                    (destination.0 as int, destination.1 as int),
                    draws@,
                ),
            ),
            final(self).origin_row == old(self).origin_row,
            final(self).origin_col == old(self).origin_col,
            final(self).actions.len() == old(self).actions.len(),
            final(self).remaining_distance >= 0,
    {
        let ghost acts = self.actions@;
        let ghost r0 = self.origin_row as int;
        let ghost c0 = self.origin_col as int;
        let n = self.actions.len();
        let mut row: i64 = self.origin_row as i64;
        let mut col: i64 = self.origin_col as i64;
        let mut cost: i64 = 0;
        let mut nulls: u64 = 0;
        let mut bonuses: u64 = 0;
        let mut loiters: u64 = 0;
        let mut credited: Vec<(i64, i64)> = Vec::new();
        let mut out: Vec<InputDir> = Vec::new();
        let mut i: usize = 0;
        assert(as_cells(credited@) =~= Seq::<(int, int)>::empty());
        while i < n
            invariant
                i <= n,
                n == acts.len(),
                n <= MAX_PLAN,
                self.actions@ == acts,
                map.wf(),
                cfg.wf(),
                draws.len() == n * cfg.repair_attempts,
                in_bounds(map.size as int, row as int, col as int),
                -(i as int) * STEP_BOUND <= cost <= (i as int) * STEP_BOUND,
                nulls <= i,
                bonuses <= i,
                loiters <= i,
                out.len() == i,
                ({
                    let w = walk_prefix(map, cfg, r0, c0, acts, draws@, i as nat);
                    &&& row == w.row
                    &&& col == w.col
                    &&& cost == w.cost
                    &&& nulls == w.nulls
                    &&& bonuses == w.bonuses
                    &&& loiters == w.loiters
                    &&& as_cells(credited@) == w.credited
                    &&& out@ == w.actions
                }),
            decreases n - i,
        {
            let ghost w = walk_prefix(map, cfg, r0, c0, acts, draws@, i as nat);
            let a = self.actions[i];
            if a == InputDir::NoOp {
                out.push(InputDir::NoOp);
            } else {
                let (dr, dc) = direction_value(&a);
                let target = map.cell_at(row + dr as i64, col + dc as i64);
                if target.is_none() {
                    nulls = nulls + 1;
                    out.push(InputDir::NoOp);
                } else {
                    let mut b = a;
                    if !is_good_tile(&target) {
                        nulls = nulls + 1;
                        b = repair_step(map, cfg, row, col, a, draws, i, n);
                        proof {
                            lemma_repair_lands(map, cfg, w.row, w.col, a, draws@, i as int, 0);
                        }
                    }
                    if b == InputDir::NoOp {
                        out.push(InputDir::NoOp);
                    } else {
                        let (br, bc) = direction_value(&b);
                        let nr = row + br as i64;
                        let nc = col + bc as i64;
                        let cell_opt = map.cell_at(nr, nc);
                        if let Some(cell) = cell_opt {
                            let step = genetic_cost((row as usize, col as usize), (nr as usize, nc as usize), map);
                            cost = cost + step as i64;
                            if cell.terrain == TerrainKind::ShallowWater {
                                loiters = loiters + 1;
                            }
                            let mut credit = false;
                            if let Some(content) = cell.content {
                                if cfg.is_rewarded(content.kind) && !credited_contains(&credited, nr, nc) {
                                    credit = true;
                                    let value = map.content_value_of(content.kind);
                                    cost = cost - value as i64;
                                    bonuses = bonuses + 1;
                                    let ghost before = credited@;
                                    credited.push((nr, nc));
                                    assert(as_cells(credited@) =~= as_cells(before).push((nr as int, nc as int)));
                                    out.push(with_destroy(b));
                                }
                            }
                            if !credit {
                                out.push(b.cleared());
                            }
                            row = nr;
                            col = nc;
                        }
                    }
                }
            }
            i = i + 1;
        }
        let back = count_backtracks(&out);
        let dr: i64 = if row >= destination.0 as i64 { row - destination.0 as i64 } else { destination.0 as i64 - row };
        let dc: i64 = if col >= destination.1 as i64 { col - destination.1 as i64 } else { destination.1 as i64 - col };
        let fitness = weigh(cfg, cost, back, nulls, bonuses, loiters);
        self.actions = out;
        self.cost = cost;
        self.remaining_distance = dr + dc;
        self.fitness = fitness;
    }

    /// Evaluates the plan toward `destination`, drawing the resamples of
    /// its repairs at random.
    pub fn genetic_cost(&mut self, map: &Grid, destination: (usize, usize), cfg: &EngineConfig)
        requires
            map.wf(),
            cfg.wf(),
            old(self).actions.len() <= MAX_PLAN,
            in_bounds(map.size as int, old(self).origin_row as int, old(self).origin_col as int),
            destination.0 <= MAX_WORLD,
            destination.1 <= MAX_WORLD,
        ensures
            exists|d: Seq<u32>|
                d.len() == old(self).actions.len() * cfg.repair_attempts && #[trigger] final(self).records(
                    evaluation(
                        map,
                        cfg,
                        old(self).origin_row as int,
                        old(self).origin_col as int,
                        old(self).actions@,
                        (destination.0 as int, destination.1 as int),
                        d,
                    ),
                ),
            final(self).origin_row == old(self).origin_row,
            final(self).origin_col == old(self).origin_col,
            final(self).actions.len() == old(self).actions.len(),
            final(self).remaining_distance >= 0,
    {
        assert(self.actions.len() * cfg.repair_attempts <= MAX_PLAN * MAX_REPAIRS) by (nonlinear_arith)
            requires
                self.actions.len() <= MAX_PLAN,
                cfg.repair_attempts <= MAX_REPAIRS,
        ;
        let total = self.actions.len() * cfg.repair_attempts;
        let mut draws: Vec<u32> = Vec::new();
        let mut i: usize = 0;
        while i < total
            invariant
                i <= total,
                draws.len() == i,
            decreases total - i,
        {
            draws.push(random_below(4));
            i = i + 1;
        }
        self.evaluate_with_draws(map, destination, cfg, &draws);
    }
}

/// Raising the weight of null moves, all other weights kept, never lowers
/// the fitness of a plan with more null moves relative to one with fewer:
/// the gap between them widens by the extra null moves times the raise.
pub proof fn lemma_null_weight_monotone(
    cfg: &EngineConfig,
    heavier: &EngineConfig,
    more: Evaluation,
    fewer: Evaluation,
)
    requires
        heavier.w_null >= cfg.w_null,
        heavier.w_cost == cfg.w_cost,
        heavier.w_backtrack == cfg.w_backtrack,
        heavier.w_bonus == cfg.w_bonus,
        heavier.w_loiter == cfg.w_loiter,
        more.nulls >= fewer.nulls,
    ensures
        fitness_of(heavier, more.cost, more.backtracks as int, more.nulls as int, more.bonuses as int, more.loiters as int)
            - fitness_of(heavier, fewer.cost, fewer.backtracks as int, fewer.nulls as int, fewer.bonuses as int, fewer.loiters as int)
            >= fitness_of(cfg, more.cost, more.backtracks as int, more.nulls as int, more.bonuses as int, more.loiters as int)
            - fitness_of(cfg, fewer.cost, fewer.backtracks as int, fewer.nulls as int, fewer.bonuses as int, fewer.loiters as int),
{
    let dn = more.nulls - fewer.nulls;
    let dw = heavier.w_null - cfg.w_null;
    assert(dn * 10 * dw >= 0) by (nonlinear_arith)
        requires
            dn >= 0,
            dw >= 0,
    ;
    assert(more.nulls * 10 * heavier.w_null - fewer.nulls * 10 * heavier.w_null - (more.nulls * 10 * cfg.w_null
        - fewer.nulls * 10 * cfg.w_null) == dn * 10 * dw) by (nonlinear_arith)
        requires
            dn == more.nulls - fewer.nulls,
            dw == heavier.w_null - cfg.w_null,
    ;
}

/// Evaluation is a function of the plan, its origin, the map, the
/// destination and the draws: evaluating the same plan twice gives the same
/// cost, fitness and remaining distance.
pub proof fn lemma_evaluation_deterministic(
    g: &Grid,
    cfg: &EngineConfig,
    row: int,
    col: int,
    acts: Seq<InputDir>,
    again: Seq<InputDir>,
    dest: (int, int),
    draws: Seq<u32>,
)
    requires
        again == acts,
    ensures
        evaluation(g, cfg, row, col, again, dest, draws).cost == evaluation(g, cfg, row, col, acts, dest, draws).cost,
        evaluation(g, cfg, row, col, again, dest, draws).fitness == evaluation(g, cfg, row, col, acts, dest, draws).fitness,
        evaluation(g, cfg, row, col, again, dest, draws).remaining == evaluation(g, cfg, row, col, acts, dest, draws).remaining,
{
}

/// Two walks that agree on everything but the count of null moves.
pub open spec fn same_but_nulls(a: Walk, b: Walk) -> bool {
    &&& a.row == b.row
    &&& a.col == b.col
    &&& a.cost == b.cost
    &&& a.bonuses == b.bonuses
    &&& a.loiters == b.loiters
    &&& a.credited == b.credited
    &&& a.actions == b.actions
}

proof fn lemma_advance_same_move(g: &Grid, cfg: &EngineConfig, w1: Walk, w2: Walk, b1: InputDir, b2: InputDir)
    requires
        same_but_nulls(w1, w2),
        same_kind(b1, b2),
    ensures
        same_but_nulls(advance(g, cfg, w1, b1), advance(g, cfg, w2, b2)),
        advance(g, cfg, w2, b2).nulls == w2.nulls,
{
}

proof fn lemma_walk_shape(g: &Grid, cfg: &EngineConfig, row: int, col: int, acts: Seq<InputDir>, draws: Seq<u32>, n: nat)
    requires
        n <= acts.len(),
    ensures
        walk_prefix(g, cfg, row, col, acts, draws, n).actions.len() == n,
        forall|m: nat|
            m <= n ==> #[trigger] walk_prefix(g, cfg, row, col, acts, draws, n).actions.subrange(0, m as int)
                == walk_prefix(g, cfg, row, col, acts, draws, m).actions,
    decreases n,
{
    if n > 0 {
        lemma_walk_shape(g, cfg, row, col, acts, draws, (n - 1) as nat);
        let prev = walk_prefix(g, cfg, row, col, acts, draws, (n - 1) as nat);
        let cur = walk_prefix(g, cfg, row, col, acts, draws, n);
        assert(cur.actions.subrange(0, n - 1) =~= prev.actions);
        assert forall|m: nat| m <= n implies #[trigger] cur.actions.subrange(0, m as int) == walk_prefix(
            g,
            cfg,
            row,
            col,
            acts,
            draws,
            m,
        ).actions by {
            if m < n {
                assert(cur.actions.subrange(0, m as int) =~= prev.actions.subrange(0, m as int));
            } else {
                assert(cur.actions.subrange(0, m as int) =~= cur.actions);
            }
        }
    }
}

proof fn lemma_reevaluation_prefix(
    g: &Grid,
    cfg: &EngineConfig,
    row: int,
    col: int,
    acts: Seq<InputDir>,
    d1: Seq<u32>,
    d2: Seq<u32>,
    n: nat,
)
    requires
        n <= acts.len(),
    ensures
        ({
            let out = walk_prefix(g, cfg, row, col, acts, d1, acts.len()).actions;
            let w1 = walk_prefix(g, cfg, row, col, acts, d1, n);
            let w2 = walk_prefix(g, cfg, row, col, out, d2, n);
            same_but_nulls(w1, w2) && w2.nulls == 0
        }),
    decreases n,
{
    lemma_walk_shape(g, cfg, row, col, acts, d1, acts.len());
    if n > 0 {
        lemma_reevaluation_prefix(g, cfg, row, col, acts, d1, d2, (n - 1) as nat);
        lemma_walk_shape(g, cfg, row, col, acts, d1, n);
        let out = walk_prefix(g, cfg, row, col, acts, d1, acts.len()).actions;
        let p1 = walk_prefix(g, cfg, row, col, acts, d1, (n - 1) as nat);
        let p2 = walk_prefix(g, cfg, row, col, out, d2, (n - 1) as nat);
        let w1 = walk_prefix(g, cfg, row, col, acts, d1, n);
        let a = acts[n - 1];
        let o = out[n - 1];
        assert(out.subrange(0, n as int) == w1.actions);
        assert(o == w1.actions[n - 1]);
        let nr = p1.row + offset(a).0;
        let nc = p1.col + offset(a).1;
        if a is NoOp {
        } else if g.cell(nr, nc) is None {
        } else if !g.passable(nr, nc) {
            let b = repair(g, cfg, p1.row, p1.col, a, d1, n - 1, 0);
            lemma_repair_lands(g, cfg, p1.row, p1.col, a, d1, n - 1, 0);
            if !(b is NoOp) {
                lemma_advance_same_move(g, cfg, Walk { nulls: p1.nulls + 1, ..p1 }, p2, b, o);
            }
        } else {
            lemma_advance_same_move(g, cfg, p1, p2, a, o);
        }
    }
}

/// Evaluation is idempotent: evaluating the plan that an evaluation left
/// behind, against the same map and destination and whatever the draws,
/// finds no null move, needs no repair, and gives back the same actions,
/// cost, remaining distance, backtracks, bonuses and shallow-water steps;
/// the fitness is the same whenever the first evaluation found no null move.
pub proof fn lemma_evaluation_idempotent(
    g: &Grid,
    cfg: &EngineConfig,
    row: int,
    col: int,
    acts: Seq<InputDir>,
    dest: (int, int),
    d1: Seq<u32>,
    d2: Seq<u32>,
)
    ensures
        ({
            let e1 = evaluation(g, cfg, row, col, acts, dest, d1);
            let e2 = evaluation(g, cfg, row, col, e1.actions, dest, d2);
            &&& e2.actions == e1.actions
            &&& e2.cost == e1.cost
            &&& e2.remaining == e1.remaining
            &&& e2.backtracks == e1.backtracks
            &&& e2.bonuses == e1.bonuses
            &&& e2.loiters == e1.loiters
            &&& e2.nulls == 0
            &&& e1.nulls == 0 ==> e2.fitness == e1.fitness
        }),
{
    lemma_walk_shape(g, cfg, row, col, acts, d1, acts.len());
    lemma_reevaluation_prefix(g, cfg, row, col, acts, d1, d2, acts.len());
}

/// Sum of the offsets of a sequence of actions.
pub open spec fn displacement(acts: Seq<InputDir>) -> (int, int)
    decreases acts.len(),
{
    if acts.len() == 0 {
        (0, 0)
    } else {
        let d = displacement(acts.drop_last());
        (d.0 + offset(acts.last()).0, d.1 + offset(acts.last()).1)
    }
}

proof fn lemma_walk_displacement(
    g: &Grid,
    cfg: &EngineConfig,
    row: int,
    col: int,
    acts: Seq<InputDir>,
    draws: Seq<u32>,
    n: nat,
)
    requires
        n <= acts.len(),
    ensures
        ({
            let w = walk_prefix(g, cfg, row, col, acts, draws, n);
            w.row == row + displacement(w.actions).0 && w.col == col + displacement(w.actions).1
        }),
    decreases n,
{
    if n > 0 {
        lemma_walk_displacement(g, cfg, row, col, acts, draws, (n - 1) as nat);
        let p = walk_prefix(g, cfg, row, col, acts, draws, (n - 1) as nat);
        let w = walk_prefix(g, cfg, row, col, acts, draws, n);
        assert(w.actions.drop_last() =~= p.actions);
        let a = acts[n - 1];
        let b = repair(g, cfg, p.row, p.col, a, draws, n - 1, 0);
        assert(offset(flagged(a)) == offset(a) && offset(plain(a)) == offset(a));
        assert(offset(flagged(b)) == offset(b) && offset(plain(b)) == offset(b));
    }
}

proof fn lemma_walk_on_grid(
    g: &Grid,
    cfg: &EngineConfig,
    row: int,
    col: int,
    acts: Seq<InputDir>,
    draws: Seq<u32>,
    n: nat,
)
    requires
        in_bounds(g.size as int, row, col),
        n <= acts.len(),
    ensures
        in_bounds(
            g.size as int,
            walk_prefix(g, cfg, row, col, acts, draws, n).row,
            walk_prefix(g, cfg, row, col, acts, draws, n).col,
        ),
    decreases n,
{
    if n > 0 {
        lemma_walk_on_grid(g, cfg, row, col, acts, draws, (n - 1) as nat);
        let w = walk_prefix(g, cfg, row, col, acts, draws, (n - 1) as nat);
        lemma_repair_lands(g, cfg, w.row, w.col, acts[n - 1], draws, n - 1, 0);
    }
}

/// The remaining distance of every evaluation is never negative: it is the
/// Manhattan distance from the cell where the walk ends, a cell of the
/// grid, to the destination. That cell is the origin moved by the offsets
/// of the actions the evaluation records (null moves are recorded as
/// no-ops and do not move it).
pub proof fn lemma_remaining_distance(
    g: &Grid,
    cfg: &EngineConfig,
    row: int,
    col: int,
    acts: Seq<InputDir>,
    dest: (int, int),
    draws: Seq<u32>,
)
    requires
        in_bounds(g.size as int, row, col),
    ensures
        ({
            let w = walk_prefix(g, cfg, row, col, acts, draws, acts.len());
            let e = evaluation(g, cfg, row, col, acts, dest, draws);
            &&& e.remaining >= 0
            &&& e.remaining == manhattan(w.row, w.col, dest.0, dest.1)
            &&& in_bounds(g.size as int, w.row, w.col)
            &&& e.remaining == manhattan(
                row + displacement(e.actions).0,
                col + displacement(e.actions).1,
                dest.0,
                dest.1,
            )
        }),
{
    lemma_walk_on_grid(g, cfg, row, col, acts, draws, acts.len());
    lemma_walk_displacement(g, cfg, row, col, acts, draws, acts.len());
}

/// Two configurations that walk plans alike: the same repair budget and the
/// same rewarded kinds (their weights may differ).
pub open spec fn walks_alike(a: &EngineConfig, b: &EngineConfig) -> bool {
    a.repair_attempts == b.repair_attempts && a.rewarded@ == b.rewarded@
}

proof fn lemma_repair_alike(
    g: &Grid,
    c1: &EngineConfig,
    c2: &EngineConfig,
    row: int,
    col: int,
    a: InputDir,
    draws: Seq<u32>,
    i: int,
    k: int,
)
    requires
        walks_alike(c1, c2),
    ensures
        repair(g, c1, row, col, a, draws, i, k) == repair(g, c2, row, col, a, draws, i, k),
    decreases c1.repair_attempts - k,
{
    if k < c1.repair_attempts {
        lemma_repair_alike(g, c1, c2, row, col, a, draws, i, k + 1);
    }
}

proof fn lemma_walk_alike(
    g: &Grid,
    c1: &EngineConfig,
    c2: &EngineConfig,
    row: int,
    col: int,
    acts: Seq<InputDir>,
    draws: Seq<u32>,
    n: nat,
)
    requires
        walks_alike(c1, c2),
    ensures
        walk_prefix(g, c1, row, col, acts, draws, n) == walk_prefix(g, c2, row, col, acts, draws, n),
    decreases n,
{
    if n > 0 {
        lemma_walk_alike(g, c1, c2, row, col, acts, draws, (n - 1) as nat);
        let w = walk_prefix(g, c1, row, col, acts, draws, (n - 1) as nat);
        lemma_repair_alike(g, c1, c2, w.row, w.col, acts[n - 1], draws, n - 1, 0);
    }
}

/// Raising the weight of null moves, with everything else kept, never lowers
/// the fitness that evaluation gives a plan with more null moves relative to
/// one with fewer: both evaluations walk the plans exactly as before, and
/// only the weight of their null moves changes.
pub proof fn lemma_null_weight_monotone_evaluated(
    g: &Grid,
    cfg: &EngineConfig,
    heavier: &EngineConfig,
    row_a: int,
    col_a: int,
    acts_a: Seq<InputDir>,
    draws_a: Seq<u32>,
    row_b: int,
    col_b: int,
    acts_b: Seq<InputDir>,
    draws_b: Seq<u32>,
    dest: (int, int),
)
    requires
        walks_alike(cfg, heavier),
        heavier.w_null >= cfg.w_null,
        heavier.w_cost == cfg.w_cost,
        heavier.w_backtrack == cfg.w_backtrack,
        heavier.w_bonus == cfg.w_bonus,
        heavier.w_loiter == cfg.w_loiter,
        evaluation(g, cfg, row_a, col_a, acts_a, dest, draws_a).nulls >= evaluation(
            g,
            cfg,
            row_b,
            col_b,
            acts_b,
            dest,
            draws_b,
        ).nulls,
    ensures
        evaluation(g, heavier, row_a, col_a, acts_a, dest, draws_a).fitness - evaluation(
            g,
            heavier,
            row_b,
            col_b,
            acts_b,
            dest,
            draws_b,
        ).fitness >= evaluation(g, cfg, row_a, col_a, acts_a, dest, draws_a).fitness - evaluation(
            g,
            cfg,
            row_b,
            col_b,
            acts_b,
            dest,
            draws_b,
        ).fitness,
{
    lemma_walk_alike(g, cfg, heavier, row_a, col_a, acts_a, draws_a, acts_a.len());
    lemma_walk_alike(g, cfg, heavier, row_b, col_b, acts_b, draws_b, acts_b.len());
    let ea = evaluation(g, cfg, row_a, col_a, acts_a, dest, draws_a);
    let eb = evaluation(g, cfg, row_b, col_b, acts_b, dest, draws_b);
    lemma_null_weight_monotone(cfg, heavier, ea, eb);
}

} // verus!
