use vstd::prelude::*;

use crate::action::{direction_value, offset, Heading, InputDir};
use crate::fitness::GeneticSearch;
use crate::frontier::{is_cardinal, PositionToGo};
use crate::grid::{genetic_cost, in_bounds, ContentKind, Grid};

verus! {

/// Energy that sensing along one cardinal frontier costs.
pub const CARDINAL_SENSE_COST: u64 = 24;

/// Least energy reserved for sensing around the agent.
pub const MIN_LOCAL_SENSE_COST: u64 = 200;

/// Content to deposit into a container at the end of a plan.
#[derive(Clone, Copy, Debug, PartialEq, Eq, Structural)]
pub struct PutContent {
    pub content: Option<ContentKind>,
    pub quantity: u32,
}

impl Default for PutContent {
    /// Nothing to deposit.
    fn default() -> (r: PutContent)
        ensures
            r.content is None,
            r.quantity == 0,
    {
        PutContent { content: None, quantity: 0 }
    }
}

/// How the host answered the commands of one action.
#[derive(Clone, Copy, Debug, PartialEq, Eq, Structural)]
pub enum CommandOutcome {
    /// Every command was carried out.
    Done,
    /// A command failed for want of energy.
    OutOfEnergy,
    /// The host refused a command for another reason.
    Refused,
}

/// The plan being executed and its projected cost.
pub struct MovesToFollow {
    pub path_to_follow: Vec<InputDir>,
    pub cost: u64,
}

/// Every action of the plan has been executed (or was a no-op).
pub open spec fn all_done(path: Seq<InputDir>) -> bool {
    forall|i: int| 0 <= i < path.len() ==> #[trigger] path[i] == InputDir::NoOp
}

impl MovesToFollow {
    /// No plan.
    pub fn new() -> (r: MovesToFollow)
        ensures
            r.path_to_follow@.len() == 0,
            r.cost == 0,
    {
        MovesToFollow { path_to_follow: Vec::new(), cost: 0 }
    }

    /// Every action left is a no-op.
    pub fn is_done(&self) -> (r: bool)
        ensures
            r == all_done(self.path_to_follow@),
    {
        let mut i: usize = 0;
        while i < self.path_to_follow.len()
            invariant
                i <= self.path_to_follow.len(),
                forall|k: int| 0 <= k < i ==> #[trigger] self.path_to_follow@[k] == InputDir::NoOp,
            decreases self.path_to_follow.len() - i,
        {
            if self.path_to_follow[i] != InputDir::NoOp {
                return false;
            }
            i = i + 1;
        }
        true
    }

    /// Settles action `i` once the host answered its commands. An action the
    /// host refused for want of energy stays queued and draining stops, so a
    /// later tick resumes with it; an action carried out, or refused for any
    /// other reason, is retired and draining goes on.
    pub fn settle(&mut self, i: usize, outcome: CommandOutcome) -> (go_on: bool)
        requires
            i < old(self).path_to_follow.len(),
        ensures
            go_on == (outcome != CommandOutcome::OutOfEnergy),
            go_on ==> final(self).path_to_follow@ == old(self).path_to_follow@.update(i as int, InputDir::NoOp),
            !go_on ==> final(self).path_to_follow@ == old(self).path_to_follow@,
            final(self).cost == old(self).cost,
    {
        match outcome {
            CommandOutcome::OutOfEnergy => false,
            _ => {
                self.retire(i);
                true
            },
        }
    }

    /// Marks action `i` as executed, so that a later tick resumes after it.
    pub fn retire(&mut self, i: usize)
        requires
            i < old(self).path_to_follow.len(),
        ensures
            final(self).path_to_follow@ == old(self).path_to_follow@.update(i as int, InputDir::NoOp),
            final(self).cost == old(self).cost,
    {
        self.path_to_follow[i] = InputDir::NoOp;
    }
}

/// Energy cost of one queued action from `(x, y)`, and whether the agent then
/// stands on the target: a deposit (without the destroy flag, which takes
/// precedence) costs the content's value per unit and leaves the agent in
/// place; a step costs what `genetic_cost` states.
pub open spec fn queued_step(g: &Grid, put: PutContent, x: int, y: int, a: InputDir) -> (int, bool) {
    let t = (x + offset(a).0, y + offset(a).1);
    match a {
        InputDir::Right(false, true) | InputDir::Left(false, true) | InputDir::Top(false, true)
        | InputDir::Bottom(false, true) => (
            match put.content {
                Some(k) => g.content_value(k) * put.quantity,
                None => 0,
            },
            false,
        ),
        _ => (g.step_cost(x, y, t.0, t.1), true),
    }
}

/// Projected cost of the first `n` actions of `path` from `(x, y)`, with the
/// cell reached: no-ops, and steps toward cells not observed, are skipped.
pub open spec fn queue_cost_prefix(g: &Grid, put: PutContent, x: int, y: int, path: Seq<InputDir>, n: nat) -> (int, int, int)
    decreases n,
{
    if n == 0 {
        (0, x, y)
    } else {
        let (c, r, k) = queue_cost_prefix(g, put, x, y, path, (n - 1) as nat);
        let a = path[n - 1];
        let t = (r + offset(a).0, k + offset(a).1);
        if a is NoOp || g.cell(t.0, t.1) is None {
            (c, r, k)
        } else {
            let (step, moves) = queued_step(g, put, r, k, a);
            if moves {
                (c + step, t.0, t.1)
            } else {
                (c + step, r, k)
            }
        }
    }
}

pub open spec fn saturate(v: int) -> int {
    if v > u64::MAX {
        u64::MAX as int
    } else {
        v
    }
}

proof fn lemma_queue_cost_nonneg(g: &Grid, put: PutContent, x: int, y: int, path: Seq<InputDir>, n: nat)
    requires
        g.wf(),
    ensures
        queue_cost_prefix(g, put, x, y, path, n).0 >= 0,
        queue_cost_prefix(g, put, x, y, path, n).1 == x && queue_cost_prefix(g, put, x, y, path, n).2 == y
            || g.cell(queue_cost_prefix(g, put, x, y, path, n).1, queue_cost_prefix(g, put, x, y, path, n).2) is Some,
    decreases n,
{
    if n > 0 {
        lemma_queue_cost_nonneg(g, put, x, y, path, (n - 1) as nat);
        let (c, r, k) = queue_cost_prefix(g, put, x, y, path, (n - 1) as nat);
        let a = path[n - 1];
        let t = (r + offset(a).0, k + offset(a).1);
        if !(a is NoOp || g.cell(t.0, t.1) is None) {
            match put.content {
                Some(kind) => {
                    assert(g.content_value(kind) * put.quantity >= 0) by (nonlinear_arith)
                        requires
                            g.content_value(kind) >= 0,
                            put.quantity >= 0,
                    ;
                },
                None => {},
            }
        }
    }
}

/// Projected energy cost of what is left of the plan from `(x, y)`,
/// saturating at `u64::MAX`.
pub fn calculate_cost_dir(moves: &MovesToFollow, x: usize, y: usize, map: &Grid, put: &PutContent) -> (r: u64)
    requires
        map.wf(),
        in_bounds(map.size as int, x as int, y as int),
    ensures
        r == saturate(queue_cost_prefix(map, *put, x as int, y as int, moves.path_to_follow@, moves.path_to_follow.len() as nat).0),
{
    let ghost path = moves.path_to_follow@;
    let mut cost: u64 = 0;
    let mut cx: i64 = x as i64;
    let mut cy: i64 = y as i64;
    let mut i: usize = 0;
    while i < moves.path_to_follow.len()
        invariant
            i <= moves.path_to_follow.len(),
            path == moves.path_to_follow@,
            map.wf(),
            in_bounds(map.size as int, x as int, y as int),
            in_bounds(map.size as int, cx as int, cy as int),
            ({
                let q = queue_cost_prefix(map, *put, x as int, y as int, path, i as nat);
                &&& cost == saturate(q.0)
                &&& cx == q.1
                &&& cy == q.2
            }),
        decreases moves.path_to_follow.len() - i,
    {
        proof {
            lemma_queue_cost_nonneg(map, *put, x as int, y as int, path, i as nat);
            lemma_queue_cost_nonneg(map, *put, x as int, y as int, path, (i + 1) as nat);
        }
        let a = moves.path_to_follow[i];
        let (dx, dy) = direction_value(&a);
        let tx = cx + dx as i64;
        let ty = cy + dy as i64;
        if a != InputDir::NoOp && map.cell_at(tx, ty).is_some() {
            match a {
                InputDir::Right(false, true) | InputDir::Left(false, true) | InputDir::Top(false, true)
                | InputDir::Bottom(false, true) => {
                    let step: u64 = match put.content {
                        Some(k) => {
                            let v = map.content_value_of(k) as u64;
                            let q = put.quantity as u64;
                            assert(v * q <= 0xffff_ffff * 0xffff_ffff) by (nonlinear_arith)
                                requires
                                    v <= 0xffff_ffff,
                                    q <= 0xffff_ffff,
                            ;
                            v * q
                        },
                        None => 0,
                    };
                    cost = cost.saturating_add(step);
                },
                _ => {
                    let step = genetic_cost((cx as usize, cy as usize), (tx as usize, ty as usize), map);
                    cost = cost.saturating_add(step);
                    cx = tx;
                    cy = ty;
                },
            }
        }
        i = i + 1;
    }
    cost
}

/// Energy that the sensing after a plan will cost: each cardinal frontier
/// is sensed along its line, and any diagonal frontier asks for sensing
/// around the agent, reserved at no less than `MIN_LOCAL_SENSE_COST`.
pub open spec fn sensing_cost(frontiers: Seq<PositionToGo>, local_cost: int, n: nat) -> int
    decreases n,
{
    if n == 0 {
        0
    } else if is_cardinal(frontiers[n - 1]) {
        sensing_cost(frontiers, local_cost, (n - 1) as nat) + CARDINAL_SENSE_COST
    } else {
        sensing_cost(frontiers, local_cost, (n - 1) as nat)
    }
}

pub open spec fn has_diagonal(frontiers: Seq<PositionToGo>) -> bool {
    exists|i: int| 0 <= i < frontiers.len() && !is_cardinal(#[trigger] frontiers[i])
}

/// Energy projected for the rest of the plan and the sensing after it.
pub open spec fn projected_cost(queue_cost: int, frontiers: Seq<PositionToGo>, local_cost: int) -> int {
    queue_cost + sensing_cost(frontiers, local_cost, frontiers.len()) + if has_diagonal(frontiers) {
        if local_cost < MIN_LOCAL_SENSE_COST {
            MIN_LOCAL_SENSE_COST as int
        } else {
            local_cost
        }
    } else {
        0
    }
}

/// Energy projected for the rest of the plan (`queue_cost`) and for sensing
/// the `frontiers` after it, sensing around the agent costing `local_cost`.
pub fn projected_energy(queue_cost: u64, frontiers: &Vec<PositionToGo>, local_cost: u64) -> (r: u128)
    requires
        frontiers.len() <= 64,
    ensures
        r == projected_cost(queue_cost as int, frontiers@, local_cost as int),
{
    let mut sense: u64 = 0;
    let mut diagonal = false;
    let mut i: usize = 0;
    while i < frontiers.len()
        invariant
            i <= frontiers.len() <= 64,
            sense == sensing_cost(frontiers@, local_cost as int, i as nat),
            sense <= i * CARDINAL_SENSE_COST,
            diagonal == exists|k: int| 0 <= k < i && !is_cardinal(#[trigger] frontiers@[k]),
        decreases frontiers.len() - i,
    {
        let p = frontiers[i];
        if p == PositionToGo::Down || p == PositionToGo::Right || p == PositionToGo::Top || p == PositionToGo::Left {
            sense = sense + CARDINAL_SENSE_COST;
        } else {
            diagonal = true;
        }
        i = i + 1;
    }
    let local: u64 = if diagonal {
        if local_cost < MIN_LOCAL_SENSE_COST {
            MIN_LOCAL_SENSE_COST
        } else {
            local_cost
        }
    } else {
        0
    };
    queue_cost as u128 + sense as u128 + local as u128
}

/// What the controller does on a tick.
#[derive(Clone, Copy, Debug, PartialEq, Eq, Structural)]
pub enum TickStep {
    /// A search runs in the background: do nothing.
    Idle,
    /// The projected cost exceeds the energy: let the agent recharge.
    WaitForEnergy,
    /// No map has been observed yet: try again later.
    MapUnavailable,
    /// Execute the pending plan.
    Drain,
    /// Sense, then hand a new search to the background.
    Replan,
}

/// State shared between the tick loop and the background search.
pub struct SharedState {
    pub position: (usize, usize),
    pub frontiers: Vec<PositionToGo>,
    pub plan: MovesToFollow,
    pub search_in_progress: bool,
    pub insufficient_energy: bool,
}

/// The step a tick takes.
pub open spec fn tick_step(
    search_in_progress: bool,
    plan: Seq<InputDir>,
    energy: int,
    projected: int,
    map_available: bool,
) -> TickStep {
    if search_in_progress {
        TickStep::Idle
    } else if !map_available {
        TickStep::MapUnavailable
    } else if projected > energy {
        TickStep::WaitForEnergy
    } else if !all_done(plan) {
        TickStep::Drain
    } else {
        TickStep::Replan
    }
}

/// A host command that executing an action asks for.
#[derive(Clone, Copy, Debug, PartialEq, Eq, Structural)]
pub enum HostCommand {
    Destroy(Heading),
    Deposit(Heading),
    Step(Heading),
}

pub open spec fn commands_of(a: InputDir, h: Heading) -> Seq<HostCommand> {
    match a {
        InputDir::NoOp => Seq::empty(),
        InputDir::Right(true, _) | InputDir::Left(true, _) | InputDir::Top(true, _) | InputDir::Bottom(
            true,
            _,
        ) => seq![HostCommand::Destroy(h), HostCommand::Step(h)],
        InputDir::Right(_, true) | InputDir::Left(_, true) | InputDir::Top(_, true) | InputDir::Bottom(
            _,
            true,
        ) => seq![HostCommand::Deposit(h)],
        _ => seq![HostCommand::Step(h)],
    }
}

/// The host commands that carry out action `a`: a destruction before the
/// step when its destroy flag is set, else a deposit instead of a step when
/// its deposit flag is set, else the step alone; none for a no-op.
pub fn commands_for(a: &InputDir) -> (r: Vec<HostCommand>)
    ensures
        match a.to_heading_spec() {
            Some(h) => r@ == commands_of(*a, h),
            None => r@.len() == 0 && *a == InputDir::NoOp,
        },
{
    let mut out: Vec<HostCommand> = Vec::new();
    match a.to_heading() {
        None => {},
        Some(h) => {
            match a {
                InputDir::Right(true, _) | InputDir::Left(true, _) | InputDir::Top(true, _)
                | InputDir::Bottom(true, _) => {
                    out.push(HostCommand::Destroy(h));
                    out.push(HostCommand::Step(h));
                },
                InputDir::Right(_, true) | InputDir::Left(_, true) | InputDir::Top(_, true)
                | InputDir::Bottom(_, true) => {
                    out.push(HostCommand::Deposit(h));
                },
                _ => {
                    out.push(HostCommand::Step(h));
                },
            }
        },
    }
    proof {
        match a.to_heading_spec() {
            Some(h) => {
                assert(out@ =~= commands_of(*a, h));
            },
            None => {},
        }
    }
    out
}

impl SharedState {
    /// Nothing planned yet, with the agent at `position`.
    pub fn new(position: (usize, usize)) -> (r: SharedState)
        ensures
            r.position == position,
            r.frontiers@.len() == 0,
            r.plan.path_to_follow@.len() == 0,
            !r.search_in_progress,
            !r.insufficient_energy,
    {
        SharedState {
            position,
            frontiers: Vec::new(),
            plan: MovesToFollow::new(),
            search_in_progress: false,
            insufficient_energy: false,
        }
    }

    /// Decides the tick, with `energy` available and `projected` the energy
    /// that the rest of the plan and the sensing after it will cost. Without
    /// an observed map the tick is deferred before anything else is decided.
    /// An unaffordable projection raises the insufficient-energy flag and
    /// asks for nothing else; the plan is kept either way.
    pub fn begin_tick(&mut self, energy: u64, projected: u128, map_available: bool) -> (r: TickStep)
        ensures
            r == tick_step(
                old(self).search_in_progress,
                old(self).plan.path_to_follow@,
                energy as int,
                projected as int,
                map_available,
            ),
            final(self).insufficient_energy == if r == TickStep::Idle || r == TickStep::MapUnavailable {
                old(self).insufficient_energy
            } else {
                r == TickStep::WaitForEnergy
            },
            final(self).plan.path_to_follow@ == old(self).plan.path_to_follow@,
            final(self).plan.cost == old(self).plan.cost,
            final(self).position == old(self).position,
            final(self).frontiers@ == old(self).frontiers@,
            final(self).search_in_progress == old(self).search_in_progress,
    {
        if self.search_in_progress {
            return TickStep::Idle;
        }
        if !map_available {
            return TickStep::MapUnavailable;
        }
        if projected > energy as u128 {
            self.insufficient_energy = true;
            return TickStep::WaitForEnergy;
        }
        self.insufficient_energy = false;
        if !self.plan.is_done() {
            TickStep::Drain
        } else {
            TickStep::Replan
        }
    }

    /// After executing the plan: a finished plan is dropped; an unfinished
    /// one (energy ran out) keeps its place, gets `remaining_cost` as its
    /// projected cost, and the insufficient-energy flag is raised.
    pub fn finish_drain(&mut self, remaining_cost: u64)
        ensures
            all_done(old(self).plan.path_to_follow@) ==> final(self).plan.path_to_follow@.len() == 0
                && final(self).plan.cost == 0 && !final(self).insufficient_energy,
            !all_done(old(self).plan.path_to_follow@) ==> final(self).plan.path_to_follow@
                == old(self).plan.path_to_follow@ && final(self).plan.cost == remaining_cost
                && final(self).insufficient_energy,
            final(self).position == old(self).position,
            final(self).search_in_progress == old(self).search_in_progress,
    {
        if self.plan.is_done() {
            self.plan.path_to_follow.clear();
            self.plan.cost = 0;
            self.insufficient_energy = false;
        } else {
            self.plan.cost = remaining_cost;
            self.insufficient_energy = true;
        }
    }

    /// Publishes the agent's position and the frontiers to search, and marks
    /// a search as running.
    pub fn start_search(&mut self, position: (usize, usize), frontiers: Vec<PositionToGo>)
        ensures
            final(self).position == position,
            final(self).frontiers@ == frontiers@,
            final(self).search_in_progress,
            final(self).plan.path_to_follow@ == old(self).plan.path_to_follow@,
    {
        self.position = position;
        self.frontiers = frontiers;
        self.search_in_progress = true;
    }

    /// Installs the winner of a finished search as the plan, with its cost
    /// (none below zero), and clears the search flag. Without a winner the
    /// planning episode failed: the flag is cleared, the plan left as it is,
    /// and `false` returned.
    pub fn install_plan(&mut self, winner: Option<GeneticSearch>) -> (r: bool)
        ensures
            r == winner is Some,
            !final(self).search_in_progress,
            winner matches Some(w) ==> final(self).plan.path_to_follow@ == w.actions@ && final(self).plan.cost == (
            if w.cost < 0 {
                0
            } else {
                w.cost as int
            }),
            winner is None ==> final(self).plan.path_to_follow@ == old(self).plan.path_to_follow@,
            final(self).position == old(self).position,
    {
        self.search_in_progress = false;
        match winner {
            Some(w) => {
                self.plan.cost = if w.cost < 0 { 0 } else { w.cost as u64 };
                self.plan.path_to_follow = w.actions;
                true
            },
            None => false,
        }
    }
}

/// A tick does nothing else while a search runs, and never idles otherwise:
/// the tick loop and the background search never act at the same time.
pub proof fn lemma_tick_excludes_search(
    search_in_progress: bool,
    plan: Seq<InputDir>,
    energy: int,
    projected: int,
    map_available: bool,
)
    ensures
        (tick_step(search_in_progress, plan, energy, projected, map_available) == TickStep::Idle)
            == search_in_progress,
{
}

/// A tick whose projection exceeds the energy waits for energy; since
/// `begin_tick` keeps the plan, a later tick with the map still observed and
/// the projection affordable drains that same plan.
pub proof fn lemma_wait_then_drain(plan: Seq<InputDir>, energy: int, projected: int, later_energy: int, later_projected: int)
    requires
        !all_done(plan),
        projected > energy,
        later_projected <= later_energy,
    ensures
        tick_step(false, plan, energy, projected, true) == TickStep::WaitForEnergy,
        tick_step(false, plan, later_energy, later_projected, true) == TickStep::Drain,
{
}

} // verus!
