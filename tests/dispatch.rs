use genetic_explorer::action::{Heading, InputDir};
use genetic_explorer::controller::{
    calculate_cost_dir, commands_for, projected_energy, CommandOutcome, HostCommand, MovesToFollow, PutContent,
    SharedState, TickStep,
};
use genetic_explorer::fitness::GeneticSearch;
use genetic_explorer::frontier::{
    already_visited, choose_frontiers, frontier_target, get_next_position, PositionToGo, VisitedGrid,
};
use genetic_explorer::grid::{Cell, ContentKind, Grid, TerrainKind};
use genetic_explorer::search::{aggregate_winners, retry_verdict, RetryPolicy, RetryVerdict};

fn flat_map(size: usize, step_cost: u32) -> Grid {
    let cell = Cell { terrain: TerrainKind::Grass, elevation: 0, content: None };
    Grid {
        size,
        cells: vec![vec![Some(cell); size]; size],
        terrain_costs: vec![step_cost; 11],
        content_values: vec![0; 15],
    }
}

fn winner(distance: i64, fitness: i64, cost: i64) -> GeneticSearch {
    let mut g = GeneticSearch::new_with_vector(0, 0, vec![InputDir::Right(false, false)]);
    g.remaining_distance = distance;
    g.fitness = fitness;
    g.cost = cost;
    g
}

#[test]
fn aggregator_prefers_fitness_then_cost() {
    let picked = aggregate_winners(vec![Some(winner(0, 40, 5)), None, Some(winner(0, 30, 9))]).unwrap();
    assert_eq!((picked.fitness, picked.cost), (30, 9));
    let tie = aggregate_winners(vec![Some(winner(0, 30, 9)), Some(winner(0, 30, 4)), Some(winner(2, 1, 0))]).unwrap();
    assert_eq!((tie.fitness, tie.cost), (30, 4));
    let nearer = aggregate_winners(vec![Some(winner(3, 1, 1)), Some(winner(1, 99, 99))]).unwrap();
    assert_eq!(nearer.remaining_distance, 1);
    assert!(aggregate_winners(vec![None, None]).is_none());
}

#[test]
fn retry_policy_relaxes_then_gives_up() {
    let p = RetryPolicy::tuned();
    assert_eq!(retry_verdict(&p, 1, Some(1)), RetryVerdict::Accept);
    assert_eq!(retry_verdict(&p, 1, Some(2)), RetryVerdict::Retry);
    assert_eq!(retry_verdict(&p, 3, Some(2)), RetryVerdict::Accept);
    assert_eq!(retry_verdict(&p, 10, Some(3)), RetryVerdict::Retry);
    assert_eq!(retry_verdict(&p, 11, Some(4)), RetryVerdict::Accept);
    assert_eq!(retry_verdict(&p, 12, Some(5)), RetryVerdict::RetryRevisiting);
    assert_eq!(retry_verdict(&p, 16, Some(5)), RetryVerdict::Abort);
    assert_eq!(retry_verdict(&p, 16, Some(0)), RetryVerdict::Accept);
    assert_eq!(retry_verdict(&p, 2, None), RetryVerdict::Retry);
    assert_eq!(retry_verdict(&p, 20, None), RetryVerdict::Abort);
}

#[test]
fn low_energy_pauses_without_losing_the_plan() {
    let mut state = SharedState::new((4, 4));
    let plan = vec![InputDir::Right(false, false), InputDir::Bottom(true, false)];
    assert!(state.install_plan(Some(GeneticSearch::new_with_vector(4, 4, plan.clone()))));
    assert_eq!(state.begin_tick(50, 80, true), TickStep::WaitForEnergy);
    assert!(state.insufficient_energy);
    assert_eq!(state.plan.path_to_follow, plan);
    assert_eq!(state.begin_tick(100, 80, true), TickStep::Drain);
    assert!(!state.insufficient_energy);
    assert_eq!(state.plan.path_to_follow, plan);
}

#[test]
fn tick_steps_follow_the_shared_state() {
    let mut state = SharedState::new((0, 0));
    assert_eq!(state.begin_tick(10, 0, false), TickStep::MapUnavailable);
    assert_eq!(state.begin_tick(10, 0, true), TickStep::Replan);
    state.start_search((1, 2), vec![PositionToGo::Down]);
    assert!(state.search_in_progress);
    assert_eq!(state.position, (1, 2));
    assert_eq!(state.begin_tick(0, 1000, true), TickStep::Idle);
    assert!(!state.insufficient_energy);
    assert!(!state.install_plan(None));
    assert!(!state.search_in_progress);
    let mut w = GeneticSearch::new_with_vector(1, 2, vec![InputDir::Top(false, false)]);
    w.cost = -3;
    assert!(state.install_plan(Some(w)));
    assert_eq!(state.plan.cost, 0);
}

#[test]
fn drain_retires_actions_and_resumes() {
    let mut state = SharedState::new((0, 0));
    state.install_plan(Some(GeneticSearch::new_with_vector(
        0,
        0,
        vec![InputDir::Right(false, false), InputDir::Right(false, false)],
    )));
    state.plan.retire(0);
    assert_eq!(state.plan.path_to_follow[0], InputDir::NoOp);
    assert!(!state.plan.is_done());
    state.finish_drain(7);
    assert!(state.insufficient_energy);
    assert_eq!(state.plan.cost, 7);
    state.plan.retire(1);
    assert!(state.plan.is_done());
    state.finish_drain(0);
    assert!(state.plan.path_to_follow.is_empty());
    assert!(!state.insufficient_energy);
}

#[test]
fn commands_of_flagged_actions() {
    assert_eq!(commands_for(&InputDir::NoOp), vec![]);
    assert_eq!(commands_for(&InputDir::Top(false, false)), vec![HostCommand::Step(Heading::Up)]);
    assert_eq!(
        commands_for(&InputDir::Left(true, false)),
        vec![HostCommand::Destroy(Heading::Left), HostCommand::Step(Heading::Left)]
    );
    assert_eq!(commands_for(&InputDir::Bottom(false, true)), vec![HostCommand::Deposit(Heading::Down)]);
}

#[test]
fn queued_plan_cost_projection() {
    let mut grid = flat_map(6, 2);
    grid.cells[0][2] = None;
    grid.content_values[1] = 3;
    let moves = MovesToFollow {
        path_to_follow: vec![
            InputDir::Right(false, false),
            InputDir::Right(false, false),
            InputDir::NoOp,
            InputDir::Bottom(false, false),
            InputDir::Right(false, true),
        ],
        cost: 0,
    };
    let put = PutContent { content: Some(ContentKind::Tree), quantity: 4 };
    // one step, a skipped step toward an unobserved cell, one step, and a
    // deposit of four trees worth 3 each
    assert_eq!(calculate_cost_dir(&moves, 0, 0, &grid, &put), 2 + 2 + 12);
    assert_eq!(calculate_cost_dir(&moves, 0, 0, &grid, &PutContent::default()), 4);
}

#[test]
fn energy_projection_counts_sensing() {
    let cardinal = vec![PositionToGo::Down, PositionToGo::Left];
    assert_eq!(projected_energy(100, &cardinal, 0), 148);
    let mixed = vec![PositionToGo::Down, PositionToGo::TopLeft];
    assert_eq!(projected_energy(100, &mixed, 50), 100 + 24 + 200);
    assert_eq!(projected_energy(0, &mixed, 300), 24 + 300);
}

#[test]
fn frontier_targets_are_clamped() {
    assert_eq!(get_next_position(PositionToGo::Down), (8, 0));
    assert_eq!(get_next_position(PositionToGo::TopLeft), (-4, -4));
    assert_eq!(frontier_target(2, 3, PositionToGo::Top, 20), (0, 3));
    assert_eq!(frontier_target(15, 3, PositionToGo::DownRight, 18), (17, 7));
}

#[test]
fn frontiers_prefer_unexplored_then_dry_targets() {
    let mut grid = flat_map(20, 1);
    let visited = VisitedGrid::new(20);
    grid.cells[18][10] = None;
    let seen = PositionToGo::new_with_world(&grid, 10, 10);
    assert_eq!(seen, vec![PositionToGo::Down]);
    let all = PositionToGo::new_with_world(&flat_map(20, 1), 10, 10);
    assert_eq!(all.len(), 8);
    grid.cells[18][10] = Some(Cell { terrain: TerrainKind::ShallowWater, elevation: 0, content: None });
    grid.cells[10][18] = Some(Cell { terrain: TerrainKind::Lava, elevation: 0, content: None });
    let candidates = vec![PositionToGo::Down, PositionToGo::Right, PositionToGo::Top];
    assert_eq!(choose_frontiers(&candidates, &grid, &visited, 10, 10), vec![PositionToGo::Top]);
    let wet = vec![PositionToGo::Down, PositionToGo::Right];
    assert_eq!(choose_frontiers(&wet, &grid, &visited, 10, 10), vec![PositionToGo::Down]);
}

#[test]
fn revisit_fallback_skips_visited_cells() {
    let grid = flat_map(20, 1);
    let mut visited = VisitedGrid::new(20);
    visited.mark_area(18, 10);
    assert!(already_visited(&visited, 16, 8));
    assert!(already_visited(&visited, 19, 12));
    assert!(!already_visited(&visited, 15, 10));
    assert!(!already_visited(&visited, -1, 10));
    let dirs = PositionToGo::new_already_seen(&grid, &visited, 10, 10);
    assert!(!dirs.contains(&PositionToGo::Down));
    assert_eq!(dirs.len(), 7);
    let lava = Cell { terrain: TerrainKind::Lava, elevation: 0, content: None };
    let mut blocked = flat_map(20, 1);
    for p in PositionToGo::new() {
        let (dx, dy) = get_next_position(p);
        blocked.cells[(10 + dx) as usize][(10 + dy) as usize] = Some(lava);
    }
    assert!(PositionToGo::new_already_seen(&blocked, &visited, 10, 10).is_empty());
}

#[test]
fn destroy_flag_wins_over_deposit_flag() {
    assert_eq!(
        commands_for(&InputDir::Right(true, true)),
        vec![HostCommand::Destroy(Heading::Right), HostCommand::Step(Heading::Right)]
    );
}

#[test]
fn tick_without_map_is_deferred_even_with_a_plan() {
    let mut state = SharedState::new((4, 4));
    state.install_plan(Some(GeneticSearch::new_with_vector(4, 4, vec![InputDir::Right(false, false)])));
    assert_eq!(state.begin_tick(100, 0, false), TickStep::MapUnavailable);
    assert!(!state.insufficient_energy);
    assert_eq!(state.plan.path_to_follow, vec![InputDir::Right(false, false)]);
    assert_eq!(state.begin_tick(0, 50, false), TickStep::MapUnavailable);
    assert_eq!(state.begin_tick(100, 0, true), TickStep::Drain);
}

#[test]
fn settling_actions_after_host_answers() {
    let mut moves = MovesToFollow {
        path_to_follow: vec![InputDir::Right(false, false), InputDir::Top(false, false), InputDir::Left(false, false)],
        cost: 9,
    };
    assert!(moves.settle(0, CommandOutcome::Done));
    assert!(moves.settle(1, CommandOutcome::Refused));
    assert!(!moves.settle(2, CommandOutcome::OutOfEnergy));
    assert_eq!(moves.path_to_follow, vec![InputDir::NoOp, InputDir::NoOp, InputDir::Left(false, false)]);
    assert_eq!(moves.cost, 9);
}

#[test]
fn both_flags_cost_a_step_in_the_projection() {
    let grid = flat_map(6, 2);
    let moves = MovesToFollow { path_to_follow: vec![InputDir::Right(true, true), InputDir::Right(false, false)], cost: 0 };
    let put = PutContent { content: Some(ContentKind::Tree), quantity: 4 };
    assert_eq!(calculate_cost_dir(&moves, 0, 0, &grid, &put), 4);
}
