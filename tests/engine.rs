use genetic_explorer::action::{direction_value, Heading, InputDir};
use genetic_explorer::fitness::{count_backtracks, weigh, EngineConfig, GeneticSearch};
use genetic_explorer::grid::{genetic_cost, Cell, Content, ContentKind, Grid, TerrainKind};
use genetic_explorer::population::{
    genetic_crossover, genetic_mutation, genetic_selection, select_parents, sort_by_rank,
};
use genetic_explorer::search::{best_index, search_direction};

fn flat_grid(size: usize, step_cost: u32) -> Grid {
    let cell = Cell { terrain: TerrainKind::Grass, elevation: 0, content: None };
    Grid {
        size,
        cells: vec![vec![Some(cell); size]; size],
        terrain_costs: vec![step_cost; 11],
        content_values: vec![0; 15],
    }
}

fn evaluate(plan: &mut GeneticSearch, grid: &Grid, dest: (usize, usize), cfg: &EngineConfig) {
    let draws = vec![0u32; plan.actions.len() * cfg.repair_attempts];
    plan.evaluate_with_draws(grid, dest, cfg, &draws);
}

fn plan_with(actions: Vec<InputDir>, x: usize, y: usize, distance: i64, fitness: i64) -> GeneticSearch {
    let mut g = GeneticSearch::new_with_vector(x, y, actions);
    g.remaining_distance = distance;
    g.fitness = fitness;
    g
}

#[test]
fn reverse_holds_only_for_opposite_moves() {
    let all = [
        InputDir::Right(false, false),
        InputDir::Left(true, false),
        InputDir::Top(false, true),
        InputDir::Bottom(false, false),
        InputDir::NoOp,
    ];
    for a in all.iter() {
        assert!(!a.is_reverse(a));
        assert!(!InputDir::NoOp.is_reverse(a));
        assert!(!a.is_reverse(&InputDir::NoOp));
        for b in all.iter() {
            assert_eq!(a.is_reverse(b), b.is_reverse(a));
        }
    }
    assert!(InputDir::Top(false, false).is_reverse(&InputDir::Bottom(true, false)));
    assert!(InputDir::Right(false, false).is_reverse(&InputDir::Left(false, false)));
    assert!(!InputDir::Right(false, false).is_reverse(&InputDir::Top(false, false)));
}

#[test]
fn offsets_of_actions() {
    assert_eq!(direction_value(&InputDir::Top(true, false)), (-1, 0));
    assert_eq!(direction_value(&InputDir::Bottom(false, false)), (1, 0));
    assert_eq!(direction_value(&InputDir::Left(false, false)), (0, -1));
    assert_eq!(direction_value(&InputDir::Right(false, true)), (0, 1));
    assert_eq!(direction_value(&InputDir::NoOp), (0, 0));
    assert_eq!(InputDir::convert_int_to_input_dir(3, 3, 3, 4), InputDir::Right(false, false));
    assert_eq!(InputDir::convert_int_to_input_dir(3, 3, 2, 3), InputDir::Top(false, false));
    assert_eq!(InputDir::convert_int_to_input_dir(3, 3, 5, 3), InputDir::NoOp);
    let path = InputDir::convert_to_input_dir(2, 2, vec![(2, 3), (3, 3), (3, 2), (2, 2)]);
    assert_eq!(
        path,
        vec![
            InputDir::Right(false, false),
            InputDir::Bottom(false, false),
            InputDir::Left(false, false),
            InputDir::Top(false, false)
        ]
    );
}

#[test]
fn random_actions_differ_from_their_input() {
    for _ in 0..200 {
        let a = InputDir::random_input_dir();
        assert_eq!(a, a.cleared());
        let b = InputDir::random_input_without_i(&a);
        assert_ne!(std::mem::discriminant(&a), std::mem::discriminant(&b));
        assert_eq!(b, b.cleared());
    }
    assert_eq!(InputDir::Right(true, false).alternative(0), InputDir::Bottom(false, false));
    assert_eq!(InputDir::NoOp.alternative(3), InputDir::Top(false, false));
}

#[test]
fn backtracking_pairs_cancel() {
    let cfg = EngineConfig::tuned();
    let grid = flat_grid(10, 0);
    let actions = vec![
        InputDir::Right(false, false),
        InputDir::Right(false, false),
        InputDir::Left(false, false),
        InputDir::Left(false, false),
    ];
    assert_eq!(count_backtracks(&actions), 2);
    let mut plan = GeneticSearch::new_with_vector(5, 5, actions);
    evaluate(&mut plan, &grid, (5, 5), &cfg);
    assert_eq!(plan.cost, 0);
    assert_eq!(plan.remaining_distance, 0);
    // Two backtracks weigh 2 * 10 * 0.15; a null move would add 2.5 more.
    assert_eq!(plan.fitness, 300);
}

#[test]
fn straight_run_reaches_target() {
    let cfg = EngineConfig::tuned();
    let grid = flat_grid(20, 3);
    let mut plan = GeneticSearch::new_with_vector(2, 4, vec![InputDir::Bottom(false, false); 8]);
    evaluate(&mut plan, &grid, (10, 4), &cfg);
    assert_eq!(plan.remaining_distance, 0);
    assert_eq!(plan.cost, 8 * 3);
    assert_eq!(plan.fitness, 24);
}

#[test]
fn step_off_the_edge_is_a_null_move() {
    let cfg = EngineConfig::tuned();
    let grid = flat_grid(10, 1);
    let mut plan = GeneticSearch::new_with_vector(
        0,
        0,
        vec![InputDir::Top(false, false), InputDir::Right(false, false)],
    );
    evaluate(&mut plan, &grid, (0, 1), &cfg);
    assert_eq!(plan.actions, vec![InputDir::NoOp, InputDir::Right(false, false)]);
    assert_eq!(plan.remaining_distance, 0);
    assert_eq!(plan.cost, 1);
    // cost 1 * 0.01 plus one null move at 10 * 0.25, in hundredths
    assert_eq!(plan.fitness, 1 + 250);
}

#[test]
fn remaining_distance_is_manhattan_to_the_cell_reached() {
    let cfg = EngineConfig::tuned();
    let mut grid = flat_grid(10, 1);
    grid.cells[3][4] = None;
    let mut plan = GeneticSearch::new_with_vector(
        3,
        3,
        vec![InputDir::Right(false, false), InputDir::Bottom(false, false), InputDir::Bottom(false, false)],
    );
    evaluate(&mut plan, &grid, (0, 9), &cfg);
    // the step into the unobserved cell stays put; the agent ends on (5, 3)
    assert_eq!(plan.remaining_distance, 5 + 6);
    assert!(plan.remaining_distance >= 0);
}

#[test]
fn impassable_step_is_repaired_with_another_move() {
    let cfg = EngineConfig::tuned();
    let mut grid = flat_grid(10, 1);
    grid.cells[5][6] = Some(Cell { terrain: TerrainKind::Lava, elevation: 0, content: None });
    let mut plan = GeneticSearch::new_with_vector(5, 5, vec![InputDir::Right(false, false)]);
    // draw 0 turns Right into Bottom
    evaluate(&mut plan, &grid, (9, 9), &cfg);
    assert_eq!(plan.actions, vec![InputDir::Bottom(false, false)]);
    assert_eq!(plan.remaining_distance, 3 + 4);
    assert_eq!(plan.cost, 1);
    assert_eq!(plan.fitness, 1 + 250);
}

#[test]
fn evaluating_twice_gives_the_same_result() {
    let cfg = EngineConfig::tuned();
    let mut grid = flat_grid(12, 2);
    grid.cells[4][5] = Some(Cell { terrain: TerrainKind::ShallowWater, elevation: 3, content: None });
    grid.cells[4][6] = Some(Cell {
        terrain: TerrainKind::Grass,
        elevation: 1,
        content: Some(Content { kind: ContentKind::Coin, amount: 2 }),
    });
    grid.content_values[4] = 5;
    let actions = vec![
        InputDir::Right(false, false),
        InputDir::Right(false, false),
        InputDir::Left(false, false),
        InputDir::Right(false, false),
    ];
    let mut a = GeneticSearch::new_with_vector(4, 4, actions.clone());
    let mut b = GeneticSearch::new_with_vector(4, 4, actions);
    evaluate(&mut a, &grid, (4, 8), &cfg);
    evaluate(&mut b, &grid, (4, 8), &cfg);
    assert_eq!(a.cost, b.cost);
    assert_eq!(a.fitness, b.fitness);
    assert_eq!(a.remaining_distance, b.remaining_distance);
    let first = (a.cost, a.fitness, a.remaining_distance);
    evaluate(&mut a, &grid, (4, 8), &cfg);
    assert_eq!((a.cost, a.fitness, a.remaining_distance), first);
}

#[test]
fn bonus_is_credited_once_and_climbs_are_squared() {
    let cfg = EngineConfig::tuned();
    let mut grid = flat_grid(12, 2);
    grid.cells[4][5] = Some(Cell { terrain: TerrainKind::ShallowWater, elevation: 3, content: None });
    grid.cells[4][6] = Some(Cell {
        terrain: TerrainKind::Grass,
        elevation: 1,
        content: Some(Content { kind: ContentKind::Coin, amount: 2 }),
    });
    grid.content_values[4] = 5;
    let mut plan = GeneticSearch::new_with_vector(
        4,
        4,
        vec![
            InputDir::Right(false, false),
            InputDir::Right(false, false),
            InputDir::Left(false, false),
            InputDir::Right(false, false),
        ],
    );
    evaluate(&mut plan, &grid, (4, 8), &cfg);
    // steps: onto water climbing 3 (2 + 9), onto the coin (2, minus 5),
    // back into the water climbing 2 (2 + 4), onto the coin again (2)
    assert_eq!(plan.cost, 11 + 2 - 5 + 6 + 2);
    assert_eq!(plan.actions[1], InputDir::Right(true, false));
    assert_eq!(plan.actions[3], InputDir::Right(false, false));
    assert_eq!(plan.remaining_distance, 2);
    // cost 16, one backtrack, one bonus, two shallow-water steps
    assert_eq!(plan.fitness, 16 + 150 - 250 + 2 * 50 * 34);
}

#[test]
fn step_cost_adds_squared_climb_only_uphill() {
    let mut grid = flat_grid(4, 7);
    grid.cells[1][1] = Some(Cell { terrain: TerrainKind::Hill, elevation: 4, content: None });
    grid.terrain_costs[5] = 9;
    assert_eq!(genetic_cost((1, 0), (1, 1), &grid), 9 + 16);
    assert_eq!(genetic_cost((1, 1), (1, 2), &grid), 7);
}

#[test]
fn heavier_null_weight_widens_the_gap() {
    let light = EngineConfig::tuned();
    let mut heavy = EngineConfig::tuned();
    heavy.w_null = 45;
    let more = weigh(&light, 10, 1, 3, 0, 0) - weigh(&light, 10, 1, 1, 0, 0);
    let more_heavy = weigh(&heavy, 10, 1, 3, 0, 0) - weigh(&heavy, 10, 1, 1, 0, 0);
    assert_eq!(more, 500);
    assert_eq!(more_heavy, 900);
    assert!(more_heavy >= more);
}

#[test]
fn crossover_children_take_whole_thirds() {
    let a: Vec<InputDir> = vec![InputDir::Right(false, false); 6];
    let b: Vec<InputDir> = vec![InputDir::Top(false, false); 6];
    let first = GeneticSearch::new_with_vector(1, 1, a.clone());
    let second = GeneticSearch::new_with_vector(1, 1, b.clone());
    let mut population = Vec::new();
    genetic_crossover(&mut population, &first, &second, &3, &4);
    assert_eq!(population.len(), 6);
    let r = InputDir::Right(false, false);
    let t = InputDir::Top(false, false);
    let expected = [
        [r, t, r],
        [r, t, t],
        [t, r, r],
        [t, r, t],
        [r, r, t],
        [t, t, r],
    ];
    for (child, thirds) in population.iter().zip(expected.iter()) {
        assert_eq!(child.actions.len(), 6);
        assert_eq!(child.origin_row, 3);
        assert_eq!(child.origin_col, 4);
        for k in 0..3 {
            assert_eq!(&child.actions[2 * k..2 * k + 2], &[thirds[k], thirds[k]][..]);
        }
    }
}

#[test]
fn crossover_keeps_the_remainder_in_the_last_third() {
    let a: Vec<InputDir> = vec![InputDir::Left(false, false); 7];
    let b: Vec<InputDir> = vec![InputDir::Bottom(false, false); 7];
    let first = GeneticSearch::new_with_vector(0, 0, a);
    let second = GeneticSearch::new_with_vector(0, 0, b);
    let mut population = Vec::new();
    genetic_crossover(&mut population, &first, &second, &0, &0);
    for child in population.iter() {
        assert_eq!(child.actions.len(), 7);
        assert!(child.actions[4..].iter().all(|x| *x == child.actions[4]));
    }
}

#[test]
fn selection_takes_elite_and_ranked_parent() {
    let mut population = Vec::new();
    for (d, f) in [(5, 1), (0, 9), (3, 3), (0, 2), (7, 0), (3, 1), (9, 9), (1, 5)] {
        population.push(plan_with(vec![InputDir::NoOp], 0, 0, d, f));
    }
    let mut sorted_copy: Vec<GeneticSearch> = population.iter().map(|g| plan_with(g.actions.clone(), 0, 0, g.remaining_distance, g.fitness)).collect();
    sort_by_rank(&mut sorted_copy);
    let keys: Vec<(i64, i64)> = sorted_copy.iter().map(|g| (g.remaining_distance, g.fitness)).collect();
    assert_eq!(keys, vec![(0, 2), (0, 9), (1, 5), (3, 1), (3, 3), (5, 1), (7, 0), (9, 9)]);
    // draw 14 stands for rank 3
    let (first, second) = select_parents(&mut population, 14);
    assert_eq!((first.remaining_distance, first.fitness), (0, 2));
    assert_eq!((second.remaining_distance, second.fitness), (3, 1));
    let left: Vec<(i64, i64)> = population.iter().map(|g| (g.remaining_distance, g.fitness)).collect();
    assert_eq!(left, vec![(0, 9), (1, 5), (3, 3), (5, 1), (7, 0), (9, 9)]);
    // draw 18 is the single draw for rank 7
    let mut again: Vec<GeneticSearch> = sorted_copy;
    let (_, last) = select_parents(&mut again, 18);
    assert_eq!((last.remaining_distance, last.fitness), (9, 9));
}

#[test]
fn random_selection_keeps_the_elite() {
    let mut population = Vec::new();
    for k in 0..8 {
        population.push(plan_with(vec![InputDir::NoOp], 0, 0, 8 - k, 0));
    }
    let (first, second) = genetic_selection(&mut population);
    assert_eq!(first.remaining_distance, 1);
    assert!(second.remaining_distance >= 2);
    assert_eq!(population.len(), 6);
}

#[test]
fn mutation_changes_only_actions() {
    let mut population = Vec::new();
    for _ in 0..8 {
        population.push(GeneticSearch::new_with_vector(2, 3, vec![InputDir::Right(true, false); 50]));
    }
    genetic_mutation(&mut population);
    let mut changed = 0;
    for g in population.iter() {
        assert_eq!(g.actions.len(), 50);
        assert_eq!((g.origin_row, g.origin_col), (2, 3));
        for a in g.actions.iter() {
            if *a != InputDir::Right(true, false) {
                assert!(!matches!(a, InputDir::Right(_, _)));
                changed += 1;
            }
        }
    }
    assert!(changed > 0);
}

#[test]
fn seeded_plan_has_requested_length() {
    let grid = flat_grid(10, 1);
    let g = GeneticSearch::new(24, 0, 0, &grid);
    assert_eq!(g.actions.len(), 24);
    assert_eq!((g.origin_row, g.origin_col), (0, 0));
    let d = GeneticSearch::default();
    assert!(d.actions.is_empty());
    assert_eq!(d.fitness, 10000);
}

#[test]
fn seeding_with_draws_walks_inside_the_map() {
    let grid = flat_grid(3, 1);
    let mut g = GeneticSearch::new_with_vector(0, 0, Vec::new());
    // first draw of each step: 4 (Top) leaves the map, so that step is a no-op;
    // then 0 (Bottom) twice
    let mut draws = vec![0u32; 3 * 8];
    draws[0] = 4;
    g.generate_sequence_with_draws(3, 0, 0, &grid, &draws);
    assert_eq!(
        g.actions,
        vec![InputDir::NoOp, InputDir::Bottom(false, false), InputDir::Bottom(false, false)]
    );
}

#[test]
fn search_toward_a_near_target_returns_an_evaluated_plan() {
    let mut cfg = EngineConfig::tuned();
    cfg.generations = 40;
    let grid = flat_grid(30, 1);
    let best = search_direction(&grid, &cfg, 10, 10, (18, 10));
    assert_eq!(best.actions.len(), 24);
    assert_eq!((best.origin_row, best.origin_col), (10, 10));
    assert!(best.remaining_distance >= 0);
    let mut copy = GeneticSearch::new_with_vector(10, 10, best.actions.clone());
    evaluate(&mut copy, &grid, (18, 10), &cfg);
    assert_eq!(copy.remaining_distance, best.remaining_distance);
    assert_eq!(copy.cost, best.cost);
}

#[test]
fn best_index_prefers_distance_then_fitness() {
    let population = vec![
        plan_with(vec![], 0, 0, 2, 0),
        plan_with(vec![], 0, 0, 1, 7),
        plan_with(vec![], 0, 0, 1, 3),
        plan_with(vec![], 0, 0, 1, 3),
    ];
    assert_eq!(best_index(&population), 2);
}

#[test]
fn random_selection_reaches_the_likeliest_rank() {
    let mut seen_rank_one = false;
    for _ in 0..200 {
        let mut population = Vec::new();
        for k in 0..8 {
            population.push(plan_with(vec![InputDir::NoOp], 0, 0, k, 0));
        }
        let (first, second) = genetic_selection(&mut population);
        assert_eq!(first.remaining_distance, 0);
        assert!(1 <= second.remaining_distance && second.remaining_distance <= 7);
        if second.remaining_distance == 1 {
            seen_rank_one = true;
        }
    }
    assert!(seen_rank_one);
}

#[test]
fn headings_and_offsets_of_actions() {
    assert_eq!(InputDir::Top(true, true).to_heading(), Some(Heading::Up));
    assert_eq!(InputDir::Left(false, false).to_heading(), Some(Heading::Left));
    assert_eq!(InputDir::NoOp.to_heading(), None);
    assert_eq!(InputDir::convert_to_int(&InputDir::Bottom(true, false)), (1, 0));
    assert_eq!(InputDir::from_draw(2), InputDir::NoOp);
    assert_eq!(InputDir::from_draw(3), InputDir::Right(false, false));
}

#[test]
fn tuned_settings() {
    let cfg = EngineConfig::tuned();
    assert_eq!(cfg.chromosome_len, 24);
    assert_eq!(cfg.generations, 300);
    assert!(cfg.is_rewarded(ContentKind::Garbage));
    assert!(!cfg.is_rewarded(ContentKind::Rock));
}
