use vstd::prelude::*;

use crate::action::InputDir;
use crate::fitness::{evaluation, EngineConfig, GeneticSearch, MAX_PLAN};
use crate::grid::{in_bounds, Grid, MAX_WORLD};
use crate::population::{
    genetic_crossover, genetic_mutation, genetic_selection, rank_le, selected_from, POPULATION_SIZE,
};

verus! {

broadcast use {vstd::seq_lib::group_to_multiset_ensures, vstd::multiset::group_multiset_properties};

/// Every plan of `pop` has `len` actions and starts at `(x, y)`.
pub open spec fn uniform(pop: Seq<GeneticSearch>, len: nat, x: int, y: int) -> bool {
    forall|k: int|
        0 <= k < pop.len() ==> (#[trigger] pop[k]).actions.len() == len && pop[k].origin_row == x
            && pop[k].origin_col == y
}

/// `after` is `before` evaluated toward `dest`, with some draws for its repairs.
pub open spec fn evaluated_from(
    before: GeneticSearch,
    after: GeneticSearch,
    map: &Grid,
    cfg: &EngineConfig,
    dest: (usize, usize),
) -> bool {
    &&& after.origin_row == before.origin_row
    &&& after.origin_col == before.origin_col
    &&& after.actions.len() == before.actions.len()
    &&& after.remaining_distance >= 0
    &&& exists|d: Seq<u32>|
        #[trigger] after.records(
            evaluation(
                map,
                cfg,
                before.origin_row as int,
                before.origin_col as int,
                before.actions@,
                (dest.0 as int, dest.1 as int),
                d,
            ),
        )
}

proof fn lemma_rearranged_uniform(before: Seq<GeneticSearch>, s: Seq<GeneticSearch>, len: nat, x: int, y: int)
    requires
        uniform(before, len, x, y),
        s.to_multiset() == before.to_multiset(),
    ensures
        uniform(s, len, x, y),
{
    assert forall|k: int| 0 <= k < s.len() implies (#[trigger] s[k]).actions.len() == len && s[k].origin_row == x
        && s[k].origin_col == y by {
        assert(s.contains(s[k]));
        assert(s.to_multiset().count(s[k]) > 0);
        assert(before.contains(s[k]));
    }
}

/// Evaluates every plan of the population toward `destination`.
pub fn evaluate_all(population: &mut Vec<GeneticSearch>, map: &Grid, destination: (usize, usize), cfg: &EngineConfig)
    requires
        map.wf(),
        cfg.wf(),
        destination.0 <= MAX_WORLD,
        destination.1 <= MAX_WORLD,
        forall|k: int|
            0 <= k < old(population).len() ==> (#[trigger] old(population)@[k]).actions.len() <= MAX_PLAN
                && in_bounds(map.size as int, old(population)@[k].origin_row as int, old(population)@[k].origin_col as int),
    ensures
        final(population).len() == old(population).len(),
        forall|k: int|
            0 <= k < old(population).len() ==> evaluated_from(
                old(population)@[k],
                #[trigger] final(population)@[k],
                map,
                cfg,
                destination,
            ),
{
    let n = population.len();
    let mut j: usize = 0;
    while j < n
        invariant
            j <= n,
            n == old(population).len(),
            population.len() == n,
            map.wf(),
            cfg.wf(),
            destination.0 <= MAX_WORLD,
            destination.1 <= MAX_WORLD,
            forall|k: int| 0 <= k < j ==> evaluated_from(old(population)@[k], #[trigger] population@[k], map, cfg, destination),
            forall|k: int| j <= k < n ==> #[trigger] population@[k] == old(population)@[k],
            forall|k: int|
                0 <= k < n ==> (#[trigger] old(population)@[k]).actions.len() <= MAX_PLAN && in_bounds(
                    map.size as int,
                    old(population)@[k].origin_row as int,
                    old(population)@[k].origin_col as int,
                ),
        decreases n - j,
    {
        let mut g = population.remove(j);
        assert(g == old(population)@[j as int]);
        g.genetic_cost(map, destination, cfg);
        population.insert(j, g);
        j = j + 1;
    }
}

/// Index of the first plan of best rank: nearest the destination, then fittest.
pub fn best_index(population: &Vec<GeneticSearch>) -> (r: usize)
    requires
        population.len() > 0,
    ensures
        r < population.len(),
        forall|k: int| 0 <= k < population.len() ==> rank_le(population@[r as int], #[trigger] population@[k]),
        forall|k: int| 0 <= k < r ==> !rank_le(#[trigger] population@[k], population@[r as int]),
{
    let mut best: usize = 0;
    let mut i: usize = 1;
    while i < population.len()
        invariant
            1 <= i <= population.len(),
            best < i,
            forall|k: int| 0 <= k < i ==> rank_le(population@[best as int], #[trigger] population@[k]),
            forall|k: int| 0 <= k < best ==> !rank_le(#[trigger] population@[k], population@[best as int]),
        decreases population.len() - i,
    {
        let a = &population[i];
        let b = &population[best];
        if a.remaining_distance < b.remaining_distance || (a.remaining_distance == b.remaining_distance
            && a.fitness < b.fitness) {
            best = i;
        }
        i = i + 1;
    }
    best
}

/// `p` is a plan of `len` actions from `(x, y)` that records an evaluation
/// toward `dest` of some plan of `len` actions.
pub open spec fn evaluated_toward(
    p: GeneticSearch,
    map: &Grid,
    cfg: &EngineConfig,
    x: int,
    y: int,
    dest: (usize, usize),
    len: nat,
) -> bool {
    &&& p.actions.len() == len
    &&& p.origin_row == x
    &&& p.origin_col == y
    &&& p.remaining_distance >= 0
    &&& exists|acts: Seq<InputDir>, d: Seq<u32>|
        acts.len() == len && #[trigger] p.records(
            evaluation(map, cfg, x, y, acts, (dest.0 as int, dest.1 as int), d),
        )
}

/// Runs the genetic search toward `destination` from `(x, y)`: a random
/// population of `POPULATION_SIZE` plans, then `cfg.generations` rounds of
/// evaluation, selection, crossover and mutation with the two parents kept,
/// and a last evaluation, whose best plan is returned.
pub fn search_direction(map: &Grid, cfg: &EngineConfig, x: usize, y: usize, destination: (usize, usize)) -> (r: GeneticSearch)
    requires
        map.wf(),
        cfg.wf(),
        in_bounds(map.size as int, x as int, y as int),
        destination.0 <= MAX_WORLD,
        destination.1 <= MAX_WORLD,
    ensures
        r.actions.len() == cfg.chromosome_len,
        r.origin_row == x,
        r.origin_col == y,
        r.remaining_distance >= 0,
        exists|acts: Seq<InputDir>, d: Seq<u32>|
            acts.len() == cfg.chromosome_len && #[trigger] r.records(
                evaluation(map, cfg, x as int, y as int, acts, (destination.0 as int, destination.1 as int), d),
            ),
        exists|last: Seq<GeneticSearch>|
            {
                &&& last.len() == POPULATION_SIZE
                &&& #[trigger] last.contains(r)
                &&& forall|k: int|
                    0 <= k < last.len() ==> rank_le(r, #[trigger] last[k]) && evaluated_toward(
                        last[k],
                        map,
                        cfg,
                        x as int,
                        y as int,
                        destination,
                        cfg.chromosome_len as nat,
                    )
            },
{
    let len = cfg.chromosome_len;
    let mut population: Vec<GeneticSearch> = Vec::new();
    let mut k: usize = 0;
    while k < POPULATION_SIZE
        invariant
            k <= POPULATION_SIZE,
            population.len() == k,
            len == cfg.chromosome_len,
            cfg.wf(),
            map.wf(),
            in_bounds(map.size as int, x as int, y as int),
            uniform(population@, len as nat, x as int, y as int),
        decreases POPULATION_SIZE - k,
    {
        population.push(GeneticSearch::new(len, x, y, map));
        k = k + 1;
    }
    let mut generation: usize = 0;
    while generation < cfg.generations
        invariant
            population.len() == POPULATION_SIZE,
            len == cfg.chromosome_len,
            cfg.wf(),
            map.wf(),
            in_bounds(map.size as int, x as int, y as int),
            destination.0 <= MAX_WORLD,
            destination.1 <= MAX_WORLD,
            uniform(population@, len as nat, x as int, y as int),
        decreases cfg.generations - generation,
    {
        evaluate_all(&mut population, map, destination, cfg);
        assert(uniform(population@, len as nat, x as int, y as int));
        let ghost evaluated = population@;
        let (first, second) = genetic_selection(&mut population);
        proof {
            let rank = choose|rank: int| 1 <= rank <= 7 && #[trigger] selected_from(evaluated, population@, first, second, rank);
            let s = seq![first] + population@.insert(rank - 1, second);
            lemma_rearranged_uniform(evaluated, s, len as nat, x as int, y as int);
            assert(s[0] == first);
            assert(s[rank] == second);
        }
        genetic_crossover(&mut population, &first, &second, &x, &y);
        proof {
            assert forall|t: int| 0 <= t < 6 implies (#[trigger] population@[t]).actions.len() == len by {
                crate::population::lemma_crossover_thirds(first.actions@, second.actions@, t);
            }
        }
        let ghost crossed = population@;
        genetic_mutation(&mut population);
        assert(forall|t: int| 0 <= t < 6 ==> crate::population::mutant_of(crossed[t], #[trigger] population@[t]));
        population.push(first);
        population.push(second);
        generation = generation + 1;
    }
    let ghost last = population@;
    evaluate_all(&mut population, map, destination, cfg);
    let best = best_index(&population);
    let ghost fin = population@;
    assert forall|k: int| 0 <= k < fin.len() implies rank_le(fin[best as int], #[trigger] fin[k]) && evaluated_toward(
        fin[k],
        map,
        cfg,
        x as int,
        y as int,
        destination,
        len as nat,
    ) by {
        assert(evaluated_from(last[k], fin[k], map, cfg, destination));
        assert(last[k].actions@.len() == len);
    }
    assert(fin.contains(fin[best as int]));
    assert(evaluated_from(last[best as int], population@[best as int], map, cfg, destination));
    population.remove(best)
}

/// `a` beats `b` across directions: nearer the destination, then fitter,
/// then cheaper.
pub open spec fn beats(a: GeneticSearch, b: GeneticSearch) -> bool {
    a.remaining_distance < b.remaining_distance || (a.remaining_distance == b.remaining_distance && (
    a.fitness < b.fitness || (a.fitness == b.fitness && a.cost < b.cost)))
}

/// Index of the winner among the directions' results: the first plan that
/// no other plan beats; `None` when no direction returned a plan.
pub fn best_result_index(results: &Vec<Option<GeneticSearch>>) -> (r: Option<usize>)
    ensures
        r is None <==> forall|k: int| 0 <= k < results.len() ==> (#[trigger] results@[k]) is None,
        r matches Some(i) ==> {
            &&& i < results.len()
            &&& results@[i as int] is Some
            &&& forall|k: int|
                0 <= k < results.len() && (#[trigger] results@[k]) is Some ==> !beats(
                    results@[k]->0,
                    results@[i as int]->0,
                )
            &&& forall|k: int|
                0 <= k < i && (#[trigger] results@[k]) is Some ==> beats(
                    results@[i as int]->0,
                    results@[k]->0,
                )
        },
{
    let mut best: Option<usize> = None;
    let mut i: usize = 0;
    while i < results.len()
        invariant
            i <= results.len(),
            best is None <==> forall|k: int| 0 <= k < i ==> (#[trigger] results@[k]) is None,
            best matches Some(b) ==> {
                &&& b < i
                &&& results@[b as int] is Some
                &&& forall|k: int|
                    0 <= k < i && (#[trigger] results@[k]) is Some ==> !beats(results@[k]->0, results@[b as int]->0)
                &&& forall|k: int|
                    0 <= k < b && (#[trigger] results@[k]) is Some ==> beats(
                        results@[b as int]->0,
                        results@[k]->0,
                    )
            },
        decreases results.len() - i,
    {
        if let Some(candidate) = &results[i] {
            match best {
                None => {
                    best = Some(i);
                },
                Some(b) => {
                    if let Some(current) = &results[b] {
                        if candidate.remaining_distance < current.remaining_distance || (
                        candidate.remaining_distance == current.remaining_distance && (candidate.fitness
                            < current.fitness || (candidate.fitness == current.fitness
                            && candidate.cost < current.cost))) {
                            best = Some(i);
                        }
                    }
                },
            }
        }
        i = i + 1;
    }
    best
}

/// The winner among the directions' results, as `best_result_index`
/// chooses it; `None` when no direction returned a plan.
pub fn aggregate_winners(results: Vec<Option<GeneticSearch>>) -> (r: Option<GeneticSearch>)
    ensures
        r is None <==> forall|k: int| 0 <= k < results.len() ==> (#[trigger] results@[k]) is None,
        r matches Some(w) ==> exists|i: int|
            0 <= i < results.len() && #[trigger] results@[i] == Some(w) && forall|k: int|
                0 <= k < results.len() && (#[trigger] results@[k]) is Some ==> !beats(results@[k]->0, w),
{
    let mut results = results;
    let ghost all = results@;
    match best_result_index(&results) {
        None => None,
        Some(i) => {
            let w = results.remove(i);
            assert(all[i as int] == w);
            w
        },
    }
}

/// What the dispatcher does after a round of searches.
#[derive(Clone, Copy, Debug, PartialEq, Eq, Structural)]
pub enum RetryVerdict {
    /// Take the winner.
    Accept,
    /// Run the round again with the same frontier directions.
    Retry,
    /// Recompute the frontier directions toward cells already visited, then
    /// run the round again.
    RetryRevisiting,
    /// Give up the planning episode.
    Abort,
}

/// Acceptance thresholds of the dispatcher, loosened as rounds go by.
pub struct RetryPolicy {
    /// Distance always accepted.
    pub strict: u32,
    /// Distance accepted from round `relax_from` to round `relax_until`.
    pub relaxed: u32,
    pub relax_from: u32,
    pub relax_until: u32,
    /// Distance accepted after round `relax_until`, up to round
    /// `revisit_until`, while frontier directions are recomputed.
    pub revisit: u32,
    pub revisit_until: u32,
}

impl RetryPolicy {
    /// The thresholds the search was tuned with: distance 1 always, 2 from
    /// round 3 to 10, 4 (revisiting) from round 11 to 15, then give up.
    pub fn tuned() -> (r: RetryPolicy)
        ensures
            r.strict == 1 && r.relaxed == 2 && r.relax_from == 3 && r.relax_until == 10,
            r.revisit == 4 && r.revisit_until == 15,
    {
        RetryPolicy { strict: 1, relaxed: 2, relax_from: 3, relax_until: 10, revisit: 4, revisit_until: 15 }
    }
}

/// Verdict after round `round` (counted from 1), whose winner is `best`
/// plans away from its target (`None`: no direction returned a plan).
pub open spec fn verdict(p: RetryPolicy, round: int, best: Option<i64>) -> RetryVerdict {
    let d = match best {
        Some(d) => d as int,
        None => i64::MAX as int,
    };
    if d <= p.strict {
        RetryVerdict::Accept
    } else if p.relax_from <= round <= p.relax_until {
        if d <= p.relaxed {
            RetryVerdict::Accept
        } else {
            RetryVerdict::Retry
        }
    } else if p.relax_until < round <= p.revisit_until {
        if d <= p.revisit {
            RetryVerdict::Accept
        } else {
            RetryVerdict::RetryRevisiting
        }
    } else if round > p.revisit_until {
        RetryVerdict::Abort
    } else {
        RetryVerdict::Retry
    }
}

/// Decides what follows round `round` of the dispatcher.
pub fn retry_verdict(policy: &RetryPolicy, round: u32, best: Option<i64>) -> (r: RetryVerdict)
    ensures
        r == verdict(*policy, round as int, best),
{
    let d: i64 = match best {
        Some(d) => d,
        None => i64::MAX,
    };
    if d <= policy.strict as i64 {
        RetryVerdict::Accept
    } else if policy.relax_from <= round && round <= policy.relax_until {
        if d <= policy.relaxed as i64 {
            RetryVerdict::Accept
        } else {
            RetryVerdict::Retry
        }
    } else if policy.relax_until < round && round <= policy.revisit_until {
        if d <= policy.revisit as i64 {
            RetryVerdict::Accept
        } else {
            RetryVerdict::RetryRevisiting
        }
    } else if round > policy.revisit_until {
        RetryVerdict::Abort
    } else {
        RetryVerdict::Retry
    }
}

/// The dispatcher never loops for ever: after round `revisit_until` a round
/// either accepts a winner within the strict distance or aborts.
pub proof fn lemma_retry_bounded(p: RetryPolicy, round: int, best: Option<i64>)
    requires
        round > p.revisit_until,
        p.relax_until <= p.revisit_until,
    ensures
        verdict(p, round, best) == RetryVerdict::Accept || verdict(p, round, best) == RetryVerdict::Abort,
{
}

} // verus!
