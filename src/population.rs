use vstd::prelude::*;

use crate::action::{alternative_of_draw, plain, same_kind, InputDir};
use crate::fitness::{GeneticSearch, FAR, UNEVALUATED};
use crate::rng::random_below;
use crate::seed::FRESH_FITNESS;

verus! {

broadcast use {vstd::seq_lib::group_to_multiset_ensures, vstd::multiset::group_multiset_properties};

/// Size of a population: the elite pair and six children.
pub const POPULATION_SIZE: usize = 8;

/// Chance, in percent, that mutation replaces an action.
pub const MUTATION_PERCENT: u32 = 10;

/// `a` ranks no worse than `b`: nearer to the destination, or as near and
/// no less fit.
pub open spec fn rank_le(a: GeneticSearch, b: GeneticSearch) -> bool {
    a.remaining_distance < b.remaining_distance || (a.remaining_distance == b.remaining_distance
        && a.fitness <= b.fitness)
}

/// The first `n` plans of `s` are in rank order.
pub open spec fn sorted_prefix(s: Seq<GeneticSearch>, n: int) -> bool {
    forall|a: int, b: int| 0 <= a < b < n ==> rank_le(#[trigger] s[a], #[trigger] s[b])
}

pub open spec fn sorted(s: Seq<GeneticSearch>) -> bool {
    sorted_prefix(s, s.len() as int)
}

/// Rank of the second parent that a draw `t` in `0..28` stands for: rank 1
/// for seven draws, rank 2 for six, then five, four, three and two draws for
/// ranks 3 to 6, and rank 7 for the one draw left.
pub open spec fn parent_rank(t: int) -> int {
    if t <= 6 {
        1
    } else if t <= 12 {
        2
    } else if t <= 17 {
        3
    } else if 19 <= t <= 22 {
        4
    } else if 23 <= t <= 25 {
        5
    } else if 26 <= t <= 27 {
        6
    } else {
        7
    }
}

/// `elite` and `second` were taken from ranks 0 and `rank` of a rank-ordered
/// rearrangement of `before`, and `after` is what was left, in order.
pub open spec fn selected_from(
    before: Seq<GeneticSearch>,
    after: Seq<GeneticSearch>,
    elite: GeneticSearch,
    second: GeneticSearch,
    rank: int,
) -> bool {
    let s = seq![elite] + after.insert(rank - 1, second);
    &&& 1 <= rank <= after.len() + 1
    &&& sorted(s)
    &&& s.to_multiset() == before.to_multiset()
}

/// Sorts the population by rank, keeping the order of plans that tie.
pub fn sort_by_rank(population: &mut Vec<GeneticSearch>)
    ensures
        sorted(final(population)@),
        final(population)@.to_multiset() == old(population)@.to_multiset(),
        final(population).len() == old(population).len(),
{
    let n = population.len();
    let mut i: usize = 1;
    if n == 0 {
        return;
    }
    while i < n
        invariant
            1 <= i <= n,
            population.len() == n,
            sorted_prefix(population@, i as int),
            population@.to_multiset() == old(population)@.to_multiset(),
        decreases n - i,
    {
        let ghost s0 = population@;
        let x = population.remove(i);
        let ghost s1 = population@;
        assert(s1 == s0.remove(i as int));
        let mut j: usize = i;
        while j > 0 && !(population[j - 1].remaining_distance < x.remaining_distance || (
        population[j - 1].remaining_distance == x.remaining_distance && population[j - 1].fitness
            <= x.fitness))
            invariant
                0 <= j <= i,
                i < n,
                population@ == s1,
                s1.len() == n - 1,
                forall|k: int| j <= k < i ==> !rank_le(#[trigger] s1[k], x),
            decreases j,
        {
            j = j - 1;
        }
        proof {
            if j > 0 {
                assert(rank_le(s1[j - 1], x));
            }
        }
        population.insert(j, x);
        let ghost s2 = population@;
        assert(s2 == s1.insert(j as int, x));
        assert(sorted_prefix(s2, i + 1)) by {
            assert forall|a: int, b: int| 0 <= a < b < i + 1 implies rank_le(#[trigger] s2[a], #[trigger] s2[b]) by {
                if b < j {
                    assert(s2[a] == s0[a] && s2[b] == s0[b]);
                } else if b == j {
                    assert(s2[a] == s0[a]);
                    assert(rank_le(s0[a], s0[j - 1]) || a == j - 1);
                } else if a < j {
                    assert(s2[a] == s0[a] && s2[b] == s1[b - 1]);
                    assert(s1[b - 1] == s0[b - 1]);
                    assert(rank_le(s0[a], s0[b - 1]));
                } else if a == j {
                    assert(s2[b] == s1[b - 1]);
                    assert(!rank_le(s1[b - 1], x));
                } else {
                    assert(s2[a] == s1[a - 1] && s2[b] == s1[b - 1]);
                    assert(s1[a - 1] == s0[a - 1] && s1[b - 1] == s0[b - 1]);
                    assert(rank_le(s0[a - 1], s0[b - 1]));
                }
            }
        }
        i = i + 1;
    }
}

fn draw_rank(t: u32) -> (r: usize)
    requires
        t < 28,
    ensures
        r as int == parent_rank(t as int),
        1 <= r <= 7,
{
    if t <= 6 {
        1
    } else if t <= 12 {
        2
    } else if t <= 17 {
        3
    } else if 19 <= t && t <= 22 {
        4
    } else if 23 <= t && t <= 25 {
        5
    } else if 26 <= t && t <= 27 {
        6
    } else {
        7
    }
}

/// Sorts the population by rank and takes out the elite (rank 0) and the
/// plan at the rank that draw `t` in `0..28` stands for.
pub fn select_parents(population: &mut Vec<GeneticSearch>, t: u32) -> (r: (GeneticSearch, GeneticSearch))
    requires
        old(population).len() >= POPULATION_SIZE,
        t < 28,
    ensures
        selected_from(old(population)@, final(population)@, r.0, r.1, parent_rank(t as int)),
        final(population).len() == old(population).len() - 2,
{
    sort_by_rank(population);
    let ghost s = population@;
    let rank = draw_rank(t);
    let second = population.remove(rank);
    let first = population.remove(0);
    assert(seq![first] + population@.insert(rank - 1, second) =~= s);
    (first, second)
}

/// Sorts the population by rank and takes out the elite and a second parent
/// drawn at random, rank 1 being the likeliest and rank 7 the least likely.
pub fn genetic_selection(population: &mut Vec<GeneticSearch>) -> (r: (GeneticSearch, GeneticSearch))
    requires
        old(population).len() >= POPULATION_SIZE,
    ensures
        exists|rank: int| 1 <= rank <= 7 && #[trigger] selected_from(old(population)@, final(population)@, r.0, r.1, rank),
        final(population).len() == old(population).len() - 2,
{
    let t = random_below(28);
    select_parents(population, t)
}

/// Third `k` (0, 1 or 2) of a plan: the first two have a third of its
/// length, rounded down, and the last has the rest.
pub open spec fn third(s: Seq<InputDir>, k: int) -> Seq<InputDir> {
    let p = (s.len() / 3) as int;
    if k == 0 {
        s.subrange(0, p)
    } else if k == 1 {
        s.subrange(p, 2 * p)
    } else {
        s.subrange(2 * p, s.len() as int)
    }
}

/// Which parent gives each third of child `t`: `true` for the first parent.
pub open spec fn template(t: int) -> (bool, bool, bool) {
    if t == 0 {
        (true, false, true)
    } else if t == 1 {
        (true, false, false)
    } else if t == 2 {
        (false, true, true)
    } else if t == 3 {
        (false, true, false)
    } else if t == 4 {
        (true, true, false)
    } else {
        (false, false, true)
    }
}

pub open spec fn pick(from_first: bool, a: Seq<InputDir>, b: Seq<InputDir>, k: int) -> Seq<InputDir> {
    if from_first {
        third(a, k)
    } else {
        third(b, k)
    }
}

/// Actions of child `t` of parents with actions `a` and `b`.
pub open spec fn crossover_child(a: Seq<InputDir>, b: Seq<InputDir>, t: int) -> Seq<InputDir> {
    let tp = template(t);
    pick(tp.0, a, b, 0) + pick(tp.1, a, b, 1) + pick(tp.2, a, b, 2)
}

/// A fresh plan from `(x, y)` with the actions `acts`.
pub open spec fn fresh_plan(g: GeneticSearch, x: int, y: int, acts: Seq<InputDir>) -> bool {
    &&& g.actions@ == acts
    &&& g.origin_row == x
    &&& g.origin_col == y
    &&& g.cost == UNEVALUATED
    &&& g.remaining_distance == FAR
    &&& g.fitness == FRESH_FITNESS
}

/// Each child has the parents' length, and each of its thirds is that
/// third of one of the parents. The six templates each take from both
/// parents, and each third of each parent goes to some child.
pub proof fn lemma_crossover_thirds(a: Seq<InputDir>, b: Seq<InputDir>, t: int)
    requires
        a.len() == b.len(),
        0 <= t < 6,
    ensures
        crossover_child(a, b, t).len() == a.len(),
        forall|k: int|
            0 <= k < 3 ==> #[trigger] third(crossover_child(a, b, t), k) == third(a, k) || third(
                crossover_child(a, b, t),
                k,
            ) == third(b, k),
        ({
            let tp = template(t);
            &&& tp.0 || tp.1 || tp.2
            &&& !tp.0 || !tp.1 || !tp.2
        }),
        exists|u: int| 0 <= u < 6 && (#[trigger] template(u)).0,
        exists|u: int| 0 <= u < 6 && !(#[trigger] template(u)).0,
        exists|u: int| 0 <= u < 6 && (#[trigger] template(u)).1,
        exists|u: int| 0 <= u < 6 && !(#[trigger] template(u)).1,
        exists|u: int| 0 <= u < 6 && (#[trigger] template(u)).2,
        exists|u: int| 0 <= u < 6 && !(#[trigger] template(u)).2,
{
    let c = crossover_child(a, b, t);
    let tp = template(t);
    let p = a.len() / 3;
    let x = pick(tp.0, a, b, 0);
    let y = pick(tp.1, a, b, 1);
    let z = pick(tp.2, a, b, 2);
    assert(x.len() == p && y.len() == p && z.len() == a.len() - 2 * p);
    assert(c.len() == a.len());
    assert(third(c, 0) =~= x);
    assert(third(c, 1) =~= y);
    assert(third(c, 2) =~= z);
    assert(template(0).0 && !template(2).0);
    assert(template(2).1 && !template(0).1);
    assert(template(0).2 && !template(1).2);
}

fn push_range(out: &mut Vec<InputDir>, src: &Vec<InputDir>, lo: usize, hi: usize)
    requires
        lo <= hi <= src.len(),
    ensures
        final(out)@ == old(out)@ + src@.subrange(lo as int, hi as int),
{
    let ghost start = out@;
    let mut i: usize = lo;
    while i < hi
        invariant
            lo <= i <= hi <= src.len(),
            out@ == start + src@.subrange(lo as int, i as int),
        decreases hi - i,
    {
        out.push(src[i]);
        assert(out@ =~= start + src@.subrange(lo as int, i + 1));
        i = i + 1;
    }
}

fn child_of(a: &Vec<InputDir>, b: &Vec<InputDir>, t: usize) -> (r: Vec<InputDir>)
    requires
        a.len() == b.len(),
        t < 6,
    ensures
        r@ == crossover_child(a@, b@, t as int),
{
    let n = a.len();
    let p = n / 3;
    let (f0, f1, f2) = if t == 0 {
        (true, false, true)
    } else if t == 1 {
        (true, false, false)
    } else if t == 2 {
        (false, true, true)
    } else if t == 3 {
        (false, true, false)
    } else if t == 4 {
        (true, true, false)
    } else {
        (false, false, true)
    };
    let mut out: Vec<InputDir> = Vec::new();
    push_range(&mut out, if f0 { a } else { b }, 0, p);
    push_range(&mut out, if f1 { a } else { b }, p, 2 * p);
    push_range(&mut out, if f2 { a } else { b }, 2 * p, n);
    assert(out@ =~= crossover_child(a@, b@, t as int));
    out
}

/// Replaces the population by the six children of `first` and `second`,
/// each from `(x, y)`: child `t` takes each third from the parent that
/// template `t` names.
pub fn genetic_crossover(
    population: &mut Vec<GeneticSearch>,
    first: &GeneticSearch,
    second: &GeneticSearch,
    x: &usize,
    y: &usize,
)
    requires
        first.actions.len() == second.actions.len(),
    ensures
        final(population).len() == 6,
        forall|t: int|
            0 <= t < 6 ==> fresh_plan(
                #[trigger] final(population)@[t],
                *x as int,
                *y as int,
                crossover_child(first.actions@, second.actions@, t),
            ),
{
    population.clear();
    let mut t: usize = 0;
    while t < 6
        invariant
            t <= 6,
            first.actions.len() == second.actions.len(),
            population.len() == t,
            forall|u: int|
                0 <= u < t ==> fresh_plan(
                    #[trigger] population@[u],
                    *x as int,
                    *y as int,
                    crossover_child(first.actions@, second.actions@, u),
                ),
        decreases 6 - t,
    {
        let acts = child_of(&first.actions, &second.actions, t);
        population.push(GeneticSearch::new_with_vector(*x, *y, acts));
        t = t + 1;
    }
}

/// Action `a` after mutation with the draws `gate` and `choice`: when
/// `gate % 100` lies below the mutation rate, the other action that
/// `choice % 4` names; else `a` itself.
pub open spec fn mutated(a: InputDir, gate: u32, choice: u32) -> InputDir {
    if gate % 100 < MUTATION_PERCENT {
        alternative_of_draw(a, (choice % 4) as int)
    } else {
        a
    }
}

/// Mutates each action with its own pair of draws.
pub fn mutate_actions(actions: &mut Vec<InputDir>, gates: &Vec<u32>, choices: &Vec<u32>)
    requires
        gates.len() == old(actions).len(),
        choices.len() == old(actions).len(),
    ensures
        final(actions).len() == old(actions).len(),
        forall|i: int|
            0 <= i < old(actions).len() ==> #[trigger] final(actions)@[i] == mutated(
                old(actions)@[i],
                gates@[i],
                choices@[i],
            ),
{
    let n = actions.len();
    let mut i: usize = 0;
    while i < n
        invariant
            i <= n,
            n == old(actions).len(),
            gates.len() == n,
            choices.len() == n,
            actions.len() == n,
            forall|k: int| 0 <= k < i ==> #[trigger] actions@[k] == mutated(old(actions)@[k], gates@[k], choices@[k]),
            forall|k: int| i <= k < n ==> #[trigger] actions@[k] == old(actions)@[k],
        decreases n - i,
    {
        if gates[i] % 100 < MUTATION_PERCENT {
            let alt = actions[i].alternative(choices[i] % 4);
            actions[i] = alt;
        }
        i = i + 1;
    }
}

/// Either kept, or replaced by a different move with cleared flags.
pub open spec fn mutation_of(old_a: InputDir, new_a: InputDir) -> bool {
    new_a == old_a || (!same_kind(new_a, old_a) && new_a == plain(new_a))
}

/// `g` is `before` with its actions mutated.
pub open spec fn mutant_of(before: GeneticSearch, g: GeneticSearch) -> bool {
    &&& g.origin_row == before.origin_row
    &&& g.origin_col == before.origin_col
    &&& g.cost == before.cost
    &&& g.remaining_distance == before.remaining_distance
    &&& g.fitness == before.fitness
    &&& g.actions.len() == before.actions.len()
    &&& forall|i: int| 0 <= i < g.actions.len() ==> mutation_of(before.actions@[i], #[trigger] g.actions@[i])
}

/// Gives each action of each plan a chance of `MUTATION_PERCENT` in a
/// hundred to be replaced by a different, randomly drawn action.
pub fn genetic_mutation(population: &mut Vec<GeneticSearch>)
    ensures
        final(population).len() == old(population).len(),
        forall|j: int| 0 <= j < old(population).len() ==> mutant_of(old(population)@[j], #[trigger] final(population)@[j]),
{
    let n = population.len();
    let mut j: usize = 0;
    while j < n
        invariant
            j <= n,
            n == old(population).len(),
            population.len() == n,
            forall|k: int| 0 <= k < j ==> mutant_of(old(population)@[k], #[trigger] population@[k]),
            forall|k: int| j <= k < n ==> #[trigger] population@[k] == old(population)@[k],
        decreases n - j,
    {
        let mut g = population.remove(j);
        let len = g.actions.len();
        let mut gates: Vec<u32> = Vec::new();
        let mut choices: Vec<u32> = Vec::new();
        let mut i: usize = 0;
        while i < len
            invariant
                i <= len,
                gates.len() == i,
                choices.len() == i,
            decreases len - i,
        {
            gates.push(random_below(100));
            choices.push(random_below(4));
            i = i + 1;
        }
        let ghost before = g;
        mutate_actions(&mut g.actions, &gates, &choices);
        assert forall|i: int| 0 <= i < g.actions.len() implies mutation_of(before.actions@[i], #[trigger] g.actions@[i]) by {
            if gates@[i] % 100 < MUTATION_PERCENT {
                assert(!same_kind(alternative_of_draw(before.actions@[i], (choices@[i] % 4) as int), before.actions@[i]));
            }
        }
        population.insert(j, g);
        j = j + 1;
    }
}

} // verus!
