use vstd::prelude::*;

use crate::grid::{in_bounds, is_good_tile, Grid, TerrainKind, MAX_WORLD};

verus! {

/// How far a diagonal frontier lies along each axis.
pub const DISTANCE: usize = 4;

/// How far a cardinal frontier lies.
pub const ONE_DIRECTION_DISTANCE: usize = 8;

/// A compass direction toward a neighbourhood worth exploring.
#[derive(Clone, Copy, Debug, PartialEq, Eq, Structural)]
pub enum PositionToGo {
    Down,
    DownRight,
    Right,
    TopRight,
    Top,
    TopLeft,
    Left,
    DownLeft,
}

/// Row and column offset of a frontier direction's target.
pub open spec fn frontier_offset(p: PositionToGo) -> (int, int) {
    match p {
        PositionToGo::Down => (8, 0),
        PositionToGo::DownRight => (4, 4),
        PositionToGo::Right => (0, 8),
        PositionToGo::TopRight => (-4, 4),
        PositionToGo::Top => (-8, 0),
        PositionToGo::TopLeft => (-4, -4),
        PositionToGo::Left => (0, -8),
        PositionToGo::DownLeft => (4, -4),
    }
}

pub open spec fn is_cardinal(p: PositionToGo) -> bool {
    p == PositionToGo::Down || p == PositionToGo::Right || p == PositionToGo::Top || p == PositionToGo::Left
}

/// The eight directions, in the order in which they are tried.
pub open spec fn all_directions() -> Seq<PositionToGo> {
    seq![
        PositionToGo::Down,
        PositionToGo::DownRight,
        PositionToGo::Right,
        PositionToGo::TopRight,
        PositionToGo::Top,
        PositionToGo::TopLeft,
        PositionToGo::Left,
        PositionToGo::DownLeft,
    ]
}

/// The members of the first `n` of `s` that satisfy `keep`, in order.
pub open spec fn filter_prefix(s: Seq<PositionToGo>, keep: spec_fn(PositionToGo) -> bool, n: nat) -> Seq<PositionToGo>
    decreases n,
{
    if n == 0 {
        Seq::empty()
    } else {
        let rest = filter_prefix(s, keep, (n - 1) as nat);
        if keep(s[n - 1]) {
            rest.push(s[n - 1])
        } else {
            rest
        }
    }
}

pub open spec fn filtered(s: Seq<PositionToGo>, keep: spec_fn(PositionToGo) -> bool) -> Seq<PositionToGo> {
    filter_prefix(s, keep, s.len())
}

/// Target row and column of direction `p` from `(x, y)`.
pub open spec fn target_of(x: int, y: int, p: PositionToGo) -> (int, int) {
    (x + frontier_offset(p).0, y + frontier_offset(p).1)
}

/// The target of `p` lies on the grid and has not been observed.
pub open spec fn unexplored(g: &Grid, x: int, y: int, p: PositionToGo) -> bool {
    let t = target_of(x, y, p);
    in_bounds(g.size as int, t.0, t.1) && g.cell(t.0, t.1) is None
}

/// The target of `p` can be stepped onto.
pub open spec fn reachable(g: &Grid, x: int, y: int, p: PositionToGo) -> bool {
    let t = target_of(x, y, p);
    g.passable(t.0, t.1)
}

/// The target of `p` can be stepped onto and is not shallow water.
pub open spec fn dry_reachable(g: &Grid, x: int, y: int, p: PositionToGo) -> bool {
    let t = target_of(x, y, p);
    g.passable(t.0, t.1) && g.cell(t.0, t.1)->0.terrain != TerrainKind::ShallowWater
}

/// Cells the agent has already been near.
pub struct VisitedGrid {
    pub size: usize,
    pub cells: Vec<Vec<bool>>,
}

impl VisitedGrid {
    pub open spec fn wf(&self) -> bool {
        &&& self.size <= MAX_WORLD
        &&& self.cells.len() == self.size
        &&& forall|r: int| 0 <= r < self.size ==> (#[trigger] self.cells@[r]).len() == self.size
    }

    /// `(r, c)` lies on the grid and was visited.
    pub open spec fn visited(&self, r: int, c: int) -> bool {
        in_bounds(self.size as int, r, c) && self.cells@[r]@[c]
    }

    /// A grid of side `size` with nothing visited.
    pub fn new(size: usize) -> (r: VisitedGrid)
        requires
            size <= MAX_WORLD,
        ensures
            r.wf(),
            r.size == size,
            forall|a: int, b: int| !r.visited(a, b),
    {
        let mut cells: Vec<Vec<bool>> = Vec::new();
        let mut i: usize = 0;
        while i < size
            invariant
                i <= size,
                cells.len() == i,
                forall|r: int| 0 <= r < i ==> (#[trigger] cells@[r]).len() == size,
                forall|r: int, c: int| 0 <= r < i && 0 <= c < size ==> !(#[trigger] cells@[r]@[c]),
            decreases size - i,
        {
            let mut row: Vec<bool> = Vec::new();
            let mut j: usize = 0;
            while j < size
                invariant
                    j <= size,
                    row.len() == j,
                    forall|c: int| 0 <= c < j ==> !(#[trigger] row@[c]),
                decreases size - j,
            {
                row.push(false);
                j = j + 1;
            }
            cells.push(row);
            i = i + 1;
        }
        VisitedGrid { size, cells }
    }

    /// Marks as visited every cell of the grid within two rows and two
    /// columns of `(x, y)`.
    pub fn mark_area(&mut self, x: usize, y: usize)
        requires
            old(self).wf(),
        ensures
            final(self).wf(),
            final(self).size == old(self).size,
            forall|r: int, c: int|
                #[trigger] final(self).visited(r, c) == (old(self).visited(r, c) || (in_bounds(
                    old(self).size as int,
                    r,
                    c,
                ) && x - 2 <= r <= x + 2 && y - 2 <= c <= y + 2)),
    {
        let size = self.size;
        let lo_r: usize = if x >= 2 { x - 2 } else { 0 };
        let hi_r: usize = if x >= size { size } else if size - x > 3 { x + 3 } else { size };
        let lo_c: usize = if y >= 2 { y - 2 } else { 0 };
        let hi_c: usize = if y >= size { size } else if size - y > 3 { y + 3 } else { size };
        let mut r: usize = lo_r;
        while r < hi_r
            invariant
                lo_r <= r,
                hi_r <= size,
                r <= hi_r || lo_r >= hi_r,
                self.wf(),
                self.size == size,
                size == old(self).size,
                hi_c <= size,
                lo_r as int == (if x >= 2 { x - 2 } else { 0 }),
                hi_r as int == (if x + 3 <= size { x + 3 } else { size as int }),
                lo_c as int == (if y >= 2 { y - 2 } else { 0 }),
                hi_c as int == (if y + 3 <= size { y + 3 } else { size as int }),
                forall|a: int, b: int|
                    #[trigger] self.visited(a, b) == (old(self).visited(a, b) || (in_bounds(size as int, a, b)
                        && x - 2 <= a <= x + 2 && y - 2 <= b <= y + 2 && a < r)),
            decreases hi_r - r,
        {
            let ghost rows = self.cells@;
            let ghost prev = *self;
            let mut row_v = self.cells.remove(r);
            let ghost before = row_v@;
            assert(before == rows[r as int]@);
            let mut c: usize = lo_c;
            while c < hi_c
                invariant
                    lo_c <= c,
                    c <= hi_c || lo_c >= hi_c,
                    hi_c <= size,
                    row_v.len() == size,
                    before.len() == size,
                    forall|b: int|
                        0 <= b < size ==> #[trigger] row_v@[b] == (before[b] || (lo_c <= b < c)),
                decreases hi_c - c,
            {
                row_v[c] = true;
                c = c + 1;
            }
            let ghost new_row = row_v;
            self.cells.insert(r, row_v);
            assert(self.cells@ =~= rows.update(r as int, new_row));
            assert forall|a: int, b: int|
                #[trigger] self.visited(a, b) == (old(self).visited(a, b) || (in_bounds(size as int, a, b)
                    && x - 2 <= a <= x + 2 && y - 2 <= b <= y + 2 && a < r + 1)) by {
                assert(prev.visited(a, b) == (old(self).visited(a, b) || (in_bounds(size as int, a, b)
                    && x - 2 <= a <= x + 2 && y - 2 <= b <= y + 2 && a < r)));
                if a == r && in_bounds(size as int, a, b) {
                    assert(self.cells@[a] == new_row);
                    assert(before[b] == rows[a]@[b]);
                }
            }
            r = r + 1;
        }
    }
}

/// The cell `(x, y)` lies on the grid and was visited.
pub fn already_visited(visited: &VisitedGrid, x: i64, y: i64) -> (r: bool)
    requires
        visited.wf(),
    ensures
        r == visited.visited(x as int, y as int),
{
    if x < 0 || y < 0 || x >= visited.size as i64 || y >= visited.size as i64 {
        false
    } else {
        visited.cells[x as usize][y as usize]
    }
}

/// Row and column offset of a frontier direction's target.
pub fn get_next_position(pos: PositionToGo) -> (r: (i64, i64))
    ensures
        r.0 as int == frontier_offset(pos).0,
        r.1 as int == frontier_offset(pos).1,
{
    match pos {
        PositionToGo::Down => (ONE_DIRECTION_DISTANCE as i64, 0),
        PositionToGo::DownRight => (DISTANCE as i64, DISTANCE as i64),
        PositionToGo::Right => (0, ONE_DIRECTION_DISTANCE as i64),
        PositionToGo::TopRight => (-(DISTANCE as i64), DISTANCE as i64),
        PositionToGo::Top => (-(ONE_DIRECTION_DISTANCE as i64), 0),
        PositionToGo::TopLeft => (-(DISTANCE as i64), -(DISTANCE as i64)),
        PositionToGo::Left => (0, -(ONE_DIRECTION_DISTANCE as i64)),
        PositionToGo::DownLeft => (DISTANCE as i64, -(DISTANCE as i64)),
    }
}

/// Clamps `v` into `0..size`.
pub open spec fn clamp(v: int, size: int) -> int {
    if v < 0 {
        0
    } else if v >= size {
        size - 1
    } else {
        v
    }
}

/// The destination of a search toward `pos` from `(x, y)`: the target,
/// clamped onto the grid.
pub fn frontier_target(x: usize, y: usize, pos: PositionToGo, size: usize) -> (r: (usize, usize))
    requires
        0 < size <= MAX_WORLD,
        x < size,
        y < size,
    ensures
        r.0 as int == clamp(target_of(x as int, y as int, pos).0, size as int),
        r.1 as int == clamp(target_of(x as int, y as int, pos).1, size as int),
        r.0 < size && r.1 < size,
{
    let (dx, dy) = get_next_position(pos);
    let tx = x as i64 + dx;
    let ty = y as i64 + dy;
    let cx: usize = if tx < 0 { 0 } else if tx >= size as i64 { size - 1 } else { tx as usize };
    let cy: usize = if ty < 0 { 0 } else if ty >= size as i64 { size - 1 } else { ty as usize };
    (cx, cy)
}

fn all_positions() -> (r: Vec<PositionToGo>)
    ensures
        r@ == all_directions(),
{
    let r = vec![
        PositionToGo::Down,
        PositionToGo::DownRight,
        PositionToGo::Right,
        PositionToGo::TopRight,
        PositionToGo::Top,
        PositionToGo::TopLeft,
        PositionToGo::Left,
        PositionToGo::DownLeft,
    ];
    assert(r@ =~= all_directions());
    r
}

/// Which test a direction's target must pass.
#[derive(Clone, Copy, Debug, PartialEq, Eq, Structural)]
pub enum TargetTest {
    /// On the grid and not observed.
    Unexplored,
    /// Can be stepped onto.
    Reachable,
    /// Can be stepped onto and is not shallow water.
    DryReachable,
    /// Can be stepped onto and was not visited.
    ReachableUnvisited,
    /// Can be stepped onto, is not shallow water, and was not visited.
    DryReachableUnvisited,
}

pub open spec fn passes(test: TargetTest, g: &Grid, v: &VisitedGrid, x: int, y: int, p: PositionToGo) -> bool {
    let t = target_of(x, y, p);
    match test {
        TargetTest::Unexplored => unexplored(g, x, y, p),
        TargetTest::Reachable => reachable(g, x, y, p),
        TargetTest::DryReachable => dry_reachable(g, x, y, p),
        TargetTest::ReachableUnvisited => reachable(g, x, y, p) && !v.visited(t.0, t.1),
        TargetTest::DryReachableUnvisited => dry_reachable(g, x, y, p) && !v.visited(t.0, t.1),
    }
}

fn target_passes(test: TargetTest, g: &Grid, v: &VisitedGrid, x: usize, y: usize, p: PositionToGo) -> (r: bool)
    requires
        g.wf(),
        v.wf(),
        x < MAX_WORLD,
        y < MAX_WORLD,
    ensures
        r == passes(test, g, v, x as int, y as int, p),
{
    let (dx, dy) = get_next_position(p);
    let tx = x as i64 + dx;
    let ty = y as i64 + dy;
    let cell = g.cell_at(tx, ty);
    match test {
        TargetTest::Unexplored => tx >= 0 && ty >= 0 && tx < g.size as i64 && ty < g.size as i64 && cell.is_none(),
        TargetTest::Reachable => is_good_tile(&cell),
        TargetTest::DryReachable => is_good_tile(&cell) && cell.unwrap().terrain != TerrainKind::ShallowWater,
        TargetTest::ReachableUnvisited => is_good_tile(&cell) && !already_visited(v, tx, ty),
        TargetTest::DryReachableUnvisited => is_good_tile(&cell) && cell.unwrap().terrain != TerrainKind::ShallowWater
            && !already_visited(v, tx, ty),
    }
}

/// The directions of `dirs`, in order, whose targets from `(x, y)` pass `test`.
pub fn filter_directions(
    dirs: &Vec<PositionToGo>,
    test: TargetTest,
    g: &Grid,
    v: &VisitedGrid,
    x: usize,
    y: usize,
) -> (r: Vec<PositionToGo>)
    requires
        g.wf(),
        v.wf(),
        x < MAX_WORLD,
        y < MAX_WORLD,
    ensures
        r@ == filtered(dirs@, |p: PositionToGo| passes(test, g, v, x as int, y as int, p)),
{
    let ghost keep = |p: PositionToGo| passes(test, g, v, x as int, y as int, p);
    let mut out: Vec<PositionToGo> = Vec::new();
    let mut i: usize = 0;
    while i < dirs.len()
        invariant
            i <= dirs.len(),
            g.wf(),
            v.wf(),
            x < MAX_WORLD,
            y < MAX_WORLD,
            keep == (|p: PositionToGo| passes(test, g, v, x as int, y as int, p)),
            out@ == filter_prefix(dirs@, keep, i as nat),
        decreases dirs.len() - i,
    {
        if target_passes(test, g, v, x, y, dirs[i]) {
            out.push(dirs[i]);
        }
        i = i + 1;
    }
    out
}

impl PositionToGo {
    /// The eight directions.
    pub fn new() -> (r: Vec<PositionToGo>)
        ensures
            r@ == all_directions(),
    {
        all_positions()
    }

    /// The directions whose targets from `(x, y)` lie on the grid and are
    /// not observed yet; all eight when there are none.
    pub fn new_with_world(rob_map: &Grid, x: usize, y: usize) -> (r: Vec<PositionToGo>)
        requires
            rob_map.wf(),
            x < MAX_WORLD,
            y < MAX_WORLD,
        ensures
            ({
                let f = filtered(all_directions(), |p: PositionToGo| unexplored(rob_map, x as int, y as int, p));
                r@ == if f.len() == 0 { all_directions() } else { f }
            }),
    {
        let all = all_positions();
        let none = VisitedGrid::new(0);
        let v = filter_directions(&all, TargetTest::Unexplored, rob_map, &none, x, y);
        assert((|p: PositionToGo| passes(TargetTest::Unexplored, rob_map, &none, x as int, y as int, p)) =~= (|p: PositionToGo| unexplored(rob_map, x as int, y as int, p)));
        if v.len() == 0 {
            all
        } else {
            v
        }
    }

    /// The directions whose targets from `(x, y)` can be stepped onto.
    pub fn new_already_seen_without_rob(rob_map: &Grid, x: usize, y: usize) -> (r: Vec<PositionToGo>)
        requires
            rob_map.wf(),
            x < MAX_WORLD,
            y < MAX_WORLD,
        ensures
            r@ == filtered(all_directions(), |p: PositionToGo| reachable(rob_map, x as int, y as int, p)),
    {
        let all = all_positions();
        let none = VisitedGrid::new(0);
        let v = filter_directions(&all, TargetTest::Reachable, rob_map, &none, x, y);
        assert((|p: PositionToGo| passes(TargetTest::Reachable, rob_map, &none, x as int, y as int, p)) =~= (|p: PositionToGo| reachable(rob_map, x as int, y as int, p)));
        v
    }

    /// Directions toward cells already observed: first those whose targets
    /// can be stepped onto, are not shallow water and were not visited; if
    /// none, those that can be stepped onto and were not visited; if none,
    /// those that can be stepped onto.
    pub fn new_already_seen(rob_map: &Grid, visited: &VisitedGrid, x: usize, y: usize) -> (r: Vec<PositionToGo>)
        requires
            rob_map.wf(),
            visited.wf(),
            x < MAX_WORLD,
            y < MAX_WORLD,
        ensures
            r@ == first_nonempty3(
                filtered(all_directions(), |p: PositionToGo| passes(TargetTest::DryReachableUnvisited, rob_map, visited, x as int, y as int, p)),
                filtered(all_directions(), |p: PositionToGo| passes(TargetTest::ReachableUnvisited, rob_map, visited, x as int, y as int, p)),
                filtered(all_directions(), |p: PositionToGo| reachable(rob_map, x as int, y as int, p)),
            ),
    {
        let all = all_positions();
        let v = filter_directions(&all, TargetTest::DryReachableUnvisited, rob_map, visited, x, y);
        if v.len() > 0 {
            return v;
        }
        let v = filter_directions(&all, TargetTest::ReachableUnvisited, rob_map, visited, x, y);
        if v.len() > 0 {
            return v;
        }
        PositionToGo::new_already_seen_without_rob(rob_map, x, y)
    }
}

/// The first of three sequences that is not empty (the third if all are).
pub open spec fn first_nonempty3(a: Seq<PositionToGo>, b: Seq<PositionToGo>, c: Seq<PositionToGo>) -> Seq<PositionToGo> {
    if a.len() > 0 {
        a
    } else if b.len() > 0 {
        b
    } else {
        c
    }
}

/// The frontier directions to search after sensing from `(x, y)`: those of
/// `candidates` whose targets can be stepped onto and are not shallow water;
/// if none, those whose targets can be stepped onto; if none, the directions
/// toward cells already observed.
pub fn choose_frontiers(
    candidates: &Vec<PositionToGo>,
    rob_map: &Grid,
    visited: &VisitedGrid,
    x: usize,
    y: usize,
) -> (r: Vec<PositionToGo>)
    requires
        rob_map.wf(),
        visited.wf(),
        x < MAX_WORLD,
        y < MAX_WORLD,
    ensures
        r@ == first_nonempty3(
            filtered(candidates@, |p: PositionToGo| passes(TargetTest::DryReachable, rob_map, visited, x as int, y as int, p)),
            filtered(candidates@, |p: PositionToGo| passes(TargetTest::Reachable, rob_map, visited, x as int, y as int, p)),
            first_nonempty3(
                filtered(all_directions(), |p: PositionToGo| passes(TargetTest::DryReachableUnvisited, rob_map, visited, x as int, y as int, p)),
                filtered(all_directions(), |p: PositionToGo| passes(TargetTest::ReachableUnvisited, rob_map, visited, x as int, y as int, p)),
                filtered(all_directions(), |p: PositionToGo| reachable(rob_map, x as int, y as int, p)),
            ),
        ),
{
    let v = filter_directions(candidates, TargetTest::DryReachable, rob_map, visited, x, y);
    if v.len() > 0 {
        return v;
    }
    let v = filter_directions(candidates, TargetTest::Reachable, rob_map, visited, x, y);
    if v.len() > 0 {
        return v;
    }
    PositionToGo::new_already_seen(rob_map, visited, x, y)
}

} // verus!
