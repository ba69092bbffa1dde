use vstd::prelude::*;

use crate::action::{actions_along, InputDir};
use crate::grid::{manhattan, Content, ContentKind, Grid, MAX_WORLD};

verus! {

/// How far around the agent containers are recorded.
pub const CONTAINER_RANGE: usize = 8;

/// How many units of one kind make a trip to a container worthwhile.
pub const TRIP_THRESHOLD: usize = 5;

/// Kinds that the agent collects, each with a container kind that takes them.
pub open spec fn collectable(k: ContentKind) -> bool {
    k == ContentKind::Garbage || k == ContentKind::Coin || k == ContentKind::Tree
}

pub open spec fn container_for(k: ContentKind) -> Option<ContentKind> {
    if k == ContentKind::Tree {
        Some(ContentKind::Crate)
    } else if k == ContentKind::Garbage {
        Some(ContentKind::Bin)
    } else if k == ContentKind::Coin {
        Some(ContentKind::Bank)
    } else {
        None
    }
}

pub open spec fn is_container(k: ContentKind) -> bool {
    k == ContentKind::Bin || k == ContentKind::Crate || k == ContentKind::Bank
}

/// Content worth recording: neither collectable, nor food, fire, rock or a
/// market.
pub open spec fn noteworthy(k: ContentKind) -> bool {
    !(k == ContentKind::Fire || k == ContentKind::Tree || k == ContentKind::Bush || k == ContentKind::Fish
        || k == ContentKind::Rock || k == ContentKind::Coin || k == ContentKind::Garbage || k
        == ContentKind::Market)
}

/// The container kind that takes content of kind `content`, if any.
pub fn search_respective_content(content: ContentKind) -> (r: Option<ContentKind>)
    ensures
        r == container_for(content),
{
    match content {
        ContentKind::Tree => Some(ContentKind::Crate),
        ContentKind::Garbage => Some(ContentKind::Bin),
        ContentKind::Coin => Some(ContentKind::Bank),
        _ => None,
    }
}

/// Noteworthy content seen near the agent, by cell.
pub struct InterestMap {
    pub size: usize,
    pub cells: Vec<Vec<Option<Content>>>,
}

impl InterestMap {
    pub open spec fn wf(&self) -> bool {
        &&& self.size <= MAX_WORLD
        &&& self.cells.len() == self.size
        &&& forall|r: int| 0 <= r < self.size ==> (#[trigger] self.cells@[r]).len() == self.size
    }

    pub open spec fn at(&self, r: int, c: int) -> Option<Content> {
        if 0 <= r < self.size && 0 <= c < self.size {
            self.cells@[r]@[c]
        } else {
            None
        }
    }

    /// Some recorded cell holds content of kind `k`.
    pub open spec fn holds(&self, k: ContentKind) -> bool {
        exists|r: int, c: int| #[trigger] self.at(r, c) matches Some(ct) && ct.kind == k
    }

    /// An empty record for a map of side `size`.
    pub fn new(size: usize) -> (r: InterestMap)
        requires
            size <= MAX_WORLD,
        ensures
            r.wf(),
            r.size == size,
            forall|a: int, b: int| r.at(a, b) is None,
    {
        let mut cells: Vec<Vec<Option<Content>>> = Vec::new();
        let mut i: usize = 0;
        while i < size
            invariant
                i <= size,
                cells.len() == i,
                forall|r: int| 0 <= r < i ==> (#[trigger] cells@[r]).len() == size,
                forall|r: int, c: int| 0 <= r < i && 0 <= c < size ==> (#[trigger] cells@[r]@[c]) is None,
            decreases size - i,
        {
            let mut row: Vec<Option<Content>> = Vec::new();
            let mut j: usize = 0;
            while j < size
                invariant
                    j <= size,
                    row.len() == j,
                    forall|c: int| 0 <= c < j ==> (#[trigger] row@[c]) is None,
                decreases size - j,
            {
                row.push(None);
                j = j + 1;
            }
            cells.push(row);
            i = i + 1;
        }
        InterestMap { size, cells }
    }

    /// Records `v` at `(r, c)`.
    pub fn put(&mut self, r: usize, c: usize, v: Option<Content>)
        requires
            old(self).wf(),
            r < old(self).size,
            c < old(self).size,
        ensures
            final(self).wf(),
            final(self).size == old(self).size,
            forall|a: int, b: int|
                #[trigger] final(self).at(a, b) == if a == r && b == c {
                    v
                } else {
                    old(self).at(a, b)
                },
    {
        let ghost rows = self.cells@;
        let mut row_v = self.cells.remove(r);
        row_v[c] = v;
        let ghost new_row = row_v;
        self.cells.insert(r, row_v);
        assert(self.cells@ =~= rows.update(r as int, new_row));
    }
}

/// Whether some recorded container is of kind `content`.
pub fn container_exists(points: &InterestMap, content: ContentKind) -> (r: bool)
    requires
        points.wf(),
    ensures
        r == points.holds(content),
{
    let n = points.size;
    let mut r: usize = 0;
    while r < n
        invariant
            r <= n,
            n == points.size,
            points.wf(),
            forall|a: int, b: int| 0 <= a < r && 0 <= b < n ==> !(#[trigger] points.at(a, b) matches Some(ct) && ct.kind == content),
        decreases n - r,
    {
        let mut c: usize = 0;
        while c < n
            invariant
                c <= n,
                r < n,
                n == points.size,
                points.wf(),
                forall|a: int, b: int| 0 <= a < r && 0 <= b < n ==> !(#[trigger] points.at(a, b) matches Some(ct) && ct.kind == content),
                forall|b: int| 0 <= b < c ==> !(#[trigger] points.at(r as int, b) matches Some(ct) && ct.kind == content),
            decreases n - c,
        {
            if let Some(ct) = points.cells[r][c] {
                if ct.kind == content {
                    assert(points.at(r as int, c as int) matches Some(ct) && ct.kind == content);
                    return true;
                }
            }
            c = c + 1;
        }
        r = r + 1;
    }
    assert forall|a: int, b: int| !(#[trigger] points.at(a, b) matches Some(ct) && ct.kind == content) by {
        if !(0 <= a < n && 0 <= b < n) {
            assert(points.at(a, b) is None);
        }
    }
    false
}

/// `(a, b)` comes before `(r, c)` in row-major order.
pub open spec fn before(a: int, b: int, r: int, c: int) -> bool {
    a < r || (a == r && b < c)
}

/// `(r, c)` holds a container of kind `k` nearest `(x, y)`, and none of them
/// as near comes before it in row-major order.
pub open spec fn nearest(points: &InterestMap, k: ContentKind, x: int, y: int, r: int, c: int) -> bool {
    &&& points.at(r, c) matches Some(ct) && ct.kind == k
    &&& forall|a: int, b: int|
        (#[trigger] points.at(a, b) matches Some(ct) && ct.kind == k) ==> manhattan(x, y, r, c)
            <= manhattan(x, y, a, b)
    &&& forall|a: int, b: int|
        (#[trigger] points.at(a, b) matches Some(ct) && ct.kind == k) && before(a, b, r, c) ==> manhattan(x, y, r, c)
            < manhattan(x, y, a, b)
}

/// The nearest recorded container of kind `content` to `(x, y)`, the first
/// in row-major order among those as near; `size` is lowered to the room
/// left in it. `None`, with `size` kept, when there is no such container.
pub fn search_content(points: &InterestMap, content: ContentKind, x: usize, y: usize, size: &mut usize) -> (r: Option<(usize, usize)>)
    requires
        points.wf(),
        x < MAX_WORLD,
        y < MAX_WORLD,
    ensures
        r is None <==> !points.holds(content),
        r is None ==> *final(size) == *old(size),
        r matches Some(p) ==> nearest(points, content, x as int, y as int, p.0 as int, p.1 as int) && *final(size) == if points.at(p.0 as int, p.1 as int)->0.amount < *old(size) {
            points.at(p.0 as int, p.1 as int)->0.amount
        } else {
            *old(size)
        },
{
    let n = points.size;
    let mut best: Option<(usize, usize)> = None;
    let mut best_d: usize = 0;
    let mut r: usize = 0;
    while r < n
        invariant
            r <= n,
            n == points.size,
            points.wf(),
            x < MAX_WORLD,
            y < MAX_WORLD,
            best is None <==> forall|a: int, b: int| 0 <= a < r && 0 <= b < n ==> !(#[trigger] points.at(a, b) matches Some(ct) && ct.kind == content),
            best matches Some(p) ==> {
                &&& p.0 < r && p.1 < n
                &&& points.at(p.0 as int, p.1 as int) matches Some(ct) && ct.kind == content
                &&& best_d == manhattan(x as int, y as int, p.0 as int, p.1 as int)
                &&& forall|a: int, b: int|
                    0 <= a < r && 0 <= b < n && (#[trigger] points.at(a, b) matches Some(ct) && ct.kind == content) ==> best_d <= manhattan(x as int, y as int, a, b)
                &&& forall|a: int, b: int|
                    (#[trigger] points.at(a, b) matches Some(ct) && ct.kind == content) && before(a, b, p.0 as int, p.1 as int) ==> best_d < manhattan(x as int, y as int, a, b)
            },
        decreases n - r,
    {
        let mut c: usize = 0;
        while c < n
            invariant
                c <= n,
                r < n,
                n == points.size,
                points.wf(),
                x < MAX_WORLD,
                y < MAX_WORLD,
                best is None <==> (forall|a: int, b: int| 0 <= a < r && 0 <= b < n ==> !(#[trigger] points.at(a, b) matches Some(ct) && ct.kind == content))
                    && (forall|b: int| 0 <= b < c ==> !(#[trigger] points.at(r as int, b) matches Some(ct) && ct.kind == content)),
                best matches Some(p) ==> {
                    &&& before(p.0 as int, p.1 as int, r as int, c as int) && p.1 < n
                    &&& points.at(p.0 as int, p.1 as int) matches Some(ct) && ct.kind == content
                    &&& best_d == manhattan(x as int, y as int, p.0 as int, p.1 as int)
                    &&& forall|a: int, b: int|
                        0 <= a && 0 <= b < n && before(a, b, r as int, c as int) && (#[trigger] points.at(a, b) matches Some(ct) && ct.kind == content) ==> best_d <= manhattan(x as int, y as int, a, b)
                    &&& forall|a: int, b: int|
                        (#[trigger] points.at(a, b) matches Some(ct) && ct.kind == content) && before(a, b, p.0 as int, p.1 as int) ==> best_d < manhattan(x as int, y as int, a, b)
                },
            decreases n - c,
        {
            if let Some(ct) = points.cells[r][c] {
                if ct.kind == content {
                    let d = (if x >= r { x - r } else { r - x }) + (if y >= c { y - c } else { c - y });
                    if best.is_none() || d < best_d {
                        best = Some((r, c));
                        best_d = d;
                    }
                }
            }
            c = c + 1;
        }
        r = r + 1;
    }
    assert forall|a: int, b: int| !(0 <= a < n && 0 <= b < n) implies points.at(a, b) is None by {}
    match best {
        None => None,
        Some(p) => {
            if let Some(ct) = points.cells[p.0][p.1] {
                if ct.amount < *size {
                    *size = ct.amount;
                }
            }
            Some(p)
        },
    }
}

/// What to carry to a container, after the first `n` entries of a backpack
/// of `(kind, count)` entries: the first garbage entry of at least
/// `TRIP_THRESHOLD` units settles it; otherwise the collectable entry with
/// the largest count so far (the first of equal counts). The flag says
/// whether it is settled.
pub open spec fn load_prefix(bp: Seq<(ContentKind, usize)>, n: nat) -> (Option<ContentKind>, int, bool)
    decreases n,
{
    if n == 0 {
        (None, 0, false)
    } else {
        let prev = load_prefix(bp, (n - 1) as nat);
        let (kind, count) = bp[n - 1];
        if prev.2 {
            prev
        } else if kind == ContentKind::Garbage && count >= TRIP_THRESHOLD {
            (Some(kind), count as int, true)
        } else if collectable(kind) && count > prev.1 {
            (Some(kind), count as int, false)
        } else {
            prev
        }
    }
}

/// The content kind to carry to a container and how many units: see
/// `load_prefix`. `(None, 0)` when the backpack holds nothing collectable.
pub fn get_content_backpack(backpack: &Vec<(ContentKind, usize)>) -> (r: (Option<ContentKind>, usize))
    ensures
        r.0 == load_prefix(backpack@, backpack.len() as nat).0,
        r.1 == load_prefix(backpack@, backpack.len() as nat).1,
{
    let mut best: Option<ContentKind> = None;
    let mut max_so_far: usize = 0;
    let mut i: usize = 0;
    while i < backpack.len()
        invariant
            i <= backpack.len(),
            !load_prefix(backpack@, i as nat).2,
            best == load_prefix(backpack@, i as nat).0,
            max_so_far == load_prefix(backpack@, i as nat).1,
        decreases backpack.len() - i,
    {
        let (kind, count) = backpack[i];
        if kind == ContentKind::Garbage && count >= TRIP_THRESHOLD {
            proof {
                lemma_load_settled(backpack@, (i + 1) as nat, backpack.len() as nat);
            }
            return (Some(kind), count);
        } else if (kind == ContentKind::Garbage || kind == ContentKind::Coin || kind == ContentKind::Tree)
            && count > max_so_far {
            max_so_far = count;
            best = Some(kind);
        }
        i = i + 1;
    }
    (best, max_so_far)
}

proof fn lemma_load_settled(bp: Seq<(ContentKind, usize)>, n: nat, m: nat)
    requires
        n <= m <= bp.len(),
        load_prefix(bp, n).2,
    ensures
        load_prefix(bp, m) == load_prefix(bp, n),
    decreases m - n,
{
    if m > n {
        lemma_load_settled(bp, n, (m - 1) as nat);
    }
}

/// The backpack holds more than `TRIP_THRESHOLD` units of some collectable
/// kind whose container has been recorded.
pub fn backpack_contains_something(backpack: &Vec<(ContentKind, usize)>, points: &InterestMap) -> (r: bool)
    requires
        points.wf(),
    ensures
        r == exists|i: int|
            0 <= i < backpack.len() && collectable((#[trigger] backpack@[i]).0) && points.holds(
                container_for(backpack@[i].0)->0,
            ) && backpack@[i].1 > TRIP_THRESHOLD,
{
    let mut i: usize = 0;
    while i < backpack.len()
        invariant
            i <= backpack.len(),
            points.wf(),
            forall|k: int|
                0 <= k < i ==> !(collectable((#[trigger] backpack@[k]).0) && points.holds(container_for(backpack@[k].0)->0)
                    && backpack@[k].1 > TRIP_THRESHOLD),
        decreases backpack.len() - i,
    {
        let (kind, count) = backpack[i];
        if count > TRIP_THRESHOLD {
            if let Some(container) = search_respective_content(kind) {
                if container_exists(points, container) {
                    return true;
                }
            }
        }
        i = i + 1;
    }
    false
}

/// Rows (then columns) within `distance + 1` of `x` (then `y`), clamped to
/// `0..len`, as half-open ranges.
pub fn get_from_to(x: usize, y: usize, distance: usize, len: usize) -> (r: ((usize, usize), (usize, usize)))
    requires
        x < MAX_WORLD,
        y < MAX_WORLD,
        distance < MAX_WORLD,
        len <= MAX_WORLD,
    ensures
        r.0.0 == (if x > distance + 1 { x - distance - 1 } else { 0 }),
        r.0.1 == (if x + distance + 1 < len { x + distance + 1 } else { len as int }),
        r.1.0 == (if y > distance + 1 { y - distance - 1 } else { 0 }),
        r.1.1 == (if y + distance + 1 < len { y + distance + 1 } else { len as int }),
{
    let from_x = if x > distance + 1 { x - distance - 1 } else { 0 };
    let to_x = if x + distance + 1 < len { x + distance + 1 } else { len };
    let from_y = if y > distance + 1 { y - distance - 1 } else { 0 };
    let to_y = if y + distance + 1 < len { y + distance + 1 } else { len };
    ((from_x, to_x), (from_y, to_y))
}

/// What recording the observed cell `(a, b)` leaves in the record: its
/// content when noteworthy, unless it is a full container, which is dropped.
pub open spec fn recorded(points: &InterestMap, map: &Grid, a: int, b: int) -> Option<Content> {
    match map.cell(a, b) {
        Some(cell) => match cell.content {
            Some(ct) => if noteworthy(ct.kind) {
                if is_container(ct.kind) && ct.amount == 0 {
                    None
                } else {
                    Some(ct)
                }
            } else {
                points.at(a, b)
            },
            None => points.at(a, b),
        },
        None => points.at(a, b),
    }
}

/// Records the noteworthy content of the observed cells within
/// `CONTAINER_RANGE + 1` rows and columns of `(x, y)`; a container with no
/// room left is dropped from the record.
pub fn save_contents(points: &mut InterestMap, map: &Grid, x: usize, y: usize)
    requires
        old(points).wf(),
        map.wf(),
        old(points).size == map.size,
        x < MAX_WORLD,
        y < MAX_WORLD,
    ensures
        final(points).wf(),
        final(points).size == old(points).size,
        forall|a: int, b: int|
            #[trigger] final(points).at(a, b) == if x - CONTAINER_RANGE - 1 <= a < x + CONTAINER_RANGE + 1 && y
                - CONTAINER_RANGE - 1 <= b < y + CONTAINER_RANGE + 1 {
                recorded(old(points), map, a, b)
            } else {
                old(points).at(a, b)
            },
{
    let ((from_x, to_x), (from_y, to_y)) = get_from_to(x, y, CONTAINER_RANGE, map.size);
    let ghost start = *points;
    let mut i: usize = from_x;
    while i < to_x
        invariant
            from_x <= i,
            i <= to_x || from_x >= to_x,
            to_x <= map.size,
            to_y <= map.size,
            points.wf(),
            map.wf(),
            points.size == map.size,
            start.wf(),
            start.size == map.size,
            from_x == (if x > CONTAINER_RANGE + 1 { x - CONTAINER_RANGE - 1 } else { 0 }),
            to_x == (if x + CONTAINER_RANGE + 1 < map.size { x + CONTAINER_RANGE + 1 } else { map.size as int }),
            from_y == (if y > CONTAINER_RANGE + 1 { y - CONTAINER_RANGE - 1 } else { 0 }),
            to_y == (if y + CONTAINER_RANGE + 1 < map.size { y + CONTAINER_RANGE + 1 } else { map.size as int }),
            forall|a: int, b: int|
                #[trigger] points.at(a, b) == if from_x <= a < i && from_y <= b < to_y {
                    recorded(&start, map, a, b)
                } else {
                    start.at(a, b)
                },
        decreases to_x - i,
    {
        let mut j: usize = from_y;
        while j < to_y
            invariant
                from_y <= j,
                j <= to_y || from_y >= to_y,
                from_x <= i < to_x,
                to_x <= map.size,
                to_y <= map.size,
                points.wf(),
                map.wf(),
                points.size == map.size,
                start.wf(),
                start.size == map.size,
                forall|a: int, b: int|
                    #[trigger] points.at(a, b) == if (from_x <= a < i && from_y <= b < to_y) || (a == i && from_y <= b < j) {
                        recorded(&start, map, a, b)
                    } else {
                        start.at(a, b)
                    },
            decreases to_y - j,
        {
            if let Some(cell) = &map.cells[i][j] {
                if let Some(ct) = cell.content {
                    let k = ct.kind;
                    if !(k == ContentKind::Fire || k == ContentKind::Tree || k == ContentKind::Bush || k
                        == ContentKind::Fish || k == ContentKind::Rock || k == ContentKind::Coin || k
                        == ContentKind::Garbage || k == ContentKind::Market) {
                        let full = (k == ContentKind::Bin || k == ContentKind::Crate || k == ContentKind::Bank)
                            && ct.amount == 0;
                        if full {
                            points.put(i, j, None);
                        } else {
                            points.put(i, j, Some(ct));
                        }
                    }
                }
            }
            j = j + 1;
        }
        i = i + 1;
    }
}

/// The move with the deposit flag set and the destroy flag cleared.
pub open spec fn depositing(a: InputDir) -> InputDir {
    match a {
        InputDir::Right(_, _) => InputDir::Right(false, true),
        InputDir::Left(_, _) => InputDir::Left(false, true),
        InputDir::Top(_, _) => InputDir::Top(false, true),
        InputDir::Bottom(_, _) => InputDir::Bottom(false, true),
        InputDir::NoOp => InputDir::NoOp,
    }
}

/// The plan that follows `path` (a route of cells, ending on a container)
/// from `(x, y)`, its last step turned into a deposit into that container.
pub fn deposit_trip(x: usize, y: usize, path: Vec<(usize, usize)>) -> (r: Vec<InputDir>)
    ensures
        path.len() == 0 ==> r@.len() == 0,
        path.len() > 0 ==> r@ == actions_along(x as int, y as int, path@).update(
            path.len() - 1,
            depositing(actions_along(x as int, y as int, path@).last()),
        ),
{
    let mut steps = InputDir::convert_to_input_dir(x, y, path);
    let n = steps.len();
    if n > 0 {
        let last = match steps[n - 1] {
            InputDir::Right(_, _) => InputDir::Right(false, true),
            InputDir::Left(_, _) => InputDir::Left(false, true),
            InputDir::Top(_, _) => InputDir::Top(false, true),
            InputDir::Bottom(_, _) => InputDir::Bottom(false, true),
            InputDir::NoOp => InputDir::NoOp,
        };
        steps[n - 1] = last;
    }
    steps
}

} // verus!
