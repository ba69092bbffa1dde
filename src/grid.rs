use vstd::prelude::*;

verus! {

/// Largest side length of a grid snapshot.
pub const MAX_WORLD: usize = 1048576;

/// Number of terrain kinds, the length of a grid's terrain cost table.
pub const TERRAIN_KINDS: usize = 11;

/// Number of content kinds, the length of a grid's content value table.
pub const CONTENT_KINDS: usize = 15;

/// Ground of an observed cell.
#[derive(Clone, Copy, Debug, PartialEq, Eq, Structural)]
pub enum TerrainKind {
    DeepWater,
    ShallowWater,
    Sand,
    Grass,
    Street,
    Hill,
    Mountain,
    Snow,
    Lava,
    Teleport,
    Wall,
}

/// What may stand on an observed cell.
#[derive(Clone, Copy, Debug, PartialEq, Eq, Structural)]
pub enum ContentKind {
    Rock,
    Tree,
    Garbage,
    Fire,
    Coin,
    Bin,
    Crate,
    Bank,
    Water,
    Market,
    Fish,
    Building,
    Bush,
    JollyBlock,
    Scarecrow,
}

/// Content of a cell: its kind and an amount (for a container, the room
/// that is left in it).
#[derive(Clone, Copy, Debug, PartialEq, Eq, Structural)]
pub struct Content {
    pub kind: ContentKind,
    pub amount: usize,
}

/// An observed cell.
#[derive(Clone, Copy, Debug, PartialEq, Eq, Structural)]
pub struct Cell {
    pub terrain: TerrainKind,
    pub elevation: u16,
    pub content: Option<Content>,
}

/// A snapshot of the observed map, indexed `[row][col]`; `None` is a cell not
/// observed yet.
///
/// `terrain_costs` holds, by `terrain_index`, what a step onto a flat cell of
/// each kind costs under the weather of the snapshot; `content_values` holds,
/// by `content_index`, the value of one unit of each content kind.
pub struct Grid {
    pub size: usize,
    pub cells: Vec<Vec<Option<Cell>>>,
    pub terrain_costs: Vec<u32>,
    pub content_values: Vec<u32>,
}

pub open spec fn terrain_index(k: TerrainKind) -> int {
    match k {
        TerrainKind::DeepWater => 0,
        TerrainKind::ShallowWater => 1,
        TerrainKind::Sand => 2,
        TerrainKind::Grass => 3,
        TerrainKind::Street => 4,
        TerrainKind::Hill => 5,
        TerrainKind::Mountain => 6,
        TerrainKind::Snow => 7,
        TerrainKind::Lava => 8,
        TerrainKind::Teleport => 9,
        TerrainKind::Wall => 10,
    }
}

pub open spec fn content_index(k: ContentKind) -> int {
    match k {
        ContentKind::Rock => 0,
        ContentKind::Tree => 1,
        ContentKind::Garbage => 2,
        ContentKind::Fire => 3,
        ContentKind::Coin => 4,
        ContentKind::Bin => 5,
        ContentKind::Crate => 6,
        ContentKind::Bank => 7,
        ContentKind::Water => 8,
        ContentKind::Market => 9,
        ContentKind::Fish => 10,
        ContentKind::Building => 11,
        ContentKind::Bush => 12,
        ContentKind::JollyBlock => 13,
        ContentKind::Scarecrow => 14,
    }
}

/// Terrain that no plan may step onto: deep water, lava and walls.
pub open spec fn impassable(k: TerrainKind) -> bool {
    k == TerrainKind::DeepWater || k == TerrainKind::Lava || k == TerrainKind::Wall
}

/// An observed cell that a plan may step onto.
pub open spec fn good_cell(c: Option<Cell>) -> bool {
    c is Some && !impassable(c->0.terrain)
}

pub open spec fn in_bounds(size: int, r: int, c: int) -> bool {
    0 <= r < size && 0 <= c < size
}

/// Manhattan distance between two cells.
pub open spec fn manhattan(r: int, c: int, r1: int, c1: int) -> int {
    (if r >= r1 { r - r1 } else { r1 - r }) + (if c >= c1 { c - c1 } else { c1 - c })
}

impl Grid {
    pub open spec fn wf(&self) -> bool {
        &&& self.size <= MAX_WORLD
        &&& self.cells.len() == self.size
        &&& forall|r: int| 0 <= r < self.size ==> (#[trigger] self.cells@[r]).len() == self.size
        &&& self.terrain_costs.len() == TERRAIN_KINDS
        &&& self.content_values.len() == CONTENT_KINDS
    }

    /// The cell at `(r, c)`; `None` outside the grid or where nothing was observed.
    pub open spec fn cell(&self, r: int, c: int) -> Option<Cell> {
        if in_bounds(self.size as int, r, c) {
            self.cells@[r]@[c]
        } else {
            None
        }
    }

    /// The cell at `(r, c)` can be stepped onto.
    pub open spec fn passable(&self, r: int, c: int) -> bool {
        good_cell(self.cell(r, c))
    }

    /// Elevation at `(r, c)`, taken as zero where nothing was observed.
    pub open spec fn elevation(&self, r: int, c: int) -> int {
        match self.cell(r, c) {
            Some(cell) => cell.elevation as int,
            None => 0,
        }
    }

    pub open spec fn terrain_cost(&self, k: TerrainKind) -> int {
        self.terrain_costs@[terrain_index(k)] as int
    }

    pub open spec fn content_value(&self, k: ContentKind) -> int {
        self.content_values@[content_index(k)] as int
    }

    /// Cost of a step from `(r, c)` onto the observed cell `(r1, c1)`: the
    /// cost of the target's terrain, plus the square of the climb when the
    /// target lies higher.
    pub open spec fn step_cost(&self, r: int, c: int, r1: int, c1: int) -> int {
        let climb = self.elevation(r1, c1) - self.elevation(r, c);
        self.terrain_cost(self.cell(r1, c1)->0.terrain) + if climb > 0 {
            climb * climb
        } else {
            0
        }
    }

    /// The cell at `(r, c)`, `None` outside the grid or where nothing was observed.
    pub fn cell_at(&self, r: i64, c: i64) -> (res: Option<Cell>)
        requires
            self.wf(),
        ensures
            res == self.cell(r as int, c as int),
    {
        if r < 0 || c < 0 || r >= self.size as i64 || c >= self.size as i64 {
            None
        } else {
            self.cells[r as usize][c as usize]
        }
    }

    /// The cell at `(r, c)` is observed and not impassable.
    pub fn is_passable(&self, r: i64, c: i64) -> (res: bool)
        requires
            self.wf(),
        ensures
            res == self.passable(r as int, c as int),
    {
        let cell = self.cell_at(r, c);
        is_good_tile(&cell)
    }

    pub fn elevation_at(&self, r: i64, c: i64) -> (res: u16)
        requires
            self.wf(),
        ensures
            res as int == self.elevation(r as int, c as int),
    {
        match self.cell_at(r, c) {
            Some(cell) => cell.elevation,
            None => 0,
        }
    }

    pub fn terrain_cost_of(&self, k: TerrainKind) -> (res: u32)
        requires
            self.wf(),
        ensures
            res as int == self.terrain_cost(k),
    {
        self.terrain_costs[terrain_slot(k)]
    }

    pub fn content_value_of(&self, k: ContentKind) -> (res: u32)
        requires
            self.wf(),
        ensures
            res as int == self.content_value(k),
    {
        self.content_values[content_slot(k)]
    }
}

pub fn terrain_slot(k: TerrainKind) -> (res: usize)
    ensures
        res as int == terrain_index(k),
        res < TERRAIN_KINDS,
{
    match k {
        TerrainKind::DeepWater => 0,
        TerrainKind::ShallowWater => 1,
        TerrainKind::Sand => 2,
        TerrainKind::Grass => 3,
        TerrainKind::Street => 4,
        TerrainKind::Hill => 5,
        TerrainKind::Mountain => 6,
        TerrainKind::Snow => 7,
        TerrainKind::Lava => 8,
        TerrainKind::Teleport => 9,
        TerrainKind::Wall => 10,
    }
}

pub fn content_slot(k: ContentKind) -> (res: usize)
    ensures
        res as int == content_index(k),
        res < CONTENT_KINDS,
{
    match k {
        ContentKind::Rock => 0,
        ContentKind::Tree => 1,
        ContentKind::Garbage => 2,
        ContentKind::Fire => 3,
        ContentKind::Coin => 4,
        ContentKind::Bin => 5,
        ContentKind::Crate => 6,
        ContentKind::Bank => 7,
        ContentKind::Water => 8,
        ContentKind::Market => 9,
        ContentKind::Fish => 10,
        ContentKind::Building => 11,
        ContentKind::Bush => 12,
        ContentKind::JollyBlock => 13,
        ContentKind::Scarecrow => 14,
    }
}

/// An observed cell whose terrain is not impassable.
pub fn is_good_tile(data: &Option<Cell>) -> (r: bool)
    ensures
        r == good_cell(*data),
{
    match data {
        None => false,
        Some(cell) => match cell.terrain {
            TerrainKind::DeepWater => false,
            TerrainKind::Lava => false,
            TerrainKind::Wall => false,
            _ => true,
        },
    }
}

/// `(next_x, next_y)` lies outside a grid of side `size`.
pub fn is_not_visualize(next_x: i64, next_y: i64, size: usize) -> (r: bool)
    requires
        size <= MAX_WORLD,
    ensures
        r == !in_bounds(size as int, next_x as int, next_y as int),
{
    next_y >= size as i64 || next_x >= size as i64 || next_x < 0 || next_y < 0
}

/// Cost of the step from `current_coord` onto the observed cell `target_coord`:
/// the target terrain's cost under the snapshot's weather, plus the square of
/// the climb when the target lies higher.
pub fn genetic_cost(current_coord: (usize, usize), target_coord: (usize, usize), map: &Grid) -> (r: u64)
    requires
        map.wf(),
        in_bounds(map.size as int, current_coord.0 as int, current_coord.1 as int),
        map.cell(target_coord.0 as int, target_coord.1 as int) is Some,
    ensures
        r as int == map.step_cost(
            current_coord.0 as int,
            current_coord.1 as int,
            target_coord.0 as int,
            target_coord.1 as int,
        ),
        r <= 0xffff_ffff + 0xffff * 0xffff,
{
    let tr = target_coord.0 as i64;
    let tc = target_coord.1 as i64;
    let target = map.cell_at(tr, tc);
    let mut cost: u64 = 0;
    if let Some(cell) = target {
        cost = map.terrain_cost_of(cell.terrain) as u64;
        let new_elevation = cell.elevation;
        let current_elevation = map.elevation_at(current_coord.0 as i64, current_coord.1 as i64);
        if new_elevation > current_elevation {
            let climb = (new_elevation - current_elevation) as u64;
            assert(climb * climb <= 0xffff * 0xffff) by (nonlinear_arith)
                requires
                    climb <= 0xffff,
            ;
            cost = cost + climb * climb;
        }
    }
    cost
}

/// Colour of a terrain kind in a picture of the map.
pub open spec fn terrain_color(tile: TerrainKind) -> (u8, u8, u8) {
    match tile {
        TerrainKind::DeepWater => (0, 0, 125),
        TerrainKind::Grass => (124, 252, 0),
        TerrainKind::Sand => (246, 215, 176),
        TerrainKind::ShallowWater => (35, 137, 218),
        TerrainKind::Mountain => (90, 75, 65),
        TerrainKind::Lava => (207, 16, 32),
        TerrainKind::Street => (50, 50, 50),
        TerrainKind::Snow => (255, 255, 255),
        TerrainKind::Hill => (1, 50, 32),
        TerrainKind::Teleport => (255, 0, 255),
        TerrainKind::Wall => (0, 0, 0),
    }
}

/// Colour of a terrain kind in a picture of the map.
pub fn color_for_tile(tile: TerrainKind) -> (r: (u8, u8, u8))
    ensures
        r == terrain_color(tile),
{
    match tile {
        TerrainKind::DeepWater => (0, 0, 125),
        TerrainKind::Grass => (124, 252, 0),
        TerrainKind::Sand => (246, 215, 176),
        TerrainKind::ShallowWater => (35, 137, 218),
        TerrainKind::Mountain => (90, 75, 65),
        TerrainKind::Lava => (207, 16, 32),
        TerrainKind::Street => (50, 50, 50),
        TerrainKind::Snow => (255, 255, 255),
        TerrainKind::Hill => (1, 50, 32),
        TerrainKind::Teleport => (255, 0, 255),
        TerrainKind::Wall => (0, 0, 0),
    }
}

/// Colour of the cell `(r, c)` in a picture of the map: red where the agent
/// stands, black where nothing was observed, else its terrain's colour.
pub fn pixel_color(map: &Grid, r: usize, c: usize, agent: (usize, usize)) -> (res: (u8, u8, u8))
    requires
        map.wf(),
    ensures
        res == if r == agent.0 && c == agent.1 {
            (255u8, 0u8, 0u8)
        } else {
            match map.cell(r as int, c as int) {
                Some(cell) => terrain_color(cell.terrain),
                None => (0u8, 0u8, 0u8),
            }
        },
{
    if r == agent.0 && c == agent.1 {
        return (255, 0, 0);
    }
    if r >= map.size || c >= map.size {
        return (0, 0, 0);
    }
    match map.cells[r][c] {
        Some(cell) => color_for_tile(cell.terrain),
        None => (0, 0, 0),
    }
}

} // verus!
