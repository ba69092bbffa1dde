use vstd::prelude::*;

use crate::rng::random_below;

verus! {

/// One gene of a plan: a step in one of the four grid directions or a no-op.
///
/// The two flags of a step say what the agent does on arrival: the first asks
/// it to destroy what stands in the target cell before stepping there, the
/// second to deposit carried content into the target cell instead of stepping.
#[derive(Clone, Copy, Debug, PartialEq, Eq, Structural)]
pub enum InputDir {
    Right(bool, bool),
    Left(bool, bool),
    Top(bool, bool),
    Bottom(bool, bool),
    NoOp,
}

/// A movement primitive of the host simulation.
#[derive(Clone, Copy, Debug, PartialEq, Eq, Structural)]
pub enum Heading {
    Up,
    Down,
    Left,
    Right,
}

/// Row and column displacement of an action.
pub open spec fn offset(a: InputDir) -> (int, int) {
    match a {
        InputDir::Right(_, _) => (0, 1),
        InputDir::Left(_, _) => (0, -1),
        InputDir::Top(_, _) => (-1, 0),
        InputDir::Bottom(_, _) => (1, 0),
        InputDir::NoOp => (0, 0),
    }
}

/// Two actions move along the same axis in opposite senses.
pub open spec fn reverses(a: InputDir, b: InputDir) -> bool {
    match (a, b) {
        (InputDir::Top(_, _), InputDir::Bottom(_, _)) => true,
        (InputDir::Bottom(_, _), InputDir::Top(_, _)) => true,
        (InputDir::Left(_, _), InputDir::Right(_, _)) => true,
        (InputDir::Right(_, _), InputDir::Left(_, _)) => true,
        _ => false,
    }
}

/// Two actions are the same move, whatever their flags.
pub open spec fn same_kind(a: InputDir, b: InputDir) -> bool {
    match (a, b) {
        (InputDir::Right(_, _), InputDir::Right(_, _)) => true,
        (InputDir::Left(_, _), InputDir::Left(_, _)) => true,
        (InputDir::Top(_, _), InputDir::Top(_, _)) => true,
        (InputDir::Bottom(_, _), InputDir::Bottom(_, _)) => true,
        (InputDir::NoOp, InputDir::NoOp) => true,
        _ => false,
    }
}

/// The action with both flags cleared.
pub open spec fn plain(a: InputDir) -> InputDir {
    match a {
        InputDir::Right(_, _) => InputDir::Right(false, false),
        InputDir::Left(_, _) => InputDir::Left(false, false),
        InputDir::Top(_, _) => InputDir::Top(false, false),
        InputDir::Bottom(_, _) => InputDir::Bottom(false, false),
        InputDir::NoOp => InputDir::NoOp,
    }
}

/// The action that a uniform draw `t` in `0..5` stands for.
pub open spec fn action_of_draw(t: int) -> InputDir {
    if t == 0 {
        InputDir::Bottom(false, false)
    } else if t == 1 {
        InputDir::Left(false, false)
    } else if t == 2 {
        InputDir::NoOp
    } else if t == 3 {
        InputDir::Right(false, false)
    } else {
        InputDir::Top(false, false)
    }
}

/// The action other than `a` that a uniform draw `t` in `0..4` stands for.
pub open spec fn alternative_of_draw(a: InputDir, t: int) -> InputDir {
    match a {
        InputDir::Right(_, _) => if t == 0 {
            InputDir::Bottom(false, false)
        } else if t == 1 {
            InputDir::Left(false, false)
        } else if t == 2 {
            InputDir::NoOp
        } else {
            InputDir::Top(false, false)
        },
        InputDir::Left(_, _) => if t == 0 {
            InputDir::Bottom(false, false)
        } else if t == 1 {
            InputDir::NoOp
        } else if t == 2 {
            InputDir::Right(false, false)
        } else {
            InputDir::Top(false, false)
        },
        InputDir::Top(_, _) => if t == 0 {
            InputDir::Bottom(false, false)
        } else if t == 1 {
            InputDir::Left(false, false)
        } else if t == 2 {
            InputDir::NoOp
        } else {
            InputDir::Right(false, false)
        },
        InputDir::Bottom(_, _) => if t == 0 {
            InputDir::Left(false, false)
        } else if t == 1 {
            InputDir::NoOp
        } else if t == 2 {
            InputDir::Right(false, false)
        } else {
            InputDir::Top(false, false)
        },
        InputDir::NoOp => if t == 0 {
            InputDir::Bottom(false, false)
        } else if t == 1 {
            InputDir::Left(false, false)
        } else if t == 2 {
            InputDir::Right(false, false)
        } else {
            InputDir::Top(false, false)
        },
    }
}

/// The action that moves from `(x, y)` to `(x1, y1)` in one step, if any.
pub open spec fn action_between(x: int, y: int, x1: int, y1: int) -> InputDir {
    if x1 - x == 0 && y1 - y == 1 {
        InputDir::Right(false, false)
    } else if x1 - x == 0 && y1 - y == -1 {
        InputDir::Left(false, false)
    } else if x1 - x == 1 && y1 - y == 0 {
        InputDir::Bottom(false, false)
    } else if x1 - x == -1 && y1 - y == 0 {
        InputDir::Top(false, false)
    } else {
        InputDir::NoOp
    }
}

/// The steps that walk a path of cells starting next to `(x, y)`.
pub open spec fn actions_along(x: int, y: int, path: Seq<(usize, usize)>) -> Seq<InputDir> {
    Seq::new(
        path.len(),
        |i: int|
            if i == 0 {
                action_between(x, y, path[0].0 as int, path[0].1 as int)
            } else {
                action_between(
                    path[i - 1].0 as int,
                    path[i - 1].1 as int,
                    path[i].0 as int,
                    path[i].1 as int,
                )
            },
    )
}

/// Row and column displacement of an action.
pub fn direction_value(value: &InputDir) -> (r: (i32, i32))
    ensures
        r.0 as int == offset(*value).0,
        r.1 as int == offset(*value).1,
{
    match value {
        InputDir::NoOp => (0, 0),
        InputDir::Top(_, _) => (-1, 0),
        InputDir::Right(_, _) => (0, 1),
        InputDir::Left(_, _) => (0, -1),
        InputDir::Bottom(_, _) => (1, 0),
    }
}

impl InputDir {
    /// The movement primitive of an action; none for a no-op.
    pub open spec fn to_heading_spec(&self) -> Option<Heading> {
        match *self {
            InputDir::Right(_, _) => Some(Heading::Right),
            InputDir::Left(_, _) => Some(Heading::Left),
            InputDir::Top(_, _) => Some(Heading::Up),
            InputDir::Bottom(_, _) => Some(Heading::Down),
            InputDir::NoOp => None,
        }
    }

    /// True exactly when `other` undoes this action: Top and Bottom, Left
    /// and Right, in either order. A no-op reverses nothing.
    pub fn is_reverse(&self, other: &InputDir) -> (r: bool)
        ensures
            r == reverses(*self, *other),
    {
        match self {
            InputDir::Top(_, _) => matches!(other, InputDir::Bottom(_, _)),
            InputDir::Left(_, _) => matches!(other, InputDir::Right(_, _)),
            InputDir::Bottom(_, _) => matches!(other, InputDir::Top(_, _)),
            InputDir::Right(_, _) => matches!(other, InputDir::Left(_, _)),
            InputDir::NoOp => false,
        }
    }

    /// The movement primitive that carries out this action; none for a no-op.
    pub fn to_heading(&self) -> (r: Option<Heading>)
        ensures
            r == self.to_heading_spec(),
    {
        match self {
            InputDir::Right(_, _) => Some(Heading::Right),
            InputDir::Left(_, _) => Some(Heading::Left),
            InputDir::Top(_, _) => Some(Heading::Up),
            InputDir::Bottom(_, _) => Some(Heading::Down),
            InputDir::NoOp => None,
        }
    }

    /// The same move with both flags cleared.
    pub fn cleared(&self) -> (r: InputDir)
        ensures
            r == plain(*self),
    {
        match self {
            InputDir::Right(_, _) => InputDir::Right(false, false),
            InputDir::Left(_, _) => InputDir::Left(false, false),
            InputDir::Top(_, _) => InputDir::Top(false, false),
            InputDir::Bottom(_, _) => InputDir::Bottom(false, false),
            InputDir::NoOp => InputDir::NoOp,
        }
    }

    /// The action that a draw `t` in `0..5` stands for.
    pub fn from_draw(t: u32) -> (r: InputDir)
        requires
            t < 5,
        ensures
            r == action_of_draw(t as int),
    {
        if t == 0 {
            InputDir::Bottom(false, false)
        } else if t == 1 {
            InputDir::Left(false, false)
        } else if t == 2 {
            InputDir::NoOp
        } else if t == 3 {
            InputDir::Right(false, false)
        } else {
            InputDir::Top(false, false)
        }
    }

    /// A uniformly drawn action with cleared flags.
    pub fn random_input_dir() -> (r: InputDir)
        ensures
            r == plain(r),
    {
        let t = random_below(5);
        InputDir::from_draw(t)
    }

    /// The action other than this one that a draw `t` in `0..4` stands for;
    /// the four draws give the four other moves.
    pub fn alternative(&self, t: u32) -> (r: InputDir)
        requires
            t < 4,
        ensures
            r == alternative_of_draw(*self, t as int),
            !same_kind(r, *self),
            r == plain(r),
    {
        match self {
            InputDir::Right(_, _) => if t == 0 {
                InputDir::Bottom(false, false)
            } else if t == 1 {
                InputDir::Left(false, false)
            } else if t == 2 {
                InputDir::NoOp
            } else {
                InputDir::Top(false, false)
            },
            InputDir::Left(_, _) => if t == 0 {
                InputDir::Bottom(false, false)
            } else if t == 1 {
                InputDir::NoOp
            } else if t == 2 {
                InputDir::Right(false, false)
            } else {
                InputDir::Top(false, false)
            },
            InputDir::Top(_, _) => if t == 0 {
                InputDir::Bottom(false, false)
            } else if t == 1 {
                InputDir::Left(false, false)
            } else if t == 2 {
                InputDir::NoOp
            } else {
                InputDir::Right(false, false)
            },
            InputDir::Bottom(_, _) => if t == 0 {
                InputDir::Left(false, false)
            } else if t == 1 {
                InputDir::NoOp
            } else if t == 2 {
                InputDir::Right(false, false)
            } else {
                InputDir::Top(false, false)
            },
            InputDir::NoOp => if t == 0 {
                InputDir::Bottom(false, false)
            } else if t == 1 {
                InputDir::Left(false, false)
            } else if t == 2 {
                InputDir::Right(false, false)
            } else {
                InputDir::Top(false, false)
            },
        }
    }

    /// A uniformly drawn action other than `i`, with cleared flags.
    pub fn random_input_without_i(i: &InputDir) -> (r: InputDir)
        ensures
            !same_kind(r, *i),
            r == plain(r),
    {
        let t = random_below(4);
        i.alternative(t)
    }

    /// The step from cell `(x, y)` to cell `(x1, y1)`; a no-op unless the two
    /// cells are neighbours in one of the four directions.
    pub fn convert_int_to_input_dir(x: i32, y: i32, x1: i32, y1: i32) -> (r: InputDir)
        ensures
            r == action_between(x as int, y as int, x1 as int, y1 as int),
    {
        let dx = x1 as i64 - x as i64;
        let dy = y1 as i64 - y as i64;
        if dx == 0 && dy == 1 {
            InputDir::Right(false, false)
        } else if dx == 0 && dy == -1 {
            InputDir::Left(false, false)
        } else if dx == 1 && dy == 0 {
            InputDir::Bottom(false, false)
        } else if dx == -1 && dy == 0 {
            InputDir::Top(false, false)
        } else {
            InputDir::NoOp
        }
    }

    /// The steps that follow a path of cells from `(x, y)`: one action per
    /// cell, each from the previous cell (or from `(x, y)`) to that cell.
    pub fn convert_to_input_dir(x: usize, y: usize, vet: Vec<(usize, usize)>) -> (r: Vec<InputDir>)
        ensures
            r@ == actions_along(x as int, y as int, vet@),
    {
        let mut result: Vec<InputDir> = Vec::new();
        let mut px: usize = x;
        let mut py: usize = y;
        let mut i: usize = 0;
        while i < vet.len()
            invariant
                i <= vet.len(),
                result.len() == i,
                i == 0 ==> px == x && py == y,
                i > 0 ==> px == vet@[i - 1].0 && py == vet@[i - 1].1,
                forall|k: int| 0 <= k < i ==> result@[k] == #[trigger] actions_along(x as int, y as int, vet@)[k],
            decreases vet.len() - i,
        {
            let (nx, ny) = vet[i];
            let a = step_between(px, py, nx, ny);
            result.push(a);
            px = nx;
            py = ny;
            i = i + 1;
        }
        assert(result@ =~= actions_along(x as int, y as int, vet@));
        result
    }

    /// Row and column displacement of an action.
    pub fn convert_to_int(i: &InputDir) -> (r: (i32, i32))
        ensures
            r.0 as int == offset(*i).0,
            r.1 as int == offset(*i).1,
    {
        direction_value(i)
    }
}

fn step_between(x: usize, y: usize, x1: usize, y1: usize) -> (r: InputDir)
    ensures
        r == action_between(x as int, y as int, x1 as int, y1 as int),
{
    if x1 == x && y < usize::MAX && y1 == y + 1 {
        InputDir::Right(false, false)
    } else if x1 == x && y > 0 && y1 == y - 1 {
        InputDir::Left(false, false)
    } else if y1 == y && x < usize::MAX && x1 == x + 1 {
        InputDir::Bottom(false, false)
    } else if y1 == y && x > 0 && x1 == x - 1 {
        InputDir::Top(false, false)
    } else {
        InputDir::NoOp
    }
}

/// Reversal holds only between the two opposite moves of an axis: it is
/// symmetric, never holds of an action with itself, and a no-op is on
/// neither side of it.
pub proof fn lemma_reverse_pairs(a: InputDir, b: InputDir)
    ensures
        reverses(a, b) == reverses(b, a),
        !reverses(a, a),
        a == InputDir::NoOp ==> !reverses(a, b) && !reverses(b, a),
        reverses(a, b) ==> offset(a).0 + offset(b).0 == 0 && offset(a).1 + offset(b).1 == 0,
        reverses(a, b) ==> !same_kind(a, b),
{
}

} // verus!
