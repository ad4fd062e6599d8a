//! Hexagonal geometry: the six directions out of a cell and the coordinate
//! that lies next to another in each of them.
//!
//! Coordinates are axial pairs `(q, r)`. The third cube coordinate is implied
//! (`-q - r`), and the directions are numbered as the `hexgrid` crate numbers
//! the neighbours of a cube coordinate `(q, r, -q - r)`.

use vstd::prelude::*;

verus! {

/// One of the six ways out of a hexagonal cell.
#[derive(Clone, Copy, Debug, PartialEq, Eq, Hash, Structural)]
pub enum Direction {
    East,
    NorthEast,
    NorthWest,
    SouthEast,
    West,
    SouthWest,
}

/// A coordinate pair as mathematical integers.
pub open spec fn point(coordinates: (i32, i32)) -> (int, int) {
    (coordinates.0 as int, coordinates.1 as int)
}

/// Whether both components of `p` fit the coordinate type.
pub open spec fn representable(p: (int, int)) -> bool {
    &&& i32::MIN <= p.0 <= i32::MAX
    &&& i32::MIN <= p.1 <= i32::MAX
}

/// The coordinate next to `p` in `direction`.
pub open spec fn neighbor_of(p: (int, int), direction: Direction) -> (int, int) {
    (p.0 + direction.offset().0, p.1 + direction.offset().1)
}

/// The direction that leads from `from` to `to`, if the two are adjacent.
pub open spec fn direction_between(from: (int, int), to: (int, int)) -> Option<Direction> {
    if neighbor_of(from, Direction::East) == to {
        Some(Direction::East)
    } else if neighbor_of(from, Direction::NorthEast) == to {
        Some(Direction::NorthEast)
    } else if neighbor_of(from, Direction::NorthWest) == to {
        Some(Direction::NorthWest)
    } else if neighbor_of(from, Direction::SouthEast) == to {
        Some(Direction::SouthEast)
    } else if neighbor_of(from, Direction::West) == to {
        Some(Direction::West)
    } else if neighbor_of(from, Direction::SouthWest) == to {
        Some(Direction::SouthWest)
    } else {
        None
    }
}

impl Direction {
    /// The number of this direction, from 0 to 5.
    pub open spec fn spec_index(self) -> int {
        match self {
            Direction::East => 0,
            Direction::NorthEast => 1,
            Direction::NorthWest => 2,
            Direction::SouthEast => 3,
            Direction::West => 4,
            Direction::SouthWest => 5,
        }
    }

    /// The direction with the given number; `None` above 5.
    pub open spec fn spec_from_index(index: int) -> Option<Direction> {
        if index == 0 {
            Some(Direction::East)
        } else if index == 1 {
            Some(Direction::NorthEast)
        } else if index == 2 {
            Some(Direction::NorthWest)
        } else if index == 3 {
            Some(Direction::SouthEast)
        } else if index == 4 {
            Some(Direction::West)
        } else if index == 5 {
            Some(Direction::SouthWest)
        } else {
            None
        }
    }

    /// The step that this direction takes, as `(dq, dr)`.
    pub open spec fn offset(self) -> (int, int) {
        match self {
            Direction::East => (1, 0),
            Direction::NorthEast => (1, -1),
            Direction::NorthWest => (0, -1),
            Direction::SouthEast => (0, 1),
            Direction::West => (-1, 0),
            Direction::SouthWest => (-1, 1),
        }
    }

    /// The direction that undoes this one.
    pub open spec fn spec_opposite(self) -> Direction {
        match self {
            Direction::East => Direction::West,
            Direction::NorthEast => Direction::SouthWest,
            Direction::NorthWest => Direction::SouthEast,
            Direction::SouthEast => Direction::NorthWest,
            Direction::West => Direction::East,
            Direction::SouthWest => Direction::NorthEast,
        }
    }

    /// The six directions in the order of their numbers.
    pub open spec fn spec_all() -> Seq<Direction> {
        seq![
            Direction::East,
            Direction::NorthEast,
            Direction::NorthWest,
            Direction::SouthEast,
            Direction::West,
            Direction::SouthWest,
        ]
    }

    /// The number of this direction, from 0 to 5.
    pub fn index(self) -> (index: usize)
        ensures
            index == self.spec_index(),
            index < 6,
    {
        match self {
            Direction::East => 0,
            Direction::NorthEast => 1,
            Direction::NorthWest => 2,
            Direction::SouthEast => 3,
            Direction::West => 4,
            Direction::SouthWest => 5,
        }
    }

    /// The direction with the given number, or `None` if the number is above 5.
    pub fn from_index(index: usize) -> (direction: Option<Direction>)
        ensures
            direction == Direction::spec_from_index(index as int),
            direction is Some <==> index < 6,
            direction matches Some(d) ==> d.spec_index() == index,
    {
        if index == 0 {
            Some(Direction::East)
        } else if index == 1 {
            Some(Direction::NorthEast)
        } else if index == 2 {
            Some(Direction::NorthWest)
        } else if index == 3 {
            Some(Direction::SouthEast)
        } else if index == 4 {
            Some(Direction::West)
        } else if index == 5 {
            Some(Direction::SouthWest)
        } else {
            None
        }
    }

    /// The six directions in the order of their numbers.
    pub fn all() -> (directions: Vec<Direction>)
        ensures
            directions@ == Direction::spec_all(),
    {
        let mut directions: Vec<Direction> = Vec::new();
        directions.push(Direction::East);
        directions.push(Direction::NorthEast);
        directions.push(Direction::NorthWest);
        directions.push(Direction::SouthEast);
        directions.push(Direction::West);
        directions.push(Direction::SouthWest);
        assert(directions@ =~= Direction::spec_all());
        directions
    }

    /// The direction that undoes this one: a step this way and a step the
    /// opposite way end where they began.
    #[verifier::when_used_as_spec(spec_opposite)]
    pub fn opposite(self) -> (back: Direction)
        ensures
            back == self.spec_opposite(),
    {
        match self {
            Direction::East => Direction::West,
            Direction::NorthEast => Direction::SouthWest,
            Direction::NorthWest => Direction::SouthEast,
            Direction::SouthEast => Direction::NorthWest,
            Direction::West => Direction::East,
            Direction::SouthWest => Direction::NorthEast,
        }
    }

    /// The step of this direction as machine integers.
    fn step(self) -> (delta: (i32, i32))
        ensures
            point(delta) == self.offset(),
    {
        match self {
            Direction::East => (1, 0),
            Direction::NorthEast => (1, -1),
            Direction::NorthWest => (0, -1),
            Direction::SouthEast => (0, 1),
            Direction::West => (-1, 0),
            Direction::SouthWest => (-1, 1),
        }
    }
}

/// The coordinate next to `coordinates` in `direction`.
///
/// Geometry knows no grid: the result may lie outside any given one. It is
/// `None` only where the adjacent coordinate does not fit the coordinate type.
pub fn neighbor(coordinates: (i32, i32), direction: Direction) -> (adjacent: Option<(i32, i32)>)
    ensures
        match adjacent {
            Some(n) => point(n) == neighbor_of(point(coordinates), direction),
            None => !representable(neighbor_of(point(coordinates), direction)),
        },
{
    let delta: (i32, i32) = direction.step();
    match coordinates.0.checked_add(delta.0) {
        Some(q) => match coordinates.1.checked_add(delta.1) {
            Some(r) => Some((q, r)),
            None => None,
        },
        None => None,
    }
}

/// Taking the opposite twice gives the direction back.
pub proof fn lemma_opposite_is_involution(direction: Direction)
    ensures
        direction.opposite().opposite() == direction,
        direction.opposite() != direction,
{
}

/// Each direction has a number of its own, and the number finds it again.
pub proof fn lemma_index_round_trip(direction: Direction)
    ensures
        0 <= direction.spec_index() < 6,
        Direction::spec_from_index(direction.spec_index()) == Some(direction),
        Direction::spec_all()[direction.spec_index()] == direction,
{
}

/// A step in a direction followed by a step in its opposite ends at the start.
pub proof fn lemma_neighbor_step_back(p: (int, int), direction: Direction)
    ensures
        neighbor_of(neighbor_of(p, direction), direction.opposite()) == p,
{
}

/// No coordinate is its own neighbour, and two directions that lead from one
/// coordinate to the same coordinate are one direction.
pub proof fn lemma_neighbors_differ(p: (int, int), first: Direction, second: Direction)
    ensures
        neighbor_of(p, first) != p,
        neighbor_of(p, first) == neighbor_of(p, second) ==> first == second,
{
}

/// `direction_between` finds exactly the direction whose step leads from one
/// coordinate to the other, and going back takes the opposite direction.
pub proof fn lemma_direction_between(from: (int, int), to: (int, int), direction: Direction)
    ensures
        direction_between(from, to) == Some(direction) <==> neighbor_of(from, direction) == to,
        direction_between(from, to) == Some(direction) <==> direction_between(to, from) == Some(
            direction.opposite(),
        ),
{
}

} // verus!
