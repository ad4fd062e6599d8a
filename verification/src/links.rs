//! The links from a cell to its neighbours: one slot for each direction.

use vstd::prelude::*;
use crate::geometry::Direction;

verus! {

/// For each of the six directions, the id of the neighbour in that direction,
/// if one is linked.
#[derive(Debug)]
pub struct NeighborLinks {
    east: Option<String>,
    north_east: Option<String>,
    north_west: Option<String>,
    south_east: Option<String>,
    west: Option<String>,
    south_west: Option<String>,
}

impl View for NeighborLinks {
    type V = Map<Direction, Seq<char>>;

    /// The linked directions, each with the id it leads to.
    closed spec fn view(&self) -> Map<Direction, Seq<char>> {
        Map::new(|d: Direction| self.slot(d) is Some, |d: Direction| self.slot(d)->0@)
    }
}

impl Clone for NeighborLinks {
    /// The same links in a value of their own.
    fn clone(&self) -> (copy: NeighborLinks)
        ensures
            copy@ == self@,
    {
        let copy = NeighborLinks {
            east: copy_slot(&self.east),
            north_east: copy_slot(&self.north_east),
            north_west: copy_slot(&self.north_west),
            south_east: copy_slot(&self.south_east),
            west: copy_slot(&self.west),
            south_west: copy_slot(&self.south_west),
        };
        assert(copy@ =~= self@);
        copy
    }
}

impl NeighborLinks {
    /// What the slot of `direction` holds.
    closed spec fn slot(&self, direction: Direction) -> Option<String> {
        match direction {
            Direction::East => self.east,
            Direction::NorthEast => self.north_east,
            Direction::NorthWest => self.north_west,
            Direction::SouthEast => self.south_east,
            Direction::West => self.west,
            Direction::SouthWest => self.south_west,
        }
    }

    /// Links in no direction.
    pub fn new() -> (links: NeighborLinks)
        ensures
            links@ == Map::<Direction, Seq<char>>::empty(),
    {
        let links = NeighborLinks {
            east: None,
            north_east: None,
            north_west: None,
            south_east: None,
            west: None,
            south_west: None,
        };
        assert(links@ =~= Map::<Direction, Seq<char>>::empty());
        links
    }

    /// The id linked in `direction`, if there is one.
    pub fn get(&self, direction: Direction) -> (linked: Option<&String>)
        ensures
            match linked {
                Some(id) => self@.contains_key(direction) && self@[direction] == id@,
                None => !self@.contains_key(direction),
            },
    {
        match direction {
            Direction::East => self.east.as_ref(),
            Direction::NorthEast => self.north_east.as_ref(),
            Direction::NorthWest => self.north_west.as_ref(),
            Direction::SouthEast => self.south_east.as_ref(),
            Direction::West => self.west.as_ref(),
            Direction::SouthWest => self.south_west.as_ref(),
        }
    }

    /// Whether a neighbour is linked in `direction`.
    pub fn contains_key(&self, direction: Direction) -> (linked: bool)
        ensures
            linked == self@.contains_key(direction),
    {
        self.get(direction).is_some()
    }

    /// Whether no neighbour is linked at all.
    pub fn is_empty(&self) -> (empty: bool)
        ensures
            empty == (self@ == Map::<Direction, Seq<char>>::empty()),
    {
        let empty = self.east.is_none() && self.north_east.is_none() && self.north_west.is_none()
            && self.south_east.is_none() && self.west.is_none() && self.south_west.is_none();
        proof {
            if empty {
                assert(self@ =~= Map::<Direction, Seq<char>>::empty());
            } else {
                assert(self@.contains_key(Direction::East) || self@.contains_key(
                    Direction::NorthEast,
                ) || self@.contains_key(Direction::NorthWest) || self@.contains_key(
                    Direction::SouthEast,
                ) || self@.contains_key(Direction::West) || self@.contains_key(
                    Direction::SouthWest,
                ));
            }
        }
        empty
    }

    /// Links `id` in `direction`, in place of what was linked there, and
    /// returns what was.
    pub fn insert(&mut self, direction: Direction, id: String) -> (previous: Option<String>)
        ensures
            final(self)@ == old(self)@.insert(direction, id@),
            match previous {
                Some(was) => old(self)@.contains_key(direction) && old(self)@[direction] == was@,
                None => !old(self)@.contains_key(direction),
            },
    {
        let previous = match direction {
            Direction::East => put(&mut self.east, id),
            Direction::NorthEast => put(&mut self.north_east, id),
            Direction::NorthWest => put(&mut self.north_west, id),
            Direction::SouthEast => put(&mut self.south_east, id),
            Direction::West => put(&mut self.west, id),
            Direction::SouthWest => put(&mut self.south_west, id),
        };
        assert(self@ =~= old(self)@.insert(direction, id@));
        previous
    }

    /// Clears the link in `direction` and returns what was linked there.
    pub fn remove(&mut self, direction: Direction) -> (previous: Option<String>)
        ensures
            final(self)@ == old(self)@.remove(direction),
            match previous {
                Some(was) => old(self)@.contains_key(direction) && old(self)@[direction] == was@,
                None => !old(self)@.contains_key(direction),
            },
    {
        let previous = match direction {
            Direction::East => self.east.take(),
            Direction::NorthEast => self.north_east.take(),
            Direction::NorthWest => self.north_west.take(),
            Direction::SouthEast => self.south_east.take(),
            Direction::West => self.west.take(),
            Direction::SouthWest => self.south_west.take(),
        };
        assert(self@ =~= old(self)@.remove(direction));
        previous
    }
}

/// What `slot` holds, in a value of its own.
fn copy_slot(slot: &Option<String>) -> (copy: Option<String>)
    ensures
        copy == *slot,
{
    match slot {
        Some(id) => Some(id.clone()),
        None => None,
    }
}

/// Fills `slot` with `id` and returns what it held.
fn put(slot: &mut Option<String>, id: String) -> (previous: Option<String>)
    ensures
        *final(slot) == Some(id),
        previous == *old(slot),
{
    let previous = slot.take();
    *slot = Some(id);
    previous
}

} // verus!
