use hexgrid::Coordinate;
use hivedb::geometry::{neighbor, Direction};

fn cube(coordinates: (i32, i32)) -> Coordinate {
    let q = coordinates.0 as i64;
    let r = coordinates.1 as i64;
    Coordinate::at(q, r, -q - r).unwrap()
}

#[test]
fn directions_are_numbered_zero_to_five() {
    let all = Direction::all();
    assert_eq!(all.len(), 6);
    for (number, direction) in all.iter().enumerate() {
        assert_eq!(direction.index(), number);
        assert_eq!(Direction::from_index(number), Some(*direction));
    }
    assert_eq!(Direction::from_index(6), None);
    assert_eq!(Direction::from_index(usize::MAX), None);
    assert_eq!(Direction::from_index(0), Some(Direction::East));
    assert_eq!(Direction::from_index(5), Some(Direction::SouthWest));
}

#[test]
fn opposite_is_an_involution_without_fixed_point() {
    for direction in Direction::all() {
        assert_ne!(direction.opposite(), direction);
        assert_eq!(direction.opposite().opposite(), direction);
    }
    assert_eq!(Direction::East.opposite(), Direction::West);
    assert_eq!(Direction::NorthEast.opposite(), Direction::SouthWest);
    assert_eq!(Direction::NorthWest.opposite(), Direction::SouthEast);
    assert_eq!(Direction::SouthEast.opposite(), Direction::NorthWest);
    assert_eq!(Direction::West.opposite(), Direction::East);
    assert_eq!(Direction::SouthWest.opposite(), Direction::NorthEast);
}

#[test]
fn neighbors_of_two_two() {
    assert_eq!(neighbor((2, 2), Direction::East), Some((3, 2)));
    assert_eq!(neighbor((2, 2), Direction::NorthEast), Some((3, 1)));
    assert_eq!(neighbor((2, 2), Direction::NorthWest), Some((2, 1)));
    assert_eq!(neighbor((2, 2), Direction::SouthEast), Some((2, 3)));
    assert_eq!(neighbor((2, 2), Direction::West), Some((1, 2)));
    assert_eq!(neighbor((2, 2), Direction::SouthWest), Some((1, 3)));
}

#[test]
fn neighbor_and_opposite_undo_each_other() {
    for start in [(0, 0), (2, 2), (-7, 13), (1000, -1000)] {
        for direction in Direction::all() {
            let there = neighbor(start, direction).unwrap();
            assert_ne!(there, start);
            assert_eq!(neighbor(there, direction.opposite()), Some(start));
        }
    }
}

#[test]
fn neighbor_is_none_where_the_coordinate_does_not_fit() {
    assert_eq!(neighbor((i32::MAX, 0), Direction::East), None);
    assert_eq!(neighbor((i32::MAX, 0), Direction::NorthEast), None);
    assert_eq!(neighbor((i32::MAX, 0), Direction::West), Some((i32::MAX - 1, 0)));
    assert_eq!(neighbor((0, i32::MIN), Direction::NorthWest), None);
    assert_eq!(neighbor((0, i32::MIN), Direction::NorthEast), None);
    assert_eq!(neighbor((0, i32::MAX), Direction::SouthEast), None);
    assert_eq!(neighbor((i32::MIN, 5), Direction::West), None);
    assert_eq!(neighbor((i32::MIN, 5), Direction::SouthWest), None);
    assert_eq!(neighbor((i32::MIN, i32::MAX), Direction::NorthEast), Some((i32::MIN + 1, i32::MAX - 1)));
}

#[test]
fn neighbors_agree_with_hexgrid() {
    for start in [(0, 0), (2, 2), (-3, -1), (40, -17), (i32::MAX - 1, i32::MIN + 1)] {
        for direction in Direction::all() {
            let ours = neighbor(start, direction).unwrap();
            let theirs = cube(start).neighbor(direction.index()).unwrap();
            assert_eq!(cube(ours), theirs);
        }
        assert!(cube(start).neighbor(6).is_err());
    }
}
