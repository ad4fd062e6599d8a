//! The grid: cells indexed by coordinate within a fixed rectangle, each
//! coordinate holding at most one cell, with the links between neighbouring
//! cells kept reciprocal as cells come and go.

use vstd::prelude::*;
use crate::cell::{Cell, CellView};
use crate::error::HiveError;
use crate::geometry::{
    direction_between, lemma_direction_between, lemma_neighbor_step_back, lemma_neighbors_differ,
    neighbor, neighbor_of, point, representable, Direction,
};

verus! {

/// A grid as mathematical values: its cells in the order in which they were
/// added, and its width and height.
#[verifier::ext_equal]
pub struct GridView {
    pub cells: Seq<CellView>,
    pub dimensions: (nat, nat),
}

/// Whether `from` names `to` in `direction`, if that is where `to` lies.
pub open spec fn links_to(from: CellView, direction: Direction, to: CellView) -> bool {
    neighbor_of(from.coordinates, direction) == to.coordinates ==> from.neighbors.contains_key(
        direction,
    ) && from.neighbors[direction] == to.id
}

/// `cell` once a cell with the given id lies at `p`: linked to it, if `p` is
/// next to `cell`.
pub open spec fn linked_toward(cell: CellView, p: (int, int), id: Seq<char>) -> CellView {
    match direction_between(cell.coordinates, p) {
        Some(d) => cell.linked(d, id),
        None => cell,
    }
}

/// `cell` once the cell at `p` is gone: no longer linked in the direction of
/// `p`, if `p` is next to `cell`.
pub open spec fn unlinked_from(cell: CellView, p: (int, int)) -> CellView {
    match direction_between(cell.coordinates, p) {
        Some(d) => cell.unlinked(d),
        None => cell,
    }
}

/// `cell` as it stands in `grid` after it was added: linked to the cell at
/// each occupied neighbouring coordinate, its other links as they were.
pub open spec fn linked_into(cell: CellView, grid: GridView) -> CellView {
    CellView {
        neighbors: Map::new(
            |d: Direction|
                cell.neighbors.contains_key(d) || grid.occupied(
                    neighbor_of(cell.coordinates, d),
                ),
            |d: Direction|
                match grid.cell_at(neighbor_of(cell.coordinates, d)) {
                    Some(there) => there.id,
                    None => cell.neighbors[d],
                },
        ),
        ..cell
    }
}

impl GridView {
    /// Whether `p` lies within the rectangle of the grid.
    pub open spec fn in_bounds(self, p: (int, int)) -> bool {
        &&& 0 <= p.0 < self.dimensions.0
        &&& 0 <= p.1 < self.dimensions.1
    }

    /// Whether a cell lies at `p`.
    pub open spec fn occupied(self, p: (int, int)) -> bool {
        exists|i: int| 0 <= i < self.cells.len() && (#[trigger] self.cells[i]).coordinates == p
    }

    /// Where in the order of the cells the cell at `p` stands.
    pub open spec fn position(self, p: (int, int)) -> int {
        choose|i: int| 0 <= i < self.cells.len() && (#[trigger] self.cells[i]).coordinates == p
    }

    /// The cell at `p`, if there is one.
    pub open spec fn cell_at(self, p: (int, int)) -> Option<CellView> {
        if self.occupied(p) {
            Some(self.cells[self.position(p)])
        } else {
            None
        }
    }

    /// What holds of every grid: each cell lies within the rectangle, no two
    /// cells share a coordinate, and each cell names, in each direction in
    /// which a cell lies next to it, that cell.
    pub open spec fn wf(self) -> bool {
        &&& forall|i: int|
            0 <= i < self.cells.len() ==> self.in_bounds((#[trigger] self.cells[i]).coordinates)
        &&& forall|i: int, j: int|
            0 <= i < self.cells.len() && 0 <= j < self.cells.len() && i != j ==> (
            #[trigger] self.cells[i]).coordinates != (#[trigger] self.cells[j]).coordinates
        &&& forall|i: int, j: int, d: Direction|
            0 <= i < self.cells.len() && 0 <= j < self.cells.len() ==> #[trigger] links_to(
                self.cells[i],
                d,
                self.cells[j],
            )
    }

    /// This grid after `cell` was added: the cells next to it linked to it,
    /// and `cell` itself, linked to them, at the end.
    pub open spec fn with_cell(self, cell: CellView) -> GridView {
        GridView {
            cells: self.cells.map_values(
                |k: CellView| linked_toward(k, cell.coordinates, cell.id),
            ).push(linked_into(cell, self)),
            ..self
        }
    }

    /// This grid after the cell at `p` was removed: the other cells in their
    /// order, those next to `p` no longer linked in its direction.
    pub open spec fn without_cell(self, p: (int, int)) -> GridView {
        GridView {
            cells: self.cells.remove(self.position(p)).map_values(
                |k: CellView| unlinked_from(k, p),
            ),
            ..self
        }
    }

    /// This grid with `cell` in place of the cell at `p`.
    pub open spec fn with_cell_at(self, p: (int, int), cell: CellView) -> GridView {
        GridView { cells: self.cells.update(self.position(p), cell), ..self }
    }

    /// This grid after `add_cell` was called with `cell`: with the cell where
    /// it lies within bounds at a free coordinate, and else as it was.
    pub open spec fn after_add(self, cell: CellView) -> GridView {
        if self.in_bounds(cell.coordinates) && !self.occupied(cell.coordinates) {
            self.with_cell(cell)
        } else {
            self
        }
    }

    /// This grid after `add_cell` was called with each of `cells` in turn.
    pub open spec fn after_adding(self, cells: Seq<CellView>) -> GridView
        decreases cells.len(),
    {
        if cells.len() == 0 {
            self
        } else {
            self.after_adding(cells.drop_last()).after_add(cells.last())
        }
    }

    /// The ids of the cells that carry `tag`.
    pub open spec fn tagged_ids(self, tag: Seq<char>) -> Set<Seq<char>> {
        self.tagged(tag).map_values(|k: CellView| k.id).to_set()
    }

    /// The cells that carry `tag`, in the order of the grid.
    pub open spec fn tagged(self, tag: Seq<char>) -> Seq<CellView> {
        self.cells.filter(|k: CellView| k.metadata.tags.contains(tag))
    }
}

/// In a well-formed grid the cell at an occupied coordinate is the one cell
/// that has that coordinate.
pub proof fn lemma_position(grid: GridView, i: int)
    requires
        grid.wf(),
        0 <= i < grid.cells.len(),
    ensures
        grid.occupied(grid.cells[i].coordinates),
        grid.position(grid.cells[i].coordinates) == i,
        grid.cell_at(grid.cells[i].coordinates) == Some(grid.cells[i]),
{
    let p = grid.cells[i].coordinates;
    let k = grid.position(p);
    assert(0 <= k < grid.cells.len() && grid.cells[k].coordinates == p);
}

/// Adding a cell within bounds at a free coordinate keeps the grid well
/// formed, and the cell is then found at its coordinate with its id.
pub proof fn lemma_with_cell(grid: GridView, cell: CellView)
    requires
        grid.wf(),
        grid.in_bounds(cell.coordinates),
        !grid.occupied(cell.coordinates),
    ensures
        grid.with_cell(cell).wf(),
        grid.with_cell(cell).cells.len() == grid.cells.len() + 1,
        grid.with_cell(cell).cell_at(cell.coordinates) matches Some(found) && found.id == cell.id
            && found.coordinates == cell.coordinates && found.data == cell.data
            && found.metadata == cell.metadata,
        forall|p: (int, int)|
            grid.with_cell(cell).occupied(p) <==> grid.occupied(p) || p == cell.coordinates,
{
    let after = grid.with_cell(cell);
    let n = grid.cells.len() as int;
    let c = cell.coordinates;
    assert(after.cells.len() == n + 1);
    assert(after.cells[n] == linked_into(cell, grid));
    assert forall|i: int| 0 <= i < n implies (#[trigger] after.cells[i]) == linked_toward(
        grid.cells[i],
        c,
        cell.id,
    ) && after.cells[i].coordinates == grid.cells[i].coordinates && after.cells[i].id
        == grid.cells[i].id by {}
    assert forall|i: int| 0 <= i < after.cells.len() implies after.in_bounds(
        (#[trigger] after.cells[i]).coordinates,
    ) by {
        if i < n {
            assert(grid.in_bounds(grid.cells[i].coordinates));
        }
    }
    assert forall|i: int, j: int|
        0 <= i < after.cells.len() && 0 <= j < after.cells.len() && i != j implies (
    #[trigger] after.cells[i]).coordinates != (#[trigger] after.cells[j]).coordinates by {
        if i < n && j < n {
            assert(grid.cells[i].coordinates != grid.cells[j].coordinates);
        } else if i < n {
            assert(grid.cells[i].coordinates != c);
        } else {
            assert(grid.cells[j].coordinates != c);
        }
    }
    assert forall|i: int, j: int, d: Direction|
        0 <= i < after.cells.len() && 0 <= j < after.cells.len() implies #[trigger] links_to(
        after.cells[i],
        d,
        after.cells[j],
    ) by {
        if neighbor_of(after.cells[i].coordinates, d) == after.cells[j].coordinates {
            if i < n && j < n {
                assert(links_to(grid.cells[i], d, grid.cells[j]));
                lemma_direction_between(grid.cells[i].coordinates, c, d);
                assert(grid.cells[j].coordinates != c);
            } else if i < n {
                lemma_direction_between(grid.cells[i].coordinates, c, d);
            } else if j < n {
                lemma_position(grid, j);
            } else {
                lemma_neighbors_differ(c, d, d);
            }
        }
    }
    assert(after.cells[n].coordinates == c);
    assert(after.occupied(c));
    let k = after.position(c);
    assert(k == n) by {
        if k != n {
            assert(after.cells[k].coordinates != after.cells[n].coordinates);
        }
    }
    assert forall|p: (int, int)| after.occupied(p) <==> grid.occupied(p) || p == c by {
        if after.occupied(p) {
            let i = choose|i: int|
                0 <= i < after.cells.len() && (#[trigger] after.cells[i]).coordinates == p;
            if i < n {
                assert(grid.cells[i].coordinates == p);
            }
        }
        if grid.occupied(p) {
            let i = choose|i: int|
                0 <= i < grid.cells.len() && (#[trigger] grid.cells[i]).coordinates == p;
            assert(after.cells[i].coordinates == p);
        }
    }
}

/// A grid stays well formed where a cell is replaced by one with the same
/// coordinates, id and links, whatever else has changed about it.
pub proof fn lemma_with_cell_at(grid: GridView, p: (int, int), cell: CellView)
    requires
        grid.wf(),
        grid.cell_at(p) matches Some(was) && was.coordinates == cell.coordinates && was.id
            == cell.id && was.neighbors == cell.neighbors,
    ensures
        grid.with_cell_at(p, cell).wf(),
        grid.with_cell_at(p, cell).cell_at(p) == Some(cell),
        forall|q: (int, int)| grid.with_cell_at(p, cell).occupied(q) <==> grid.occupied(q),
        forall|q: (int, int)|
            q != p ==> grid.with_cell_at(p, cell).cell_at(q) == grid.cell_at(q),
{
    let after = grid.with_cell_at(p, cell);
    let at = grid.position(p);
    assert(0 <= at < grid.cells.len() && grid.cells[at].coordinates == p);
    assert forall|i: int| 0 <= i < after.cells.len() implies (#[trigger] after.cells[i]).coordinates
        == grid.cells[i].coordinates && after.cells[i].id == grid.cells[i].id
        && after.cells[i].neighbors == grid.cells[i].neighbors by {}
    assert forall|i: int| 0 <= i < after.cells.len() implies after.in_bounds(
        (#[trigger] after.cells[i]).coordinates,
    ) by {
        assert(grid.in_bounds(grid.cells[i].coordinates));
    }
    assert forall|i: int, j: int|
        0 <= i < after.cells.len() && 0 <= j < after.cells.len() && i != j implies (
    #[trigger] after.cells[i]).coordinates != (#[trigger] after.cells[j]).coordinates by {
        assert(grid.cells[i].coordinates != grid.cells[j].coordinates);
    }
    assert forall|i: int, j: int, d: Direction|
        0 <= i < after.cells.len() && 0 <= j < after.cells.len() implies #[trigger] links_to(
        after.cells[i],
        d,
        after.cells[j],
    ) by {
        assert(links_to(grid.cells[i], d, grid.cells[j]));
    }
    assert forall|q: (int, int)| after.occupied(q) <==> grid.occupied(q) by {
        if after.occupied(q) {
            let i = after.position(q);
            assert(grid.cells[i].coordinates == q);
        }
        if grid.occupied(q) {
            let i = grid.position(q);
            assert(after.cells[i].coordinates == q);
        }
    }
    assert forall|q: (int, int)| after.occupied(q) implies after.position(q) == grid.position(
        q,
    ) by {
        let i = after.position(q);
        let k = grid.position(q);
        assert(after.cells[i].coordinates == q);
        assert(grid.cells[k].coordinates == q);
        assert(grid.cells[i].coordinates == q);
        if i != k {
            assert(grid.cells[i].coordinates != grid.cells[k].coordinates);
        }
    }
}

/// In a well-formed grid the links between two neighbouring cells are
/// reciprocal: each names the other, in opposite directions.
pub proof fn lemma_links_are_reciprocal(grid: GridView, i: int, j: int, d: Direction)
    requires
        grid.wf(),
        0 <= i < grid.cells.len(),
        0 <= j < grid.cells.len(),
        neighbor_of(grid.cells[i].coordinates, d) == grid.cells[j].coordinates,
    ensures
        grid.cells[i].neighbors.contains_key(d),
        grid.cells[i].neighbors[d] == grid.cells[j].id,
        grid.cells[j].neighbors.contains_key(d.opposite()),
        grid.cells[j].neighbors[d.opposite()] == grid.cells[i].id,
{
    lemma_neighbor_step_back(grid.cells[i].coordinates, d);
    assert(links_to(grid.cells[i], d, grid.cells[j]));
    assert(links_to(grid.cells[j], d.opposite(), grid.cells[i]));
}

/// Removing the cell at an occupied coordinate keeps the grid well formed,
/// frees the coordinate and no other, and leaves no remaining cell linked in
/// the direction of the removed one.
pub proof fn lemma_without_cell(grid: GridView, p: (int, int))
    requires
        grid.wf(),
        grid.occupied(p),
    ensures
        grid.without_cell(p).wf(),
        grid.without_cell(p).cells.len() == grid.cells.len() - 1,
        !grid.without_cell(p).occupied(p),
        forall|q: (int, int)|
            q != p ==> (grid.without_cell(p).occupied(q) <==> grid.occupied(q)),
        forall|i: int, d: Direction|
            0 <= i < grid.without_cell(p).cells.len() && #[trigger] neighbor_of(
                grid.without_cell(p).cells[i].coordinates,
                d,
            ) == p ==> !grid.without_cell(p).cells[i].neighbors.contains_key(d),
{
    let after = grid.without_cell(p);
    let at = grid.position(p);
    let rest = grid.cells.remove(at);
    assert(0 <= at < grid.cells.len() && grid.cells[at].coordinates == p);
    assert(after.cells.len() == grid.cells.len() - 1);
    assert forall|i: int| 0 <= i < after.cells.len() implies {
        let from = if i < at {
            i
        } else {
            i + 1
        };
        &&& (#[trigger] after.cells[i]) == unlinked_from(grid.cells[from], p)
        &&& after.cells[i].coordinates == grid.cells[from].coordinates
        &&& after.cells[i].coordinates != p
    } by {
        let from = if i < at {
            i
        } else {
            i + 1
        };
        assert(rest[i] == grid.cells[from]);
        assert(grid.cells[from].coordinates != grid.cells[at].coordinates);
    }
    assert forall|i: int| 0 <= i < after.cells.len() implies after.in_bounds(
        (#[trigger] after.cells[i]).coordinates,
    ) by {
        let from = if i < at {
            i
        } else {
            i + 1
        };
        assert(grid.in_bounds(grid.cells[from].coordinates));
    }
    assert forall|i: int, j: int|
        0 <= i < after.cells.len() && 0 <= j < after.cells.len() && i != j implies (
    #[trigger] after.cells[i]).coordinates != (#[trigger] after.cells[j]).coordinates by {
        let fi = if i < at {
            i
        } else {
            i + 1
        };
        let fj = if j < at {
            j
        } else {
            j + 1
        };
        assert(grid.cells[fi].coordinates != grid.cells[fj].coordinates);
    }
    assert forall|i: int, j: int, d: Direction|
        0 <= i < after.cells.len() && 0 <= j < after.cells.len() implies #[trigger] links_to(
        after.cells[i],
        d,
        after.cells[j],
    ) by {
        let fi = if i < at {
            i
        } else {
            i + 1
        };
        let fj = if j < at {
            j
        } else {
            j + 1
        };
        assert(links_to(grid.cells[fi], d, grid.cells[fj]));
        lemma_direction_between(grid.cells[fi].coordinates, p, d);
    }
    assert(!after.occupied(p));
    assert forall|q: (int, int)| q != p implies (after.occupied(q) <==> grid.occupied(q)) by {
        if after.occupied(q) {
            let i = choose|i: int|
                0 <= i < after.cells.len() && (#[trigger] after.cells[i]).coordinates == q;
            let from = if i < at {
                i
            } else {
                i + 1
            };
            assert(grid.cells[from].coordinates == q);
        }
        if grid.occupied(q) {
            let k = choose|k: int|
                0 <= k < grid.cells.len() && (#[trigger] grid.cells[k]).coordinates == q;
            let to = if k < at {
                k
            } else {
                k - 1
            };
            assert(after.cells[to].coordinates == q);
        }
    }
    assert forall|i: int, d: Direction|
        0 <= i < after.cells.len() && #[trigger] neighbor_of(after.cells[i].coordinates, d)
            == p implies !after.cells[i].neighbors.contains_key(d) by {
        let from = if i < at {
            i
        } else {
            i + 1
        };
        lemma_direction_between(grid.cells[from].coordinates, p, d);
    }
}

/// Whether two cells agree in id, coordinates and tags.
pub open spec fn same_entry(a: CellView, b: CellView) -> bool {
    &&& a.id == b.id
    &&& a.coordinates == b.coordinates
    &&& a.metadata.tags == b.metadata.tags
}

/// Whether an empty grid of the given dimensions takes every one of `cells`:
/// each lies within bounds, and no two share a coordinate.
pub open spec fn addable(dimensions: (nat, nat), cells: Seq<CellView>) -> bool {
    &&& forall|i: int|
        0 <= i < cells.len() ==> (GridView { cells: Seq::empty(), dimensions }).in_bounds(
            (#[trigger] cells[i]).coordinates,
        )
    &&& forall|i: int, j: int|
        0 <= i < cells.len() && 0 <= j < cells.len() && i != j ==> (
        #[trigger] cells[i]).coordinates != (#[trigger] cells[j]).coordinates
}

/// An empty grid that took a run of cells holds them in their order, each
/// with its id, coordinates, content and metadata, and is well formed.
pub proof fn lemma_after_adding(dimensions: (nat, nat), cells: Seq<CellView>)
    requires
        addable(dimensions, cells),
    ensures
        ({
            let grid = (GridView { cells: Seq::empty(), dimensions }).after_adding(cells);
            &&& grid.wf()
            &&& grid.dimensions == dimensions
            &&& grid.cells.len() == cells.len()
            &&& forall|i: int|
                0 <= i < cells.len() ==> (#[trigger] grid.cells[i]).id == cells[i].id
                    && grid.cells[i].coordinates == cells[i].coordinates && grid.cells[i].data
                    == cells[i].data && grid.cells[i].metadata == cells[i].metadata
        }),
    decreases cells.len(),
{
    let empty = GridView { cells: Seq::empty(), dimensions };
    if cells.len() > 0 {
        let front = cells.drop_last();
        let last = cells.last();
        let n = front.len() as int;
        assert forall|i: int| 0 <= i < n implies front[i] == cells[i] by {}
        assert(addable(dimensions, front)) by {
            assert forall|i: int| 0 <= i < front.len() implies empty.in_bounds(
                (#[trigger] front[i]).coordinates,
            ) by {
                assert(empty.in_bounds(cells[i].coordinates));
            }
            assert forall|i: int, j: int|
                0 <= i < front.len() && 0 <= j < front.len() && i != j implies (
            #[trigger] front[i]).coordinates != (#[trigger] front[j]).coordinates by {
                assert(cells[i].coordinates != cells[j].coordinates);
            }
        }
        lemma_after_adding(dimensions, front);
        let before = empty.after_adding(front);
        assert(empty.in_bounds(cells[n].coordinates));
        assert(before.in_bounds(last.coordinates));
        assert(!before.occupied(last.coordinates)) by {
            if before.occupied(last.coordinates) {
                let k = before.position(last.coordinates);
                assert(before.cells[k].coordinates == cells[k].coordinates);
                assert(cells[k].coordinates != cells[n].coordinates);
            }
        }
        lemma_with_cell(before, last);
        let grid = before.with_cell(last);
        assert(grid == empty.after_adding(cells));
        assert forall|i: int| 0 <= i < cells.len() implies (#[trigger] grid.cells[i]).id
            == cells[i].id && grid.cells[i].coordinates == cells[i].coordinates
            && grid.cells[i].data == cells[i].data && grid.cells[i].metadata
            == cells[i].metadata by {
            if i < n {
                assert(grid.cells[i] == linked_toward(before.cells[i], last.coordinates, last.id));
                assert(before.cells[i].id == front[i].id);
            } else {
                assert(grid.cells[i] == linked_into(last, before));
            }
        }
    }
}

/// An id is among the ids found by a tag exactly if a cell of the grid has
/// that id and carries the tag.
pub proof fn lemma_tagged_ids(grid: GridView, tag: Seq<char>, id: Seq<char>)
    ensures
        grid.tagged_ids(tag).contains(id) <==> exists|i: int|
            0 <= i < grid.cells.len() && (#[trigger] grid.cells[i]).id == id
                && grid.cells[i].metadata.tags.contains(tag),
{
    let found = grid.tagged(tag);
    let ids = found.map_values(|k: CellView| k.id);
    if grid.tagged_ids(tag).contains(id) {
        let at = choose|at: int| 0 <= at < ids.len() && ids[at] == id;
        assert(found[at].id == id);
        assert(found.contains(found[at]));
        lemma_tagged(grid, tag, found[at]);
        let i = choose|i: int| 0 <= i < grid.cells.len() && grid.cells[i] == found[at];
        assert(grid.cells[i].id == id && grid.cells[i].metadata.tags.contains(tag));
    }
    if exists|i: int|
        0 <= i < grid.cells.len() && (#[trigger] grid.cells[i]).id == id
            && grid.cells[i].metadata.tags.contains(tag) {
        let i = choose|i: int|
            0 <= i < grid.cells.len() && (#[trigger] grid.cells[i]).id == id
                && grid.cells[i].metadata.tags.contains(tag);
        assert(grid.cells.contains(grid.cells[i]));
        lemma_tagged(grid, tag, grid.cells[i]);
        let at = choose|at: int| 0 <= at < found.len() && found[at] == grid.cells[i];
        assert(ids[at] == id);
        assert(ids.contains(id));
    }
}

/// The cells found by a tag do not depend on the order in which the cells
/// were added: two empty grids of the same dimensions that took the same
/// cells, in whatever order, give the same ids for every tag.
pub proof fn lemma_found_in_any_order(
    dimensions: (nat, nat),
    first: Seq<CellView>,
    second: Seq<CellView>,
    tag: Seq<char>,
)
    requires
        addable(dimensions, first),
        addable(dimensions, second),
        forall|i: int|
            0 <= i < first.len() ==> exists|j: int|
                0 <= j < second.len() && same_entry(#[trigger] first[i], second[j]),
        forall|j: int|
            0 <= j < second.len() ==> exists|i: int|
                0 <= i < first.len() && same_entry(first[i], #[trigger] second[j]),
    ensures
        (GridView { cells: Seq::empty(), dimensions }).after_adding(first).tagged_ids(tag) == (
        GridView { cells: Seq::empty(), dimensions }).after_adding(second).tagged_ids(tag),
{
    let empty = GridView { cells: Seq::empty(), dimensions };
    let one = empty.after_adding(first);
    let two = empty.after_adding(second);
    lemma_after_adding(dimensions, first);
    lemma_after_adding(dimensions, second);
    assert forall|id: Seq<char>| one.tagged_ids(tag).contains(id) <==> two.tagged_ids(
        tag,
    ).contains(id) by {
        lemma_tagged_ids(one, tag, id);
        lemma_tagged_ids(two, tag, id);
        if one.tagged_ids(tag).contains(id) {
            let i = choose|i: int|
                0 <= i < one.cells.len() && (#[trigger] one.cells[i]).id == id
                    && one.cells[i].metadata.tags.contains(tag);
            let j = choose|j: int| 0 <= j < second.len() && same_entry(first[i], second[j]);
            assert(two.cells[j].id == id && two.cells[j].metadata.tags.contains(tag));
        }
        if two.tagged_ids(tag).contains(id) {
            let j = choose|j: int|
                0 <= j < two.cells.len() && (#[trigger] two.cells[j]).id == id
                    && two.cells[j].metadata.tags.contains(tag);
            let i = choose|i: int| 0 <= i < first.len() && same_entry(first[i], second[j]);
            assert(one.cells[i].id == id && one.cells[i].metadata.tags.contains(tag));
        }
    }
    assert(one.tagged_ids(tag) =~= two.tagged_ids(tag));
}

/// The views of a run of cells.
pub open spec fn cell_views(cells: Seq<Cell>) -> Seq<CellView> {
    cells.map_values(|c: Cell| c@)
}

/// The views of a run of borrowed cells.
pub open spec fn borrowed_views(cells: Seq<&Cell>) -> Seq<CellView> {
    cells.map_values(|c: &Cell| c@)
}

/// `linked_toward`, for the directions out of `p` that are numbered below `n`.
spec fn linked_toward_upto(cell: CellView, p: (int, int), id: Seq<char>, n: int) -> CellView {
    match direction_between(cell.coordinates, p) {
        Some(d) => if d.opposite().spec_index() < n {
            cell.linked(d, id)
        } else {
            cell
        },
        None => cell,
    }
}

/// `unlinked_from`, for the directions out of `p` that are numbered below `n`.
spec fn unlinked_from_upto(cell: CellView, p: (int, int), n: int) -> CellView {
    match direction_between(cell.coordinates, p) {
        Some(d) => if d.opposite().spec_index() < n {
            cell.unlinked(d)
        } else {
            cell
        },
        None => cell,
    }
}

/// `linked_into`, for the directions that are numbered below `n`.
spec fn linked_into_upto(cell: CellView, grid: GridView, n: int) -> CellView {
    CellView {
        neighbors: Map::new(
            |d: Direction|
                cell.neighbors.contains_key(d) || (d.spec_index() < n && grid.occupied(
                    neighbor_of(cell.coordinates, d),
                )),
            |d: Direction|
                if d.spec_index() < n {
                    match grid.cell_at(neighbor_of(cell.coordinates, d)) {
                        Some(there) => there.id,
                        None => cell.neighbors[d],
                    }
                } else {
                    cell.neighbors[d]
                },
        ),
        ..cell
    }
}

/// Before any direction was looked at nothing is linked, and after all six
/// everything is.
proof fn lemma_upto_ends(cell: CellView, grid: GridView, other: CellView)
    ensures
        linked_into_upto(cell, grid, 0) == cell,
        linked_into_upto(cell, grid, 6) == linked_into(cell, grid),
        linked_toward_upto(other, cell.coordinates, cell.id, 0) == other,
        linked_toward_upto(other, cell.coordinates, cell.id, 6) == linked_toward(
            other,
            cell.coordinates,
            cell.id,
        ),
        unlinked_from_upto(other, cell.coordinates, 0) == other,
        unlinked_from_upto(other, cell.coordinates, 6) == unlinked_from(other, cell.coordinates),
{
    assert(linked_into_upto(cell, grid, 0).neighbors =~= cell.neighbors);
    assert(linked_into_upto(cell, grid, 6).neighbors =~= linked_into(cell, grid).neighbors);
}

/// What looking at the direction numbered `n` changes while a cell is linked
/// into the grid: where a cell lies in that direction, the two are linked to
/// each other, and nothing else changes.
proof fn lemma_link_step(grid: GridView, cell: CellView, d: Direction, n: int)
    requires
        grid.wf(),
        !grid.occupied(cell.coordinates),
        d.spec_index() == n,
    ensures
        !grid.occupied(neighbor_of(cell.coordinates, d)) ==> linked_into_upto(cell, grid, n + 1)
            == linked_into_upto(cell, grid, n),
        grid.occupied(neighbor_of(cell.coordinates, d)) ==> linked_into_upto(cell, grid, n + 1)
            == linked_into_upto(cell, grid, n).linked(
            d,
            grid.cells[grid.position(neighbor_of(cell.coordinates, d))].id,
        ),
        forall|k: int|
            0 <= k < grid.cells.len() ==> #[trigger] linked_toward_upto(
                grid.cells[k],
                cell.coordinates,
                cell.id,
                n + 1,
            ) == if grid.cells[k].coordinates == neighbor_of(cell.coordinates, d) {
                linked_toward_upto(grid.cells[k], cell.coordinates, cell.id, n).linked(
                    d.opposite(),
                    cell.id,
                )
            } else {
                linked_toward_upto(grid.cells[k], cell.coordinates, cell.id, n)
            },
{
    let c = cell.coordinates;
    let nc = neighbor_of(c, d);
    if grid.occupied(nc) {
        let j = grid.position(nc);
        assert(linked_into_upto(cell, grid, n + 1).neighbors =~= linked_into_upto(
            cell,
            grid,
            n,
        ).linked(d, grid.cells[j].id).neighbors);
    } else {
        assert(linked_into_upto(cell, grid, n + 1).neighbors =~= linked_into_upto(
            cell,
            grid,
            n,
        ).neighbors);
    }
    assert forall|k: int| 0 <= k < grid.cells.len() implies #[trigger] linked_toward_upto(
        grid.cells[k],
        c,
        cell.id,
        n + 1,
    ) == if grid.cells[k].coordinates == nc {
        linked_toward_upto(grid.cells[k], c, cell.id, n).linked(d.opposite(), cell.id)
    } else {
        linked_toward_upto(grid.cells[k], c, cell.id, n)
    } by {
        lemma_direction_between(grid.cells[k].coordinates, c, d.opposite());
        lemma_neighbor_step_back(c, d);
        lemma_neighbor_step_back(grid.cells[k].coordinates, d.opposite());
    }
}

/// What looking at the direction numbered `n` changes while the links to a
/// removed cell are cleared: the cell in that direction, if there is one, is
/// no longer linked back, and nothing else changes.
proof fn lemma_unlink_step(cell: CellView, p: (int, int), d: Direction, n: int)
    requires
        d.spec_index() == n,
    ensures
        unlinked_from_upto(cell, p, n + 1) == if cell.coordinates == neighbor_of(p, d) {
            unlinked_from_upto(cell, p, n).unlinked(d.opposite())
        } else {
            unlinked_from_upto(cell, p, n)
        },
{
    lemma_direction_between(cell.coordinates, p, d.opposite());
    lemma_neighbor_step_back(p, d);
    lemma_neighbor_step_back(cell.coordinates, d.opposite());
}

/// A grid of cells within a fixed rectangle.
#[derive(Debug)]
pub struct CellGrid {
    /// The cells, in the order in which they were added.
    cells: Vec<Cell>,
    /// Width and height of the rectangle.
    dimensions: (usize, usize),
}

impl View for CellGrid {
    type V = GridView;

    closed spec fn view(&self) -> GridView {
        GridView {
            cells: cell_views(self.cells@),
            dimensions: (self.dimensions.0 as nat, self.dimensions.1 as nat),
        }
    }
}

/// Where among `cells` the cell at `coordinates` stands, if there is one.
fn find_at(cells: &Vec<Cell>, coordinates: (i32, i32)) -> (found: Option<usize>)
    ensures
        match found {
            Some(i) => i < cells@.len() && cells@[i as int].coordinates == coordinates,
            None => forall|k: int| 0 <= k < cells@.len() ==> cells@[k].coordinates != coordinates,
        },
{
    let mut i: usize = 0;
    while i < cells.len()
        invariant
            i <= cells@.len(),
            forall|k: int| 0 <= k < i ==> cells@[k].coordinates != coordinates,
        decreases cells@.len() - i,
    {
        if cells[i].coordinates.0 == coordinates.0 && cells[i].coordinates.1 == coordinates.1 {
            return Some(i);
        }
        i += 1;
    }
    None
}

impl CellGrid {
    /// An empty grid of the given width and height.
    pub fn new(dimensions: (usize, usize)) -> (grid: CellGrid)
        ensures
            grid@.wf(),
            grid@.cells.len() == 0,
            grid@.dimensions == (dimensions.0 as nat, dimensions.1 as nat),
    {
        CellGrid { cells: Vec::new(), dimensions }
    }

    /// Width and height of the grid.
    pub fn dimensions(&self) -> (dimensions: (usize, usize))
        ensures
            self@.dimensions == (dimensions.0 as nat, dimensions.1 as nat),
    {
        self.dimensions
    }

    /// Whether `coordinates` lie within the rectangle of the grid.
    pub fn contains(&self, coordinates: (i32, i32)) -> (inside: bool)
        ensures
            inside == self@.in_bounds(point(coordinates)),
    {
        coordinates.0 >= 0 && coordinates.1 >= 0 && (coordinates.0 as usize) < self.dimensions.0
            && (coordinates.1 as usize) < self.dimensions.1
    }

    /// Adds `cell` at its coordinates and links it with the cells that lie
    /// next to it, in both directions.
    ///
    /// Fails with `OutOfBoundsError` if the coordinates lie outside the grid,
    /// and with `CellAlreadyExists` if they lie inside and a cell is there
    /// already. A failed call leaves the grid as it was.
    pub fn add_cell(&mut self, cell: Cell) -> (outcome: Result<(), HiveError>)
        requires
            old(self)@.wf(),
        ensures
            final(self)@.wf(),
            final(self)@ == old(self)@.after_add(cell@),
            match outcome {
                Ok(()) => {
                    &&& old(self)@.in_bounds(cell@.coordinates)
                    &&& !old(self)@.occupied(cell@.coordinates)
                    &&& final(self)@ == old(self)@.with_cell(cell@)
                },
                Err(e) => {
                    &&& final(self)@ == old(self)@
                    &&& e is OutOfBoundsError || e is CellAlreadyExists
                    &&& e is OutOfBoundsError <==> !old(self)@.in_bounds(cell@.coordinates)
                    &&& e is CellAlreadyExists ==> old(self)@.occupied(cell@.coordinates)
                },
            },
    {
        if !self.contains(cell.coordinates) {
            return Err(HiveError::OutOfBoundsError);
        }
        match find_at(&self.cells, cell.coordinates) {
            Some(i) => {
                assert(self@.cells[i as int].coordinates == cell@.coordinates);
                return Err(HiveError::CellAlreadyExists);
            },
            None => {},
        }
        let ghost before: GridView = self@;
        let ghost added: CellView = cell@;
        assert(!before.occupied(added.coordinates)) by {
            if before.occupied(added.coordinates) {
                let i = before.position(added.coordinates);
                assert(self.cells@[i].coordinates == cell.coordinates);
            }
        }
        let index: usize = self.cells.len();
        self.cells.push(cell);
        assert(self@.cells =~= before.cells.push(added));
        self.update_neighbor_links(index, Ghost(before), Ghost(added));
        proof {
            lemma_with_cell(before, added);
        }
        Ok(())
    }

    /// Links the cell at position `index`, which was just added, with each
    /// cell that lies next to it: the new cell names the neighbour, and the
    /// neighbour names the new cell in the opposite direction.
    fn update_neighbor_links(
        &mut self,
        index: usize,
        Ghost(before): Ghost<GridView>,
        Ghost(added): Ghost<CellView>,
    )
        requires
            before.wf(),
            !before.occupied(added.coordinates),
            index == before.cells.len(),
            old(self)@.cells == before.cells.push(added),
            old(self)@.dimensions == before.dimensions,
        ensures
            final(self)@ == before.with_cell(added),
    {
        assert(self.cells@.len() == self@.cells.len());
        let coordinates: (i32, i32) = self.cells[index].coordinates;
        let directions: Vec<Direction> = Direction::all();
        let mut n: usize = 0;
        proof {
            assert forall|k: int| 0 <= k < before.cells.len() implies self.cells@[k]@
                == linked_toward_upto(before.cells[k], added.coordinates, added.id, 0) by {
                lemma_upto_ends(added, before, before.cells[k]);
                assert(self@.cells[k] == before.cells[k]);
            }
            lemma_upto_ends(added, before, added);
            assert(self@.cells[index as int] == added);
        }
        while n < directions.len()
            invariant
                n <= 6,
                directions@ == Direction::spec_all(),
                before.wf(),
                !before.occupied(added.coordinates),
                index == before.cells.len(),
                self.cells@.len() == before.cells.len() + 1,
                self@.dimensions == before.dimensions,
                point(coordinates) == added.coordinates,
                forall|k: int|
                    0 <= k < before.cells.len() ==> (#[trigger] self.cells@[k])@
                        == linked_toward_upto(
                        before.cells[k],
                        added.coordinates,
                        added.id,
                        n as int,
                    ),
                self.cells@[index as int]@ == linked_into_upto(added, before, n as int),
            decreases directions@.len() - n,
        {
            let direction: Direction = directions[n];
            let ghost target: (int, int) = neighbor_of(added.coordinates, direction);
            proof {
                lemma_link_step(before, added, direction, n as int);
                lemma_neighbors_differ(added.coordinates, direction, direction);
            }
            let found: Option<usize> = match neighbor(coordinates, direction) {
                Some(adjacent) => find_at(&self.cells, adjacent),
                None => None,
            };
            match found {
                Some(j) => {
                    assert(self.cells@[j as int]@.coordinates == target);
                    assert(j != index);
                    assert(before.cells[j as int].coordinates == target) by {
                        assert(self.cells@[j as int]@ == linked_toward_upto(
                            before.cells[j as int],
                            added.coordinates,
                            added.id,
                            n as int,
                        ));
                    }
                    proof {
                        lemma_position(before, j as int);
                    }
                    let cell_id: String = self.cells[index].id.clone();
                    let neighbor_id: String = self.cells[j].id.clone();
                    assert(neighbor_id@ == before.cells[j as int].id) by {
                        assert(self.cells@[j as int]@ == linked_toward_upto(
                            before.cells[j as int],
                            added.coordinates,
                            added.id,
                            n as int,
                        ));
                    }
                    self.cells[index].link_neighbor(direction, neighbor_id);
                    self.cells[j].link_neighbor(direction.opposite(), cell_id);
                    assert forall|k: int| 0 <= k < before.cells.len() implies (
                    #[trigger] self.cells@[k])@ == linked_toward_upto(
                        before.cells[k],
                        added.coordinates,
                        added.id,
                        n + 1,
                    ) by {
                        if k != j {
                            assert(before.cells[k].coordinates != before.cells[j as int].coordinates);
                        }
                    }
                },
                None => {
                    assert(!before.occupied(target)) by {
                        if before.occupied(target) {
                            let k = before.position(target);
                            assert(before.cells[k].coordinates == target);
                            assert(self.cells@[k]@ == linked_toward_upto(
                                before.cells[k],
                                added.coordinates,
                                added.id,
                                n as int,
                            ));
                            assert(point(self.cells@[k].coordinates) == self.cells@[k]@.coordinates);
                            assert(representable(target));
                        }
                    }
                    assert forall|k: int| 0 <= k < before.cells.len() implies (
                    #[trigger] self.cells@[k])@ == linked_toward_upto(
                        before.cells[k],
                        added.coordinates,
                        added.id,
                        n + 1,
                    ) by {
                        assert(before.occupied(before.cells[k].coordinates));
                    }
                },
            }
            n += 1;
        }
        proof {
            let after = before.with_cell(added);
            assert(self@.cells.len() == after.cells.len());
            assert forall|k: int| 0 <= k < after.cells.len() implies self@.cells[k]
                == after.cells[k] by {
                if k < before.cells.len() {
                    lemma_upto_ends(added, before, before.cells[k]);
                    assert(self.cells@[k]@ == linked_toward_upto(
                        before.cells[k],
                        added.coordinates,
                        added.id,
                        6,
                    ));
                } else {
                    lemma_upto_ends(added, before, added);
                }
            }
            assert(self@.cells =~= after.cells);
        }
    }

    /// The cell at `coordinates`, if there is one.
    pub fn get_cell(&self, coordinates: (i32, i32)) -> (found: Option<&Cell>)
        requires
            self@.wf(),
        ensures
            match found {
                Some(cell) => self@.cell_at(point(coordinates)) == Some(cell@),
                None => !self@.occupied(point(coordinates)),
            },
    {
        match find_at(&self.cells, coordinates) {
            Some(i) => {
                proof {
                    lemma_position(self@, i as int);
                }
                Some(&self.cells[i])
            },
            None => {
                assert(!self@.occupied(point(coordinates))) by {
                    if self@.occupied(point(coordinates)) {
                        let k = self@.position(point(coordinates));
                        assert(self.cells@[k].coordinates == coordinates);
                    }
                }
                None
            },
        }
    }

    /// The cell at `coordinates`, if there is one, to be changed in place.
    ///
    /// The grid stays well formed as long as coordinates, id and links of the
    /// cell are left as they are.
    pub fn get_cell_mut(&mut self, coordinates: (i32, i32)) -> (found: Option<&mut Cell>)
        requires
            old(self)@.wf(),
        ensures
            match found {
                Some(cell) => {
                    &&& old(self)@.cell_at(point(coordinates)) == Some(cell@)
                    &&& final(self)@ == old(self)@.with_cell_at(
                        point(coordinates),
                        final(cell)@,
                    )
                },
                None => !old(self)@.occupied(point(coordinates)) && final(self)@ == old(self)@,
            },
    {
        match find_at(&self.cells, coordinates) {
            Some(i) => {
                proof {
                    lemma_position(self@, i as int);
                }
                let cell: &mut Cell = &mut self.cells[i];
                proof {
                    assert(cell_views(old(self).cells@.update(i as int, *final(cell)))
                        =~= cell_views(old(self).cells@).update(i as int, final(cell)@));
                }
                Some(cell)
            },
            None => {
                assert(!self@.occupied(point(coordinates))) by {
                    if self@.occupied(point(coordinates)) {
                        let k = self@.position(point(coordinates));
                        assert(self.cells@[k].coordinates == coordinates);
                    }
                }
                None
            },
        }
    }

    /// Takes the cell at `coordinates` out of the grid and hands it to the
    /// caller, and clears, on each cell that lies next to it, the link that
    /// led to it.
    ///
    /// Fails with `CellNotFound`, and leaves the grid as it was, if no cell is
    /// there. The grid is the one owner of its cells, and a call can only be
    /// made while no cell is borrowed from the grid, so nothing else can hold
    /// the cell that is taken out.
    pub fn remove_cell(&mut self, coordinates: (i32, i32)) -> (outcome: Result<Cell, HiveError>)
        requires
            old(self)@.wf(),
        ensures
            final(self)@.wf(),
            match outcome {
                Ok(cell) => {
                    &&& old(self)@.cell_at(point(coordinates)) == Some(cell@)
                    &&& final(self)@ == old(self)@.without_cell(point(coordinates))
                },
                Err(e) => {
                    &&& e is CellNotFound
                    &&& !old(self)@.occupied(point(coordinates))
                    &&& final(self)@ == old(self)@
                },
            },
    {
        let at: usize = match find_at(&self.cells, coordinates) {
            Some(i) => i,
            None => {
                assert(!self@.occupied(point(coordinates))) by {
                    if self@.occupied(point(coordinates)) {
                        let k = self@.position(point(coordinates));
                        assert(self.cells@[k].coordinates == coordinates);
                    }
                }
                return Err(HiveError::CellNotFound);
            },
        };
        let ghost before: GridView = self@;
        let ghost p: (int, int) = point(coordinates);
        proof {
            lemma_position(before, at as int);
            lemma_without_cell(before, p);
        }
        let cell: Cell = self.cells.remove(at);
        let ghost rest: Seq<CellView> = before.cells.remove(at as int);
        assert(self@.cells =~= rest);
        assert forall|k: int| 0 <= k < rest.len() implies (#[trigger] rest[k]).coordinates
            != p by {
            let from = if k < at {
                k
            } else {
                k + 1
            };
            assert(rest[k] == before.cells[from]);
            assert(before.cells[from].coordinates != before.cells[at as int].coordinates);
        }
        assert forall|i: int, j: int| 0 <= i < rest.len() && 0 <= j < rest.len() && i != j implies (
        #[trigger] rest[i]).coordinates != (#[trigger] rest[j]).coordinates by {
            let fi = if i < at {
                i
            } else {
                i + 1
            };
            let fj = if j < at {
                j
            } else {
                j + 1
            };
            assert(before.cells[fi].coordinates != before.cells[fj].coordinates);
        }
        let directions: Vec<Direction> = Direction::all();
        let mut n: usize = 0;
        proof {
            assert forall|k: int| 0 <= k < rest.len() implies self.cells@[k]@
                == unlinked_from_upto(rest[k], p, 0) by {
                assert(self@.cells[k] == rest[k]);
            }
        }
        while n < directions.len()
            invariant
                n <= 6,
                directions@ == Direction::spec_all(),
                p == point(coordinates),
                self.cells@.len() == rest.len(),
                self@.dimensions == before.dimensions,
                forall|k: int| 0 <= k < rest.len() ==> (#[trigger] rest[k]).coordinates != p,
                forall|i: int, j: int|
                    0 <= i < rest.len() && 0 <= j < rest.len() && i != j ==> (
                    #[trigger] rest[i]).coordinates != (#[trigger] rest[j]).coordinates,
                forall|k: int|
                    0 <= k < rest.len() ==> (#[trigger] self.cells@[k])@ == unlinked_from_upto(
                        rest[k],
                        p,
                        n as int,
                    ),
            decreases directions@.len() - n,
        {
            let direction: Direction = directions[n];
            let ghost target: (int, int) = neighbor_of(p, direction);
            let found: Option<usize> = match neighbor(coordinates, direction) {
                Some(adjacent) => find_at(&self.cells, adjacent),
                None => None,
            };
            proof {
                assert forall|k: int| 0 <= k < rest.len() implies unlinked_from_upto(
                    #[trigger] rest[k],
                    p,
                    n + 1,
                ) == if rest[k].coordinates == target {
                    unlinked_from_upto(rest[k], p, n as int).unlinked(direction.opposite())
                } else {
                    unlinked_from_upto(rest[k], p, n as int)
                } by {
                    lemma_unlink_step(rest[k], p, direction, n as int);
                }
            }
            match found {
                Some(j) => {
                    assert(self.cells@[j as int]@.coordinates == target);
                    assert(rest[j as int].coordinates == target) by {
                        assert(self.cells@[j as int]@ == unlinked_from_upto(
                            rest[j as int],
                            p,
                            n as int,
                        ));
                    }
                    self.cells[j].unlink_neighbor(direction.opposite());
                    assert forall|k: int| 0 <= k < rest.len() implies (
                    #[trigger] self.cells@[k])@ == unlinked_from_upto(rest[k], p, n + 1) by {
                        if k != j {
                            assert(rest[k].coordinates != rest[j as int].coordinates);
                        }
                    }
                },
                None => {
                    assert forall|k: int| 0 <= k < rest.len() implies (
                    #[trigger] self.cells@[k])@ == unlinked_from_upto(rest[k], p, n + 1) by {
                        assert(self.cells@[k]@ == unlinked_from_upto(rest[k], p, n as int));
                        assert(point(self.cells@[k].coordinates) == self.cells@[k]@.coordinates);
                        if rest[k].coordinates == target {
                            assert(representable(target));
                        }
                    }
                },
            }
            n += 1;
        }
        proof {
            let after = before.without_cell(p);
            assert(self@.cells.len() == after.cells.len());
            assert forall|k: int| 0 <= k < after.cells.len() implies self@.cells[k]
                == after.cells[k] by {
                lemma_upto_ends(
                    CellView { coordinates: p, ..rest[k] },
                    before,
                    rest[k],
                );
                assert(self.cells@[k]@ == unlinked_from_upto(rest[k], p, 6));
            }
            assert(self@.cells =~= after.cells);
        }
        Ok(cell)
    }

    /// The number of cells in the grid.
    pub fn cell_count(&self) -> (count: usize)
        ensures
            count == self@.cells.len(),
    {
        self.cells.len()
    }

    /// All cells of the grid, in the order in which they were added.
    pub fn all_cells(&self) -> (cells: Vec<&Cell>)
        ensures
            borrowed_views(cells@) == self@.cells,
    {
        let mut cells: Vec<&Cell> = Vec::new();
        let mut i: usize = 0;
        while i < self.cells.len()
            invariant
                i <= self.cells@.len(),
                borrowed_views(cells@) == self@.cells.take(i as int),
            decreases self.cells@.len() - i,
        {
            let ghost earlier: Seq<&Cell> = cells@;
            cells.push(&self.cells[i]);
            assert(borrowed_views(cells@) =~= borrowed_views(earlier).push(self@.cells[i as int]));
            assert(self@.cells.take(i + 1) =~= self@.cells.take(i as int).push(
                self@.cells[i as int],
            ));
            i += 1;
        }
        assert(self@.cells.take(i as int) =~= self@.cells);
        cells
    }

    /// The cells that carry `tag`, in the order in which they were added:
    /// each cell whose tags hold `tag`, and no other.
    pub fn find_by_tag(&self, tag: &str) -> (cells: Vec<&Cell>)
        ensures
            borrowed_views(cells@) == self@.tagged(tag@),
    {
        let mut cells: Vec<&Cell> = Vec::new();
        let mut i: usize = 0;
        proof {
            reveal(Seq::filter);
            assert(self@.cells.take(0) =~= Seq::<CellView>::empty());
        }
        while i < self.cells.len()
            invariant
                i <= self.cells@.len(),
                borrowed_views(cells@) == self@.cells.take(i as int).filter(
                    |k: CellView| k.metadata.tags.contains(tag@),
                ),
            decreases self.cells@.len() - i,
        {
            proof {
                self@.cells.lemma_take_succ_push(i as int);
                self@.cells.take(i as int).lemma_filter_push(
                    self@.cells[i as int],
                    |k: CellView| k.metadata.tags.contains(tag@),
                );
            }
            if self.cells[i].has_tag(tag) {
                let ghost earlier: Seq<&Cell> = cells@;
                cells.push(&self.cells[i]);
                assert(borrowed_views(cells@) =~= borrowed_views(earlier).push(
                    self@.cells[i as int],
                ));
            }
            i += 1;
        }
        assert(self@.cells.take(i as int) =~= self@.cells);
        cells
    }
}

/// A cell is among the cells found by a tag exactly if it is in the grid and
/// carries the tag, whatever the order in which the cells were added.
pub proof fn lemma_tagged(grid: GridView, tag: Seq<char>, cell: CellView)
    ensures
        grid.tagged(tag).contains(cell) <==> grid.cells.contains(cell)
            && cell.metadata.tags.contains(tag),
{
    let carries = |k: CellView| k.metadata.tags.contains(tag);
    if grid.tagged(tag).contains(cell) {
        grid.cells.lemma_filter_contains_rev(carries, cell);
        let i = choose|i: int| 0 <= i < grid.tagged(tag).len() && grid.tagged(tag)[i] == cell;
        grid.cells.lemma_filter_pred(carries, i);
    }
    if grid.cells.contains(cell) && cell.metadata.tags.contains(tag) {
        let i = choose|i: int| 0 <= i < grid.cells.len() && grid.cells[i] == cell;
        grid.cells.lemma_filter_contains(carries, i);
    }
}

} // verus!
