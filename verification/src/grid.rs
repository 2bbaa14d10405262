//! Uniform grid binning of a cloud's points.

use vstd::prelude::*;

verus! {

/// A grid cell, named by its row (along y) and column (along x).
#[derive(Clone, Copy, Debug, PartialEq, Eq, Structural)]
pub struct GridCell {
    pub row: i64,
    pub col: i64,
}

/// The horizontal position of a point, in whole units (the floor of each
/// coordinate).
#[derive(Clone, Copy, Debug, PartialEq, Eq, Structural)]
pub struct PlanarPoint {
    pub x: i64,
    pub y: i64,
}

/// The cell that holds `p` when cells are `cell_size` wide: row
/// `floor(y / cell_size)`, column `floor(x / cell_size)`.
pub open spec fn spec_cell_of(p: PlanarPoint, cell_size: int) -> GridCell {
    GridCell { row: (p.y as int / cell_size) as i64, col: (p.x as int / cell_size) as i64 }
}

/// The floor of a 64-bit value over a positive divisor is a 64-bit value.
proof fn lemma_floor_in_range(x: int, d: int)
    requires
        0 < d,
        i64::MIN <= x <= i64::MAX,
    ensures
        i64::MIN <= x / d <= i64::MAX,
{
    vstd::arithmetic::div_mod::lemma_fundamental_div_mod(x, d);
    vstd::arithmetic::div_mod::lemma_mod_bound(x, d);
    assert(i64::MIN <= x / d <= i64::MAX) by (nonlinear_arith)
        requires
            d > 0,
            i64::MIN <= x <= i64::MAX,
            x == d * (x / d) + x % d,
            0 <= x % d && x % d < d,
    ;
}

/// The floor of `a / b`, for a positive divisor.
pub fn floor_div(a: i64, b: i64) -> (q: i64)
    requires
        b > 0,
    ensures
        q == a as int / b as int,
{
    proof {
        lemma_floor_in_range(a as int, b as int);
    }
    a.checked_div_euclid(b).unwrap()
}

/// The cell that holds `p` when cells are `cell_size` wide.
pub fn cell_of(p: &PlanarPoint, cell_size: i64) -> (cell: GridCell)
    requires
        cell_size > 0,
    ensures
        cell == spec_cell_of(*p, cell_size as int),
{
    GridCell { row: floor_div(p.y, cell_size), col: floor_div(p.x, cell_size) }
}

/// One occupied cell: its key and, as indices into the cloud's point list,
/// the points that lie in it.
pub struct Cell {
    pub key: GridCell,
    pub members: Vec<usize>,
}

impl Cell {
    /// `members` lists, in ascending order and without gaps, every index of
    /// `points` whose point lies in `key`.
    pub open spec fn gathers(&self, points: Seq<PlanarPoint>, cell_size: int) -> bool {
        &&& forall|a: int, b: int|
            0 <= a < b < self.members@.len() ==> self.members@[a] < self.members@[b]
        &&& forall|a: int|
            0 <= a < self.members@.len() ==> {
                &&& (#[trigger] self.members@[a]) < points.len()
                &&& spec_cell_of(points[self.members@[a] as int], cell_size) == self.key
            }
        &&& forall|i: int|
            0 <= i < points.len() && spec_cell_of(#[trigger] points[i], cell_size) == self.key
                ==> self.members@.contains(i as usize)
    }
}

/// Whether some cell of `cells` has key `key`.
pub open spec fn has_key(cells: Seq<Cell>, key: GridCell) -> bool {
    exists|j: int| 0 <= j < cells.len() && (#[trigger] cells[j]).key == key
}

/// `cells` is the partition of `points` into cells of width `cell_size`:
/// one entry per occupied cell, in the order in which the cells are first
/// met in `points`, each gathering exactly its points.
pub open spec fn is_partition(cells: Seq<Cell>, points: Seq<PlanarPoint>, cell_size: int) -> bool {
    &&& forall|j: int|
        0 <= j < cells.len() ==> {
            &&& (#[trigger] cells[j]).gathers(points, cell_size)
            &&& cells[j].members@.len() > 0
        }
    &&& forall|j: int, k: int|
        0 <= j < k < cells.len() ==> {
            &&& (#[trigger] cells[j]).key != (#[trigger] cells[k]).key
            &&& cells[j].members@[0] < cells[k].members@[0]
        }
    &&& forall|i: int|
        0 <= i < points.len() ==> has_key(cells, spec_cell_of(#[trigger] points[i], cell_size))
}

/// A cell that does not hold the next point gathers the longer list as it is.
proof fn lemma_cell_unchanged(cell: Cell, points: Seq<PlanarPoint>, i: int, cell_size: int)
    requires
        0 <= i < points.len(),
        cell.gathers(points.take(i), cell_size),
        spec_cell_of(points[i], cell_size) != cell.key,
    ensures
        cell.gathers(points.take(i + 1), cell_size),
{
    let seen = points.take(i);
    let now = points.take(i + 1);
    assert forall|a: int| 0 <= a < cell.members@.len() implies {
        &&& (#[trigger] cell.members@[a]) < now.len()
        &&& spec_cell_of(now[cell.members@[a] as int], cell_size) == cell.key
    } by {
        assert(seen[cell.members@[a] as int] == now[cell.members@[a] as int]);
    }
    assert forall|k: int|
        0 <= k < now.len() && spec_cell_of(#[trigger] now[k], cell_size)
            == cell.key implies cell.members@.contains(k as usize) by {
        assert(k < i);
        assert(seen[k] == now[k]);
    }
}

/// The cell that holds the next point gathers the longer list once the
/// point's index is appended to it.
proof fn lemma_cell_grown(
    cell: Cell,
    grown: Cell,
    points: Seq<PlanarPoint>,
    i: int,
    cell_size: int,
)
    requires
        0 <= i < points.len(),
        i <= usize::MAX,
        cell.gathers(points.take(i), cell_size),
        spec_cell_of(points[i], cell_size) == cell.key,
        grown.key == cell.key,
        grown.members@ == cell.members@.push(i as usize),
    ensures
        grown.gathers(points.take(i + 1), cell_size),
{
    let seen = points.take(i);
    let now = points.take(i + 1);
    assert forall|a: int| 0 <= a < grown.members@.len() implies {
        &&& (#[trigger] grown.members@[a]) < now.len()
        &&& spec_cell_of(now[grown.members@[a] as int], cell_size) == grown.key
    } by {
        if a < cell.members@.len() {
            assert(grown.members@[a] == cell.members@[a]);
            assert(seen[cell.members@[a] as int] == now[cell.members@[a] as int]);
        }
    }
    assert forall|a: int, b: int| 0 <= a < b < grown.members@.len() implies grown.members@[a]
        < grown.members@[b] by {
        assert(grown.members@[a] == cell.members@[a]);
        if b < cell.members@.len() {
            assert(grown.members@[b] == cell.members@[b]);
        }
    }
    assert forall|k: int|
        0 <= k < now.len() && spec_cell_of(#[trigger] now[k], cell_size)
            == grown.key implies grown.members@.contains(k as usize) by {
        if k < i {
            assert(seen[k] == now[k]);
            let a = choose|a: int|
                0 <= a < cell.members@.len() && cell.members@[a] == k as usize;
            assert(grown.members@[a] == k as usize);
        } else {
            assert(grown.members@[cell.members@.len() as int] == i as usize);
        }
    }
}

/// Appending the next point to the cell that holds it keeps the partition.
proof fn lemma_partition_grows(
    before: Seq<Cell>,
    after: Seq<Cell>,
    points: Seq<PlanarPoint>,
    i: int,
    j: int,
    cell_size: int,
)
    requires
        0 <= i < points.len(),
        i <= usize::MAX,
        is_partition(before, points.take(i), cell_size),
        0 <= j < before.len(),
        before[j].key == spec_cell_of(points[i], cell_size),
        after.len() == before.len(),
        after[j].key == before[j].key,
        after[j].members@ == before[j].members@.push(i as usize),
        forall|k: int| 0 <= k < before.len() && k != j ==> after[k] == before[k],
    ensures
        is_partition(after, points.take(i + 1), cell_size),
{
    let seen = points.take(i);
    let now = points.take(i + 1);
    assert forall|k: int| 0 <= k < after.len() implies {
        &&& (#[trigger] after[k]).gathers(now, cell_size)
        &&& after[k].members@.len() > 0
    } by {
        assert(before[k].gathers(seen, cell_size));
        if k == j {
            lemma_cell_grown(before[j], after[j], points, i, cell_size);
        } else {
            if k < j {
                assert(before[k].key != before[j].key);
            } else {
                assert(before[j].key != before[k].key);
            }
            lemma_cell_unchanged(before[k], points, i, cell_size);
        }
    }
    assert forall|k: int, l: int| 0 <= k < l < after.len() implies {
        &&& (#[trigger] after[k]).key != (#[trigger] after[l]).key
        &&& after[k].members@[0] < after[l].members@[0]
    } by {
        assert(before[k].key != before[l].key);
        assert(before[k].members@[0] < before[l].members@[0]);
        assert(before[k].gathers(seen, cell_size));
        assert(before[l].gathers(seen, cell_size));
        assert(after[k].members@[0] == before[k].members@[0]);
        assert(after[l].members@[0] == before[l].members@[0]);
    }
    assert forall|k: int| 0 <= k < now.len() implies has_key(
        after,
        spec_cell_of(#[trigger] now[k], cell_size),
    ) by {
        if k < i {
            assert(seen[k] == now[k]);
            assert(has_key(before, spec_cell_of(seen[k], cell_size)));
            let l = choose|l: int|
                0 <= l < before.len() && (#[trigger] before[l]).key == spec_cell_of(
                    seen[k],
                    cell_size,
                );
            assert(after[l].key == before[l].key);
        } else {
            assert(after[j].key == spec_cell_of(now[k], cell_size));
        }
    }
}

/// A point that lies in no cell met so far opens a new cell at the end.
proof fn lemma_partition_opens(
    before: Seq<Cell>,
    opened: Cell,
    points: Seq<PlanarPoint>,
    i: int,
    cell_size: int,
)
    requires
        0 <= i < points.len(),
        i <= usize::MAX,
        is_partition(before, points.take(i), cell_size),
        !has_key(before, spec_cell_of(points[i], cell_size)),
        opened.key == spec_cell_of(points[i], cell_size),
        opened.members@ == seq![i as usize],
    ensures
        is_partition(before.push(opened), points.take(i + 1), cell_size),
{
    let seen = points.take(i);
    let now = points.take(i + 1);
    let after = before.push(opened);
    assert(opened.gathers(now, cell_size)) by {
        assert forall|k: int|
            0 <= k < now.len() && spec_cell_of(#[trigger] now[k], cell_size)
                == opened.key implies opened.members@.contains(k as usize) by {
            if k < i {
                assert(seen[k] == now[k]);
                assert(has_key(before, spec_cell_of(seen[k], cell_size)));
            } else {
                assert(opened.members@[0] == i as usize);
            }
        }
    }
    assert forall|k: int| 0 <= k < after.len() implies {
        &&& (#[trigger] after[k]).gathers(now, cell_size)
        &&& after[k].members@.len() > 0
    } by {
        if k < before.len() {
            assert(before[k].gathers(seen, cell_size));
            lemma_cell_unchanged(before[k], points, i, cell_size);
        }
    }
    assert forall|k: int, l: int| 0 <= k < l < after.len() implies {
        &&& (#[trigger] after[k]).key != (#[trigger] after[l]).key
        &&& after[k].members@[0] < after[l].members@[0]
    } by {
        assert(before[k].gathers(seen, cell_size));
        if l < before.len() {
            assert(before[k].key != before[l].key);
        }
    }
    assert forall|k: int| 0 <= k < now.len() implies has_key(
        after,
        spec_cell_of(#[trigger] now[k], cell_size),
    ) by {
        if k < i {
            assert(seen[k] == now[k]);
            assert(has_key(before, spec_cell_of(seen[k], cell_size)));
            let l = choose|l: int|
                0 <= l < before.len() && (#[trigger] before[l]).key == spec_cell_of(
                    seen[k],
                    cell_size,
                );
            assert(after[l].key == before[l].key);
        } else {
            assert(after[before.len() as int].key == spec_cell_of(now[k], cell_size));
        }
    }
}

/// A cloud binned into cells of one size.
pub struct Grid {
    pub cell_size: i64,
    pub cells: Vec<Cell>,
}

/// Whether `j` is the first position in `cells` whose cell has key `key`.
pub open spec fn is_first_with_key(cells: Seq<Cell>, key: GridCell, j: int) -> bool {
    &&& 0 <= j < cells.len()
    &&& cells[j].key == key
    &&& forall|k: int| 0 <= k < j ==> (#[trigger] cells[k]).key != key
}

/// The first position in `cells` whose cell has key `key`.
pub open spec fn first_with_key(cells: Seq<Cell>, key: GridCell) -> Option<int> {
    if exists|j: int| is_first_with_key(cells, key, j) {
        Some(choose|j: int| is_first_with_key(cells, key, j))
    } else {
        None
    }
}

/// There is at most one first position, and there is one exactly when some
/// cell has the key.
pub proof fn lemma_first_with_key(cells: Seq<Cell>, key: GridCell)
    ensures
        match first_with_key(cells, key) {
            Some(j) => is_first_with_key(cells, key, j),
            None => !has_key(cells, key),
        },
        forall|j: int| is_first_with_key(cells, key, j) ==> first_with_key(cells, key) == Some(j),
{
    if exists|j: int| is_first_with_key(cells, key, j) {
        let first = choose|j: int| is_first_with_key(cells, key, j);
        assert forall|j: int| is_first_with_key(cells, key, j) implies j == first by {
            if j < first {
                assert(cells[j].key != key);
            } else if first < j {
                assert(cells[first].key != key);
            }
        }
    } else {
        if has_key(cells, key) {
            let j = choose|j: int| 0 <= j < cells.len() && (#[trigger] cells[j]).key == key;
            lemma_least_with_key(cells, key, j);
        }
    }
}

/// A cell with the key at position `j` gives a first one at or before `j`.
proof fn lemma_least_with_key(cells: Seq<Cell>, key: GridCell, j: int)
    requires
        0 <= j < cells.len(),
        cells[j].key == key,
    ensures
        exists|first: int| is_first_with_key(cells, key, first),
    decreases j,
{
    if forall|k: int| 0 <= k < j ==> (#[trigger] cells[k]).key != key {
        assert(is_first_with_key(cells, key, j));
    } else {
        let k = choose|k: int| 0 <= k < j && (#[trigger] cells[k]).key == key;
        lemma_least_with_key(cells, key, k);
    }
}

/// The position in `cells` of the first cell with key `key`, if there is one.
pub fn find_cell(cells: &Vec<Cell>, key: GridCell) -> (found: Option<usize>)
    ensures
        match found {
            Some(j) => first_with_key(cells@, key) == Some(j as int) && is_first_with_key(
                cells@,
                key,
                j as int,
            ),
            None => first_with_key(cells@, key) is None && !has_key(cells@, key),
        },
{
    proof {
        lemma_first_with_key(cells@, key);
    }
    let mut j: usize = 0;
    while j < cells.len()
        invariant
            j <= cells@.len(),
            forall|k: int| 0 <= k < j ==> (#[trigger] cells@[k]).key != key,
        decreases cells@.len() - j,
    {
        if cells[j].key == key {
            assert(is_first_with_key(cells@, key, j as int));
            return Some(j);
        }
        j += 1;
    }
    None
}

impl Grid {
    /// The grid is the partition of `points` into cells of its cell size.
    pub open spec fn partitions(&self, points: Seq<PlanarPoint>) -> bool {
        &&& self.cell_size > 0
        &&& is_partition(self.cells@, points, self.cell_size as int)
    }

    /// Bins `points` into cells of width `cell_size`.
    pub fn partition(points: &Vec<PlanarPoint>, cell_size: i64) -> (grid: Grid)
        requires
            cell_size > 0,
        ensures
            grid.cell_size == cell_size,
            grid.partitions(points@),
    {
        let mut cells: Vec<Cell> = Vec::new();
        let mut i: usize = 0;
        while i < points.len()
            invariant
                i <= points@.len(),
                cell_size > 0,
                is_partition(cells@, points@.take(i as int), cell_size as int),
            decreases points@.len() - i,
        {
            let key = cell_of(&points[i], cell_size);
            let ghost before = cells@;
            match find_cell(&cells, key) {
                Some(j) => {
                    cells[j].members.push(i);
                    proof {
                        lemma_partition_grows(
                            before,
                            cells@,
                            points@,
                            i as int,
                            j as int,
                            cell_size as int,
                        );
                    }
                },
                None => {
                    let mut members: Vec<usize> = Vec::new();
                    members.push(i);
                    let opened = Cell { key, members };
                    proof {
                        lemma_partition_opens(before, opened, points@, i as int, cell_size as int);
                    }
                    cells.push(opened);
                },
            }
            i += 1;
        }
        proof {
            assert(points@.take(points@.len() as int) == points@);
        }
        Grid { cell_size, cells }
    }
}

/// The keys of `cells`, in order.
pub open spec fn keys_of(cells: Seq<Cell>) -> Seq<GridCell> {
    cells.map_values(|cell: Cell| cell.key)
}

/// The key of the cell of width `factor * w` that contains the cell `key` of
/// width `w`.
pub open spec fn coarsened(key: GridCell, factor: int) -> GridCell {
    GridCell { row: (key.row as int / factor) as i64, col: (key.col as int / factor) as i64 }
}

/// Flooring by `c` and then by `d` is flooring by `c * d`, for every integer.
proof fn lemma_floor_div_twice(x: int, c: int, d: int)
    requires
        0 < c,
        0 < d,
    ensures
        0 < c * d,
        (x / c) / d == x / (c * d),
{
    let q1 = x / c;
    let r1 = x % c;
    let q2 = q1 / d;
    let r2 = q1 % d;
    vstd::arithmetic::div_mod::lemma_fundamental_div_mod(x, c);
    vstd::arithmetic::div_mod::lemma_mod_bound(x, c);
    vstd::arithmetic::div_mod::lemma_fundamental_div_mod(q1, d);
    vstd::arithmetic::div_mod::lemma_mod_bound(q1, d);
    assert(0 < c * d) by (nonlinear_arith)
        requires
            0 < c,
            0 < d,
    ;
    assert(x == q2 * (c * d) + (c * r2 + r1) && 0 <= c * r2 + r1 && c * r2 + r1 < c * d)
        by (nonlinear_arith)
        requires
            x == c * q1 + r1,
            q1 == d * q2 + r2,
            0 <= r1 && r1 < c,
            0 <= r2 && r2 < d,
    ;
    vstd::arithmetic::div_mod::lemma_fundamental_div_mod_converse(
        x,
        c * d,
        q2,
        c * r2 + r1,
    );
}

/// The cell of a point in the coarser grid is the coarsened cell of the
/// point in the finer grid.
proof fn lemma_cell_coarsens(p: PlanarPoint, fine: int, factor: int)
    requires
        0 < fine,
        0 < factor,
    ensures
        spec_cell_of(p, fine * factor) == coarsened(spec_cell_of(p, fine), factor),
{
    lemma_floor_div_twice(p.x as int, fine, factor);
    lemma_floor_div_twice(p.y as int, fine, factor);
    lemma_floor_in_range(p.x as int, fine);
    lemma_floor_in_range(p.y as int, fine);
}

/// Each point of a partitioned cloud lies in exactly one cell, the one whose
/// key is the point's cell.
pub proof fn law_point_in_one_cell(grid: Grid, points: Seq<PlanarPoint>, i: int)
    requires
        grid.partitions(points),
        0 <= i < points.len(),
    ensures
        exists|j: int|
            0 <= j < grid.cells@.len() && (#[trigger] grid.cells@[j]).members@.contains(
                i as usize,
            ),
        forall|j: int|
            0 <= j < grid.cells@.len() && (#[trigger] grid.cells@[j]).members@.contains(
                i as usize,
            ) ==> grid.cells@[j].key == spec_cell_of(points[i], grid.cell_size as int),
        forall|j: int, k: int|
            0 <= j < grid.cells@.len() && 0 <= k < grid.cells@.len() && (
            #[trigger] grid.cells@[j]).members@.contains(i as usize) && (
            #[trigger] grid.cells@[k]).members@.contains(i as usize) ==> j == k,
{
    let cells = grid.cells@;
    let size = grid.cell_size as int;
    let key = spec_cell_of(points[i], size);
    assert(has_key(cells, key));
    let home = choose|j: int| 0 <= j < cells.len() && (#[trigger] cells[j]).key == key;
    assert(cells[home].gathers(points, size));
    assert(cells[home].members@.contains(i as usize));
    assert forall|j: int|
        0 <= j < cells.len() && (#[trigger] cells[j]).members@.contains(
            i as usize,
        ) implies cells[j].key == key by {
        assert(cells[j].gathers(points, size));
        let a = choose|a: int| 0 <= a < cells[j].members@.len() && cells[j].members@[a] == i as usize;
        assert(spec_cell_of(points[cells[j].members@[a] as int], size) == cells[j].key);
    }
    assert forall|j: int, k: int|
        0 <= j < cells.len() && 0 <= k < cells.len() && (#[trigger] cells[j]).members@.contains(
            i as usize,
        ) && (#[trigger] cells[k]).members@.contains(i as usize) implies j == k by {
        if j < k {
            assert(cells[j].key != cells[k].key);
        } else if k < j {
            assert(cells[k].key != cells[j].key);
        }
    }
}

/// Points at one horizontal position are assigned to the same cell.
pub proof fn law_same_position_same_cell(grid: Grid, points: Seq<PlanarPoint>, a: int, b: int)
    requires
        grid.partitions(points),
        0 <= a < points.len(),
        0 <= b < points.len(),
        points[a].x == points[b].x,
        points[a].y == points[b].y,
    ensures
        forall|j: int|
            0 <= j < grid.cells@.len() ==> ((#[trigger] grid.cells@[j]).members@.contains(
                a as usize,
            ) <==> grid.cells@[j].members@.contains(b as usize)),
{
    let cells = grid.cells@;
    let size = grid.cell_size as int;
    law_point_in_one_cell(grid, points, a);
    law_point_in_one_cell(grid, points, b);
    assert(spec_cell_of(points[a], size) == spec_cell_of(points[b], size));
    assert forall|j: int| 0 <= j < cells.len() implies ((#[trigger] cells[j]).members@.contains(
        a as usize,
    ) <==> cells[j].members@.contains(b as usize)) by {
        assert(cells[j].gathers(points, size));
    }
}

/// Two ascending lists with the same elements are the same list.
proof fn lemma_ascending_lists_agree(s: Seq<usize>, t: Seq<usize>)
    requires
        forall|a: int, b: int| 0 <= a < b < s.len() ==> s[a] < s[b],
        forall|a: int, b: int| 0 <= a < b < t.len() ==> t[a] < t[b],
        forall|x: usize| s.contains(x) <==> t.contains(x),
    ensures
        s == t,
    decreases s.len(),
{
    if s.len() == 0 {
        if t.len() > 0 {
            assert(t.contains(t[0]));
        }
    } else {
        let top = s.last();
        assert(s.contains(top));
        let at = choose|a: int| 0 <= a < t.len() && t[a] == top;
        if at < t.len() - 1 {
            assert(t.contains(t.last()));
            let back = choose|a: int| 0 <= a < s.len() && s[a] == t.last();
            assert(s[back] <= top);
        }
        let s_rest = s.drop_last();
        let t_rest = t.drop_last();
        assert forall|x: usize| s_rest.contains(x) <==> t_rest.contains(x) by {
            if s_rest.contains(x) {
                let a = choose|a: int| 0 <= a < s_rest.len() && s_rest[a] == x;
                assert(s[a] == x && s[a] < top);
                assert(s.contains(x));
                let b = choose|b: int| 0 <= b < t.len() && t[b] == x;
                assert(t_rest[b] == x);
            }
            if t_rest.contains(x) {
                let b = choose|b: int| 0 <= b < t_rest.len() && t_rest[b] == x;
                assert(t[b] == x && t[b] < top);
                assert(t.contains(x));
                let a = choose|a: int| 0 <= a < s.len() && s[a] == x;
                assert(s_rest[a] == x);
            }
        }
        lemma_ascending_lists_agree(s_rest, t_rest);
        assert(s == s_rest.push(top));
        assert(t == t_rest.push(top));
    }
}

/// Two cells that gather the same points under one key hold the same
/// members.
proof fn lemma_members_by_key(a: Cell, b: Cell, points: Seq<PlanarPoint>, cell_size: int)
    requires
        a.gathers(points, cell_size),
        b.gathers(points, cell_size),
        a.key == b.key,
    ensures
        a.members@ == b.members@,
{
    assert forall|x: usize| a.members@.contains(x) <==> b.members@.contains(x) by {
        if a.members@.contains(x) {
            let i = choose|i: int| 0 <= i < a.members@.len() && a.members@[i] == x;
            assert(spec_cell_of(points[a.members@[i] as int], cell_size) == b.key);
        }
        if b.members@.contains(x) {
            let i = choose|i: int| 0 <= i < b.members@.len() && b.members@[i] == x;
            assert(spec_cell_of(points[b.members@[i] as int], cell_size) == a.key);
        }
    }
    lemma_ascending_lists_agree(a.members@, b.members@);
}

/// The position in partition `b` of the key at position `j` of partition
/// `a`.
proof fn lemma_key_is_shared(
    a: Seq<Cell>,
    b: Seq<Cell>,
    points: Seq<PlanarPoint>,
    cell_size: int,
    j: int,
) -> (k: int)
    requires
        is_partition(a, points, cell_size),
        is_partition(b, points, cell_size),
        0 <= j < a.len(),
    ensures
        0 <= k < b.len(),
        b[k].key == a[j].key,
        b[k].members@ == a[j].members@,
{
    assert(a[j].gathers(points, cell_size));
    let first = a[j].members@[0] as int;
    assert(has_key(b, spec_cell_of(points[first], cell_size)));
    let k = choose|k: int| 0 <= k < b.len() && (#[trigger] b[k]).key == a[j].key;
    assert(b[k].gathers(points, cell_size));
    lemma_members_by_key(a[j], b[k], points, cell_size);
    k
}

/// Two partitions of one cloud agree up to position `n`, where both reach
/// that far.
proof fn lemma_partitions_agree(
    a: Seq<Cell>,
    b: Seq<Cell>,
    points: Seq<PlanarPoint>,
    cell_size: int,
    n: int,
)
    requires
        is_partition(a, points, cell_size),
        is_partition(b, points, cell_size),
        0 <= n <= a.len(),
        n <= b.len(),
    ensures
        forall|j: int|
            0 <= j < n ==> (#[trigger] a[j]).key == b[j].key && a[j].members@ == b[j].members@,
    decreases n,
{
    if n > 0 {
        lemma_partitions_agree(a, b, points, cell_size, n - 1);
        let j = n - 1;
        let k = lemma_key_is_shared(a, b, points, cell_size, j);
        let l = lemma_key_is_shared(b, a, points, cell_size, j);
        if k < j {
            assert(a[k].key == b[k].key);
            assert(a[k].key != a[j].key);
        } else if k > j {
            assert(b[j].members@[0] < b[k].members@[0]);
            if l < j {
                assert(a[l].key == b[l].key);
                assert(b[l].key != b[j].key);
            } else if l > j {
                assert(a[j].members@[0] < a[l].members@[0]);
            } else {
                assert(b[j].key != b[k].key);
            }
        }
    }
}

/// A cloud has one partition for a cell size: any two agree cell by cell, in
/// keys and in members.
pub proof fn law_partition_is_unique(a: Grid, b: Grid, points: Seq<PlanarPoint>)
    requires
        a.partitions(points),
        b.partitions(points),
        a.cell_size == b.cell_size,
    ensures
        a.cells@.len() == b.cells@.len(),
        forall|j: int|
            0 <= j < a.cells@.len() ==> {
                &&& (#[trigger] a.cells@[j]).key == b.cells@[j].key
                &&& a.cells@[j].members@ == b.cells@[j].members@
            },
{
    let size = a.cell_size as int;
    let (x, y) = (a.cells@, b.cells@);
    let n = if x.len() <= y.len() {
        x.len() as int
    } else {
        y.len() as int
    };
    lemma_partitions_agree(x, y, points, size, n);
    if x.len() < y.len() {
        let k = lemma_key_is_shared(y, x, points, size, n);
        assert(x[k].key == y[k].key);
        assert(y[k].key != y[n].key);
    } else if y.len() < x.len() {
        let k = lemma_key_is_shared(x, y, points, size, n);
        assert(x[k].key == y[k].key);
        assert(x[k].key != x[n].key);
    }
}

/// The keys of a partition are pairwise distinct, and as a set they are the
/// cells that hold a point.
proof fn lemma_keys_of_partition(cells: Seq<Cell>, points: Seq<PlanarPoint>, cell_size: int)
    requires
        is_partition(cells, points, cell_size),
    ensures
        keys_of(cells).no_duplicates(),
        keys_of(cells).to_set().finite(),
        keys_of(cells).to_set().len() == cells.len(),
        forall|key: GridCell|
            keys_of(cells).to_set().contains(key) <==> exists|i: int|
                0 <= i < points.len() && spec_cell_of(#[trigger] points[i], cell_size) == key,
{
    let keys = keys_of(cells);
    assert forall|j: int, k: int| 0 <= j < keys.len() && 0 <= k < keys.len() && j != k implies keys[j]
        != keys[k] by {
        if j < k {
            assert(cells[j].key != cells[k].key);
        } else {
            assert(cells[k].key != cells[j].key);
        }
    }
    keys.unique_seq_to_set();
    assert forall|key: GridCell| keys.to_set().contains(key) <==> exists|i: int|
        0 <= i < points.len() && spec_cell_of(#[trigger] points[i], cell_size) == key by {
        if keys.to_set().contains(key) {
            let j = choose|j: int| 0 <= j < keys.len() && keys[j] == key;
            assert(cells[j].gathers(points, cell_size));
            let first = cells[j].members@[0] as int;
            assert(spec_cell_of(points[first], cell_size) == key);
        }
        if exists|i: int|
            0 <= i < points.len() && spec_cell_of(#[trigger] points[i], cell_size) == key {
            let i = choose|i: int|
                0 <= i < points.len() && spec_cell_of(#[trigger] points[i], cell_size) == key;
            assert(has_key(cells, spec_cell_of(points[i], cell_size)));
            let j = choose|j: int| 0 <= j < cells.len() && (#[trigger] cells[j]).key == key;
            assert(keys[j] == key);
        }
    }
}

/// Whether the cells of width `fine` refine those of width `coarse` on
/// `points`: two points that share a cell of the first width share one of
/// the second.
pub open spec fn refines(points: Seq<PlanarPoint>, fine: int, coarse: int) -> bool {
    forall|i: int, j: int|
        0 <= i < points.len() && 0 <= j < points.len() && spec_cell_of(#[trigger] points[i], fine)
            == spec_cell_of(#[trigger] points[j], fine) ==> spec_cell_of(points[i], coarse)
            == spec_cell_of(points[j], coarse)
}

/// A cell width refines each of its multiples, on every cloud.
pub proof fn law_divisor_refines(points: Seq<PlanarPoint>, fine: int, coarse: int)
    requires
        fine > 0,
        coarse > 0,
        coarse % fine == 0,
    ensures
        refines(points, fine, coarse),
{
    let factor = coarse / fine;
    vstd::arithmetic::div_mod::lemma_fundamental_div_mod(coarse, fine);
    assert(factor > 0 && fine * factor == coarse) by (nonlinear_arith)
        requires
            coarse == fine * factor + 0,
            coarse > 0,
            fine > 0,
    ;
    assert forall|i: int, j: int|
        0 <= i < points.len() && 0 <= j < points.len() && spec_cell_of(#[trigger] points[i], fine)
            == spec_cell_of(#[trigger] points[j], fine) implies spec_cell_of(points[i], coarse)
        == spec_cell_of(points[j], coarse) by {
        lemma_cell_coarsens(points[i], fine, factor);
        lemma_cell_coarsens(points[j], fine, factor);
    }
}

/// Binning a cloud into cells that refine those of another binning yields
/// at least as many occupied cells: where the smaller cells never straddle
/// a border of the larger ones, shrinking the cells merges none of them.
pub proof fn law_finer_cells_are_no_fewer(fine: Grid, coarse: Grid, points: Seq<PlanarPoint>)
    requires
        fine.partitions(points),
        coarse.partitions(points),
        refines(points, fine.cell_size as int, coarse.cell_size as int),
    ensures
        fine.cells@.len() >= coarse.cells@.len(),
{
    let small = fine.cell_size as int;
    let large = coarse.cell_size as int;
    lemma_keys_of_partition(fine.cells@, points, small);
    lemma_keys_of_partition(coarse.cells@, points, large);
    let fine_keys = keys_of(fine.cells@).to_set();
    let coarse_keys = keys_of(coarse.cells@).to_set();
    // The large cell around a small one: that of any point in the small one.
    let merge = |key: GridCell|
        spec_cell_of(
            points[choose|i: int|
                0 <= i < points.len() && spec_cell_of(#[trigger] points[i], small) == key],
            large,
        );
    assert forall|i: int| 0 <= i < points.len() implies merge(
        spec_cell_of(#[trigger] points[i], small),
    ) == spec_cell_of(points[i], large) by {
        let key = spec_cell_of(points[i], small);
        let j = choose|j: int|
            0 <= j < points.len() && spec_cell_of(#[trigger] points[j], small) == key;
        assert(spec_cell_of(points[j], small) == spec_cell_of(points[i], small));
    }
    assert(fine_keys.map(merge) =~= coarse_keys) by {
        assert forall|key: GridCell| fine_keys.map(merge).contains(key) implies coarse_keys.contains(
            key,
        ) by {
            let inner = choose|inner: GridCell| fine_keys.contains(inner) && key == merge(inner);
            let i = choose|i: int|
                0 <= i < points.len() && spec_cell_of(#[trigger] points[i], small) == inner;
            assert(merge(spec_cell_of(points[i], small)) == spec_cell_of(points[i], large));
        }
        assert forall|key: GridCell| coarse_keys.contains(key) implies fine_keys.map(merge).contains(
            key,
        ) by {
            let i = choose|i: int|
                0 <= i < points.len() && spec_cell_of(#[trigger] points[i], large) == key;
            assert(merge(spec_cell_of(points[i], small)) == spec_cell_of(points[i], large));
            assert(fine_keys.contains(spec_cell_of(points[i], small)));
        }
    }
    vstd::set_lib::lemma_map_size_bound(fine_keys, coarse_keys, merge);
}

/// Binning one cloud with a cell width that divides another yields at least
/// as many occupied cells as binning it with the other.
pub proof fn law_dividing_cell_size_gives_no_fewer(
    fine: Grid,
    coarse: Grid,
    points: Seq<PlanarPoint>,
)
    requires
        fine.partitions(points),
        coarse.partitions(points),
        coarse.cell_size % fine.cell_size == 0,
    ensures
        fine.cells@.len() >= coarse.cells@.len(),
{
    law_divisor_refines(points, fine.cell_size as int, coarse.cell_size as int);
    law_finer_cells_are_no_fewer(fine, coarse, points);
}

} // verus!
