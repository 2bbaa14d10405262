use ape::grid::{cell_of, find_cell, floor_div, Cell, Grid, GridCell, PlanarPoint};

fn point(x: i64, y: i64) -> PlanarPoint {
    PlanarPoint { x, y }
}

fn keys(grid: &Grid) -> Vec<GridCell> {
    grid.cells.iter().map(|cell| cell.key).collect()
}

#[test]
fn floor_div_rounds_towards_minus_infinity() {
    assert_eq!(floor_div(0, 100), 0);
    assert_eq!(floor_div(99, 100), 0);
    assert_eq!(floor_div(100, 100), 1);
    assert_eq!(floor_div(-1, 100), -1);
    assert_eq!(floor_div(-100, 100), -1);
    assert_eq!(floor_div(-101, 100), -2);
    assert_eq!(floor_div(7, 1), 7);
    assert_eq!(floor_div(i64::MIN, 1), i64::MIN);
    assert_eq!(floor_div(i64::MAX, 1), i64::MAX);
    assert_eq!(floor_div(i64::MIN, i64::MAX), -2);
    assert_eq!(floor_div(i64::MIN, 2), i64::MIN / 2);
}

#[test]
fn cell_of_is_row_by_y_and_column_by_x() {
    assert_eq!(cell_of(&point(250, 1999), 100), GridCell { row: 19, col: 2 });
    assert_eq!(cell_of(&point(0, 0), 100), GridCell { row: 0, col: 0 });
    assert_eq!(cell_of(&point(-1, -1), 100), GridCell { row: -1, col: -1 });
    assert_eq!(cell_of(&point(-250, 100), 100), GridCell { row: 1, col: -3 });
    assert_eq!(cell_of(&point(5, -7), 1), GridCell { row: -7, col: 5 });
}

#[test]
fn partition_lists_cells_as_first_met_and_members_ascending() {
    let points = vec![
        point(150, 5),
        point(5, 5),
        point(199, 99),
        point(-1, 0),
        point(0, 0),
        point(100, 0),
    ];
    let grid = Grid::partition(&points, 100);
    assert_eq!(grid.cell_size, 100);
    assert_eq!(
        keys(&grid),
        vec![
            GridCell { row: 0, col: 1 },
            GridCell { row: 0, col: 0 },
            GridCell { row: 0, col: -1 }
        ]
    );
    assert_eq!(grid.cells[0].members, vec![0, 2, 5]);
    assert_eq!(grid.cells[1].members, vec![1, 4]);
    assert_eq!(grid.cells[2].members, vec![3]);
}

#[test]
fn partition_of_no_points_has_no_cells() {
    let grid = Grid::partition(&Vec::new(), 100);
    assert!(grid.cells.is_empty());
}

#[test]
fn every_point_lies_in_exactly_one_cell() {
    let points: Vec<PlanarPoint> =
        (0..500).map(|i| point((i * 37) % 1000 - 500, (i * 91) % 700 - 350)).collect();
    let grid = Grid::partition(&points, 100);
    let mut seen = vec![0usize; points.len()];
    for cell in &grid.cells {
        assert!(!cell.members.is_empty());
        for &member in &cell.members {
            assert_eq!(cell_of(&points[member], 100), cell.key);
            seen[member] += 1;
        }
    }
    assert!(seen.iter().all(|&count| count == 1));
}

#[test]
fn points_at_one_position_share_a_cell() {
    let points = vec![point(420, 77), point(-3, 12), point(420, 77), point(421, 77), point(420, 77)];
    let grid = Grid::partition(&points, 10);
    let home = grid.cells.iter().find(|cell| cell.members.contains(&0)).unwrap();
    assert!(home.members.contains(&2));
    assert!(home.members.contains(&4));
    assert_eq!(home.members, vec![0, 2, 3, 4]);
}

#[test]
fn a_cell_size_that_divides_another_gives_no_fewer_cells() {
    let points: Vec<PlanarPoint> =
        (0..400).map(|i| point((i * 53) % 900 - 450, (i * 29) % 900 - 450)).collect();
    let coarse = Grid::partition(&points, 300).cells.len();
    let middle = Grid::partition(&points, 100).cells.len();
    let fine = Grid::partition(&points, 25).cells.len();
    let finest = Grid::partition(&points, 1).cells.len();
    assert!(coarse <= middle);
    assert!(middle <= fine);
    assert!(fine <= finest);
    // Coordinates from -450 to 449 touch the columns and rows -2, -1, 0 and 1.
    assert_eq!(coarse, 16);
}

#[test]
fn a_smaller_cell_size_that_does_not_divide_may_merge_cells() {
    let points = vec![point(3, 0), point(5, 0)];
    assert_eq!(Grid::partition(&points, 4).cells.len(), 2);
    assert_eq!(Grid::partition(&points, 3).cells.len(), 1);
}

#[test]
fn find_cell_gives_the_first_position_of_a_key() {
    let cells = vec![
        Cell { key: GridCell { row: 0, col: 0 }, members: vec![0] },
        Cell { key: GridCell { row: 1, col: 0 }, members: vec![1] },
        Cell { key: GridCell { row: 1, col: 0 }, members: vec![2] },
    ];
    assert_eq!(find_cell(&cells, GridCell { row: 0, col: 0 }), Some(0));
    assert_eq!(find_cell(&cells, GridCell { row: 1, col: 0 }), Some(1));
    assert_eq!(find_cell(&cells, GridCell { row: 0, col: 1 }), None);
    assert_eq!(find_cell(&Vec::new(), GridCell { row: 0, col: 0 }), None);
}

#[test]
fn cells_of_fractional_coordinates_follow_the_floor() {
    // The whole-unit position of a point is the floor of its coordinates,
    // so that its cell is (floor(y / size), floor(x / size)).
    let whole = |x: f64, y: f64| point(x.floor() as i64, y.floor() as i64);
    assert_eq!(cell_of(&whole(250.7, 99.999), 100), GridCell { row: 0, col: 2 });
    assert_eq!(cell_of(&whole(-0.5, -0.001), 100), GridCell { row: -1, col: -1 });
    assert_eq!(cell_of(&whole(-100.0, 100.0), 100), GridCell { row: 1, col: -1 });
    assert_eq!(cell_of(&whole(-100.25, 199.5), 100), GridCell { row: 1, col: -2 });
}
