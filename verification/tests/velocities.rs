use ape::aggregate::Skipped;
use ape::grid::{Grid, GridCell, PlanarPoint};
use ape::registration::{
    Normalize, RegistrationConfig, RegistrationFailed, RegistrationOutcome, Skip,
};
use ape::velocities::{
    candidates, cell_status, plan, velocities, Candidate, CellStatus, GridConfig,
};

/// `count` points spread over the cell of width 100 whose corner is at
/// `(column * 100, row * 100)`.
fn fill(points: &mut Vec<PlanarPoint>, row: i64, column: i64, count: i64) {
    for i in 0..count {
        points.push(PlanarPoint { x: column * 100 + i % 100, y: row * 100 + (i / 100) % 100 });
    }
}

#[test]
fn default_grid_config_is_the_policy() {
    let config = GridConfig::default();
    assert_eq!(config.cell_size, 100);
    assert_eq!(config.min_patch_points, 1000);
    assert_eq!(config.max_iterations, None);
    assert!(config.is_valid());
    assert!(!GridConfig { cell_size: 0, ..config }.is_valid());
    assert!(!GridConfig { cell_size: -100, ..config }.is_valid());
}

#[test]
fn grid_config_registers_under_the_policy() {
    let config = GridConfig { max_iterations: Some(150), ..GridConfig::default() };
    assert_eq!(
        config.registration(),
        RegistrationConfig {
            normalize: Normalize::SameScale,
            scale: false,
            allow_reflections: false,
            max_iterations: Some(150),
        }
    );
}

#[test]
fn two_full_cells_in_both_clouds_are_both_candidates() {
    let mut fixed = Vec::new();
    fill(&mut fixed, 0, 0, 1000);
    fill(&mut fixed, 0, 1, 1200);
    // The moving cloud is the fixed one shifted by five units along x, cut
    // to the same two cells.
    let moving: Vec<PlanarPoint> = fixed
        .iter()
        .map(|p| PlanarPoint { x: if p.x % 100 < 95 { p.x + 5 } else { p.x - 95 }, y: p.y })
        .collect();
    let plan = plan(&fixed, &moving, &GridConfig::default());
    assert_eq!(plan.fixed.cells.len(), 2);
    assert_eq!(plan.moving.cells.len(), 2);
    assert_eq!(plan.candidates.len(), 2);
    for candidate in &plan.candidates {
        let fixed_cell = &plan.fixed.cells[candidate.fixed];
        let moving_cell = &plan.moving.cells[candidate.moving];
        assert_eq!(fixed_cell.key, moving_cell.key);
        assert!(fixed_cell.members.len() >= 1000);
        assert!(moving_cell.members.len() >= 1000);
    }
    assert_eq!(plan.fixed.cells[plan.candidates[0].fixed].key, GridCell { row: 0, col: 0 });
    assert_eq!(plan.fixed.cells[plan.candidates[1].fixed].key, GridCell { row: 0, col: 1 });
}

#[test]
fn a_cell_below_the_floor_in_either_cloud_is_no_candidate() {
    let mut fixed = Vec::new();
    fill(&mut fixed, 0, 0, 1000);
    fill(&mut fixed, 3, 3, 999);
    fill(&mut fixed, 5, 5, 1000);
    fill(&mut fixed, 7, 7, 1000);
    let mut moving = Vec::new();
    fill(&mut moving, 5, 5, 999);
    fill(&mut moving, 3, 3, 1000);
    fill(&mut moving, 0, 0, 1000);
    fill(&mut moving, 9, 9, 5000);
    let config = GridConfig::default();
    let plan = plan(&fixed, &moving, &config);
    assert_eq!(plan.candidates, vec![Candidate { fixed: 0, moving: 2 }]);
    let floor = config.min_patch_points;
    assert_eq!(cell_status(&plan.fixed, &plan.moving, 0, floor), CellStatus::Ready { moving: 2 });
    assert_eq!(
        cell_status(&plan.fixed, &plan.moving, 1, floor),
        CellStatus::InsufficientPoints { moving: 1 }
    );
    assert_eq!(
        cell_status(&plan.fixed, &plan.moving, 2, floor),
        CellStatus::InsufficientPoints { moving: 0 }
    );
    assert_eq!(cell_status(&plan.fixed, &plan.moving, 3, floor), CellStatus::NoCounterpart);
}

#[test]
fn candidates_follow_the_order_of_the_fixed_cells() {
    let mut fixed = Vec::new();
    fill(&mut fixed, 2, 0, 3);
    fill(&mut fixed, 1, 0, 1);
    fill(&mut fixed, 0, 0, 2);
    let mut moving = Vec::new();
    fill(&mut moving, 0, 0, 2);
    fill(&mut moving, 1, 0, 2);
    fill(&mut moving, 2, 0, 2);
    let fixed = Grid::partition(&fixed, 100);
    let moving = Grid::partition(&moving, 100);
    assert_eq!(
        candidates(&fixed, &moving, 2),
        vec![Candidate { fixed: 0, moving: 2 }, Candidate { fixed: 2, moving: 0 }]
    );
    assert_eq!(
        candidates(&fixed, &moving, 0),
        vec![
            Candidate { fixed: 0, moving: 2 },
            Candidate { fixed: 1, moving: 1 },
            Candidate { fixed: 2, moving: 0 }
        ]
    );
    assert_eq!(candidates(&fixed, &moving, 3), Vec::new());
    assert_eq!(candidates(&fixed, &Grid::partition(&Vec::new(), 100), 0), Vec::new());
}

/// Four fixed cells: one ready that converges, one below the floor, one
/// ready that does not converge, one without counterpart.
fn four_cells() -> (Vec<PlanarPoint>, Vec<PlanarPoint>) {
    let mut fixed = Vec::new();
    fill(&mut fixed, 0, 0, 1000);
    fill(&mut fixed, 3, 3, 999);
    fill(&mut fixed, 5, 5, 1000);
    fill(&mut fixed, 7, 7, 1000);
    let mut moving = Vec::new();
    fill(&mut moving, 5, 5, 1000);
    fill(&mut moving, 3, 3, 1000);
    fill(&mut moving, 0, 0, 1000);
    fill(&mut moving, 9, 9, 5000);
    (fixed, moving)
}

#[test]
fn the_walk_collects_a_velocity_for_each_cell_that_converges() {
    let (fixed, moving) = four_cells();
    let config = GridConfig::default();
    let plan = plan(&fixed, &moving, &config);
    let hours = 6;
    let walked = velocities(
        &plan,
        &config,
        |fixed, moving| {
            // Cell 0 against its counterpart 2 converges on a shift of
            // thirty units; cell 2 against its counterpart 0 does not.
            Ok(RegistrationOutcome { transform: (moving, 30), converged: fixed == 0 })
        },
        |fixed, (moving, shift): (usize, i64)| (fixed, moving, shift / hours),
    );
    assert_eq!(walked.velocities, vec![(0, 2, 5)]);
    assert_eq!(
        walked.skipped,
        vec![
            Skipped { location: 1, reason: Skip::InsufficientPoints },
            Skipped { location: 2, reason: Skip::NonConverged }
        ]
    );
}

#[test]
fn the_walk_registers_the_ready_cells_and_no_others() {
    let (fixed, moving) = four_cells();
    let config = GridConfig::default();
    let plan = plan(&fixed, &moving, &config);
    let registered = std::cell::RefCell::new(Vec::new());
    let walked = velocities(
        &plan,
        &config,
        |fixed, moving| {
            registered.borrow_mut().push(Candidate { fixed, moving });
            Ok(RegistrationOutcome { transform: (), converged: true })
        },
        |fixed, _| fixed,
    );
    assert_eq!(registered.into_inner(), plan.candidates);
    assert_eq!(walked.velocities, vec![0, 2]);
    assert_eq!(walked.skipped, vec![Skipped { location: 1, reason: Skip::InsufficientPoints }]);
}

#[test]
fn the_walk_collects_no_velocity_where_nothing_converges() {
    let (fixed, moving) = four_cells();
    let config = GridConfig { min_patch_points: 1, ..GridConfig::default() };
    let plan = plan(&fixed, &moving, &config);
    let walked = velocities(
        &plan,
        &config,
        |fixed, _| {
            if fixed == 0 {
                Err(RegistrationFailed)
            } else {
                Ok(RegistrationOutcome { transform: 1, converged: false })
            }
        },
        |_, _: i32| -> i32 { panic!("no velocity is derived without convergence") },
    );
    assert!(walked.velocities.is_empty());
    assert_eq!(
        walked.skipped,
        vec![
            Skipped { location: 0, reason: Skip::NonConverged },
            Skipped { location: 1, reason: Skip::NonConverged },
            Skipped { location: 2, reason: Skip::NonConverged }
        ]
    );
}

#[test]
fn the_walk_over_an_empty_cloud_collects_nothing() {
    let config = GridConfig::default();
    let plan = plan(&Vec::new(), &Vec::new(), &config);
    let walked = velocities(
        &plan,
        &config,
        |_, _| -> Result<RegistrationOutcome<i32>, RegistrationFailed> {
            panic!("there is nothing to register")
        },
        |_, _: i32| -> i32 { panic!("there is nothing to derive") },
    );
    assert!(walked.velocities.is_empty());
    assert!(walked.skipped.is_empty());
}

/// Two clouds of the same two full cells, the moving one shifted by `shift`.
fn shifted_clouds(shift: [f64; 3]) -> (Vec<[f64; 3]>, Vec<[f64; 3]>) {
    let mut fixed = Vec::new();
    for (corner, count) in [(0.0, 1000), (100.0, 1200)] {
        for i in 0..count {
            let x = corner + 10.25 + f64::from(i % 40) * 2.0;
            let y = 10.5 + f64::from(i / 40) * 2.75;
            fixed.push([x, y, f64::from(i % 7)]);
        }
    }
    let moving = fixed.iter().map(|p| [p[0] + shift[0], p[1] + shift[1], p[2] + shift[2]]).collect();
    (fixed, moving)
}

fn whole(points: &[[f64; 3]]) -> Vec<PlanarPoint> {
    points.iter().map(|p| PlanarPoint { x: p[0].floor() as i64, y: p[1].floor() as i64 }).collect()
}

fn center(points: &[[f64; 3]], members: &[usize]) -> [f64; 3] {
    let mut sum = [0.0; 3];
    for &member in members {
        for axis in 0..3 {
            sum[axis] += points[member][axis];
        }
    }
    sum.map(|total| total / members.len() as f64)
}

/// The grid strategy over two clouds, with the shift between the centres of
/// two patches standing in for their registration.
fn grid_velocities(fixed: &[[f64; 3]], moving: &[[f64; 3]], hours: f64) -> Vec<[f64; 6]> {
    let config = GridConfig::default();
    let plan = plan(&whole(fixed), &whole(moving), &config);
    velocities(
        &plan,
        &config,
        |location, counterpart| {
            let from = center(fixed, &plan.fixed.cells[location].members);
            let to = center(moving, &plan.moving.cells[counterpart].members);
            Ok(RegistrationOutcome {
                transform: [to[0] - from[0], to[1] - from[1], to[2] - from[2]],
                converged: true,
            })
        },
        |location, translation: [f64; 3]| {
            let at = center(fixed, &plan.fixed.cells[location].members);
            [
                at[0],
                at[1],
                at[2],
                translation[0] / hours,
                translation[1] / hours,
                translation[2] / hours,
            ]
        },
    )
    .velocities
}

#[test]
fn a_uniform_shift_over_six_hours_gives_its_rate_in_every_cell() {
    let (fixed, moving) = shifted_clouds([5.0, 0.0, 0.0]);
    let velocities = grid_velocities(&fixed, &moving, 6.0);
    assert_eq!(velocities.len(), 2);
    for velocity in &velocities {
        assert!((velocity[3] - 5.0 / 6.0).abs() < 1e-9);
        assert!(velocity[4].abs() < 1e-9);
        assert!(velocity[5].abs() < 1e-9);
    }
    assert!((velocities[0][0] - 49.25).abs() < 1e-9);
    assert!((velocities[1][0] - 149.25).abs() < 1e-9);
}

#[test]
fn identical_clouds_give_no_velocity_anywhere() {
    let (fixed, moving) = shifted_clouds([0.0, 0.0, 0.0]);
    let velocities = grid_velocities(&fixed, &moving, 6.0);
    assert_eq!(velocities.len(), 2);
    for velocity in &velocities {
        assert!(velocity[3].abs() < 1e-12);
        assert!(velocity[4].abs() < 1e-12);
        assert!(velocity[5].abs() < 1e-12);
    }
}
