use ape::aggregate::{Aggregator, Skipped};
use ape::registration::{settle, RegistrationFailed, RegistrationOutcome, Skip};
use ape::velocities::CellStatus;

type Answer = Result<RegistrationOutcome<i64>, RegistrationFailed>;

fn converged(transform: i64) -> Answer {
    Ok(RegistrationOutcome { transform, converged: true })
}

fn stalled(transform: i64) -> Answer {
    Ok(RegistrationOutcome { transform, converged: false })
}

fn never_registered(_: usize, _: usize) -> Answer {
    panic!("a cell that is not ready is not registered")
}

fn never_derived(_: usize, _: i64) -> i64 {
    panic!("no velocity is derived without convergence")
}

#[test]
fn settle_hands_on_the_transform_of_a_converged_registration() {
    let answer = Ok(RegistrationOutcome { transform: [5, 0, 0], converged: true });
    assert_eq!(settle(answer), Ok([5, 0, 0]));
}

#[test]
fn settle_withholds_the_transform_without_convergence() {
    let answer = Ok(RegistrationOutcome { transform: [5, 0, 0], converged: false });
    assert_eq!(settle(answer), Err(Skip::NonConverged));
}

#[test]
fn settle_counts_a_fault_as_no_convergence() {
    let answer: Result<RegistrationOutcome<[i32; 3]>, RegistrationFailed> = Err(RegistrationFailed);
    assert_eq!(settle(answer), Err(Skip::NonConverged));
}

#[test]
fn a_new_aggregator_is_empty() {
    let aggregator: Aggregator<(i32, i32)> = Aggregator::new();
    assert!(aggregator.velocities.is_empty());
    assert!(aggregator.skipped.is_empty());
}

#[test]
fn a_converged_registration_adds_the_velocity_of_its_transform() {
    let mut aggregator: Aggregator<i64> = Aggregator::new();
    let hours = 6;
    let rate = |location: usize, shift: i64| shift / hours + location as i64 * 100;
    aggregator.conclude(3, converged(30), &rate);
    aggregator.conclude(4, converged(12), &rate);
    assert_eq!(aggregator.velocities, vec![305, 402]);
    assert!(aggregator.skipped.is_empty());
}

#[test]
fn a_registration_without_convergence_adds_no_velocity() {
    let mut aggregator: Aggregator<i64> = Aggregator::new();
    aggregator.conclude(0, stalled(30), &never_derived);
    aggregator.conclude(1, Err(RegistrationFailed), &never_derived);
    assert!(aggregator.velocities.is_empty());
    assert_eq!(
        aggregator.skipped,
        vec![
            Skipped { location: 0, reason: Skip::NonConverged },
            Skipped { location: 1, reason: Skip::NonConverged }
        ]
    );
}

#[test]
fn skipped_locations_are_marked_in_order() {
    let mut aggregator: Aggregator<i64> = Aggregator::new();
    aggregator.skip(7, Skip::InsufficientPoints);
    aggregator.conclude(8, converged(6), &|_: usize, shift: i64| shift * 2);
    aggregator.skip(9, Skip::NonConverged);
    assert_eq!(aggregator.velocities, vec![12]);
    assert_eq!(
        aggregator.skipped,
        vec![
            Skipped { location: 7, reason: Skip::InsufficientPoints },
            Skipped { location: 9, reason: Skip::NonConverged }
        ]
    );
}

#[test]
fn visiting_a_cell_without_counterpart_leaves_no_trace() {
    let mut aggregator: Aggregator<i64> = Aggregator::new();
    aggregator.visit(0, CellStatus::NoCounterpart, &never_registered, &never_derived);
    assert!(aggregator.velocities.is_empty());
    assert!(aggregator.skipped.is_empty());
}

#[test]
fn visiting_a_cell_below_the_floor_marks_it() {
    let mut aggregator: Aggregator<i64> = Aggregator::new();
    aggregator.visit(
        5,
        CellStatus::InsufficientPoints { moving: 2 },
        &never_registered,
        &never_derived,
    );
    assert!(aggregator.velocities.is_empty());
    assert_eq!(aggregator.skipped, vec![Skipped { location: 5, reason: Skip::InsufficientPoints }]);
}

#[test]
fn visiting_a_ready_cell_registers_it_against_its_counterpart() {
    let mut aggregator: Aggregator<i64> = Aggregator::new();
    let rate = |location: usize, shift: i64| shift / 6 + location as i64 * 1000;
    aggregator.visit(
        1,
        CellStatus::Ready { moving: 4 },
        &|fixed, moving| converged((fixed * 10 + moving) as i64 * 6),
        &rate,
    );
    aggregator.visit(2, CellStatus::Ready { moving: 0 }, &|_, _| stalled(30), &never_derived);
    aggregator.visit(
        3,
        CellStatus::Ready { moving: 1 },
        &|_, _| -> Answer { Err(RegistrationFailed) },
        &never_derived,
    );
    assert_eq!(aggregator.velocities, vec![1014]);
    assert_eq!(
        aggregator.skipped,
        vec![
            Skipped { location: 2, reason: Skip::NonConverged },
            Skipped { location: 3, reason: Skip::NonConverged }
        ]
    );
}
