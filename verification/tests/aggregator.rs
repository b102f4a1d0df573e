use cachet_webhook::aggregator::{reduce, target_severity, BASELINE_SEVERITY};
use cachet_webhook::{Alert, Status};
use std::collections::HashMap;

fn batch(records: &[(Status, i8, i8)]) -> Vec<Alert> {
    records
        .iter()
        .map(|&(status, component, severity)| Alert::new(status, component, severity))
        .collect()
}

fn map_of(entries: &[(i8, i8)]) -> HashMap<i8, i8> {
    entries.iter().copied().collect()
}

#[test]
fn firing_alert_asks_for_its_severity() {
    assert_eq!(target_severity(&Alert::new(Status::Firing, 5, 3)), 3);
    assert_eq!(target_severity(&Alert::new(Status::Firing, 5, -4)), -4);
}

#[test]
fn resolved_alert_asks_for_the_baseline() {
    assert_eq!(BASELINE_SEVERITY, 1);
    assert_eq!(target_severity(&Alert::new(Status::Resolved, 5, 9)), 1);
}

#[test]
fn empty_batch_reduces_to_empty_map() {
    assert!(reduce(&Vec::new()).is_empty());
}

#[test]
fn duplicates_fold_and_resolved_goes_to_baseline() {
    let alerts = batch(&[
        (Status::Firing, 5, 3),
        (Status::Firing, 5, 2),
        (Status::Resolved, 7, 4),
    ]);
    assert_eq!(reduce(&alerts), map_of(&[(5, 3), (7, 1)]));
}

#[test]
fn firing_wins_over_resolved() {
    let alerts = batch(&[(Status::Firing, 5, 2), (Status::Resolved, 5, 9)]);
    assert_eq!(reduce(&alerts), map_of(&[(5, 2)]));
}

#[test]
fn order_of_alerts_does_not_matter() {
    let records = [
        (Status::Firing, 5, 3),
        (Status::Resolved, 5, 8),
        (Status::Firing, 7, 2),
        (Status::Firing, 5, 4),
        (Status::Resolved, 9, 0),
        (Status::Firing, 7, 1),
    ];
    let expected = map_of(&[(5, 4), (7, 2), (9, 1)]);
    assert_eq!(reduce(&batch(&records)), expected);
    let mut reversed = records;
    reversed.reverse();
    assert_eq!(reduce(&batch(&reversed)), expected);
    let mut rotated = records;
    rotated.rotate_left(2);
    assert_eq!(reduce(&batch(&rotated)), expected);
}

#[test]
fn joined_batches_take_the_larger_peak() {
    let first = [(Status::Firing, 5, 3), (Status::Firing, 7, 1)];
    let second = [(Status::Firing, 5, 2), (Status::Firing, 7, 4), (Status::Resolved, 9, 2)];
    let mut joined = first.to_vec();
    joined.extend_from_slice(&second);
    assert_eq!(reduce(&batch(&first)), map_of(&[(5, 3), (7, 1)]));
    assert_eq!(reduce(&batch(&second)), map_of(&[(5, 2), (7, 4), (9, 1)]));
    assert_eq!(reduce(&batch(&joined)), map_of(&[(5, 3), (7, 4), (9, 1)]));
}

#[test]
fn all_resolved_component_is_at_baseline() {
    let alerts = batch(&[
        (Status::Resolved, 3, 7),
        (Status::Resolved, 3, -2),
        (Status::Resolved, 3, 0),
    ]);
    assert_eq!(reduce(&alerts), map_of(&[(3, 1)]));
}

#[test]
fn highest_firing_severity_is_taken() {
    let alerts = batch(&[(Status::Firing, 4, 2), (Status::Firing, 4, 6), (Status::Firing, 4, 5)]);
    assert_eq!(reduce(&alerts), map_of(&[(4, 6)]));
}

#[test]
fn baseline_wins_over_firing_below_it() {
    let alerts = batch(&[(Status::Firing, 4, 0), (Status::Resolved, 4, 5)]);
    assert_eq!(reduce(&alerts), map_of(&[(4, 1)]));
    let alerts = batch(&[(Status::Resolved, 4, 5), (Status::Firing, 4, -3)]);
    assert_eq!(reduce(&alerts), map_of(&[(4, 1)]));
}

#[test]
fn component_without_positive_target_has_no_entry() {
    let alerts = batch(&[(Status::Firing, 4, 0), (Status::Firing, 6, -1), (Status::Firing, 8, 1)]);
    assert_eq!(reduce(&alerts), map_of(&[(8, 1)]));
}

#[test]
fn components_at_the_ends_of_the_range() {
    let alerts = batch(&[(Status::Firing, -128, 127), (Status::Firing, 127, 127)]);
    assert_eq!(reduce(&alerts), map_of(&[(-128, 127), (127, 127)]));
}

#[test]
fn status_equality_is_by_variant() {
    assert_eq!(Status::Firing, Status::Firing);
    assert_eq!(Status::Resolved, Status::Resolved);
    assert_ne!(Status::Firing, Status::Resolved);
    assert_ne!(Status::Resolved, Status::Firing);
}

#[test]
fn new_alert_carries_only_status_and_annotations() {
    let alert = Alert::new(Status::Resolved, 7, 4);
    assert_eq!(alert.status, Status::Resolved);
    assert_eq!(alert.annotations.component, 7);
    assert_eq!(alert.annotations.severity, 4);
    assert!(alert.labels.is_empty());
    assert!(alert.starts_at.is_empty());
    assert!(alert.ends_at.is_empty());
    assert!(alert.generator_url.is_empty());
}
