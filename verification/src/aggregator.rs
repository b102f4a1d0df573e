//! The aggregator: folds the alerts of one delivery into a single target
//! severity per component.
//!
//! A firing alert asks for its declared severity, a resolved one for the
//! baseline. A component ends up with the largest severity that any of its
//! alerts asks for. A component starts from an implicit severity of zero, so
//! only a positive target is ever written.
//!
//! Each alert counts by its own status. The status of the group as a whole
//! is not consulted.

use crate::model::{Alert, Status};
use std::collections::HashMap;
use vstd::prelude::*;

verus! {

broadcast use vstd::std_specs::hash::group_hash_axioms;

/// The severity of a component that is operational.
pub const BASELINE_SEVERITY: i8 = 1;

/// The severity that one alert asks for.
pub open spec fn effective_severity(alert: Alert) -> i8 {
    match alert.status {
        Status::Firing => alert.annotations.severity,
        Status::Resolved => BASELINE_SEVERITY,
    }
}

/// Whether `alerts[i]` exists and names `component`.
pub open spec fn names(alerts: Seq<Alert>, i: int, component: i8) -> bool {
    0 <= i < alerts.len() && alerts[i].annotations.component == component
}

/// The largest severity asked for by the alerts that name `component`, and
/// zero where none of them asks for more than that.
pub open spec fn peak(alerts: Seq<Alert>, component: i8) -> i8
    decreases alerts.len(),
{
    if alerts.len() == 0 {
        0
    } else {
        let before = peak(alerts.drop_last(), component);
        let last = alerts.last();
        if last.annotations.component == component && before < effective_severity(last) {
            effective_severity(last)
        } else {
            before
        }
    }
}

/// The severity map of a batch: every component whose peak is positive,
/// mapped to that peak.
pub open spec fn severity_map(alerts: Seq<Alert>) -> Map<i8, i8> {
    Map::new(|component: i8| peak(alerts, component) > 0, |component: i8| peak(alerts, component))
}

/// The peak is what its name says: no alert naming the component asks for
/// more, and a positive peak is asked for by one of them.
pub proof fn peak_is_maximum(alerts: Seq<Alert>, component: i8)
    ensures
        peak(alerts, component) >= 0,
        forall|i: int| #[trigger]
            names(alerts, i, component) ==> effective_severity(alerts[i]) <= peak(
                alerts,
                component,
            ),
        peak(alerts, component) > 0 ==> exists|i: int| #[trigger]
            names(alerts, i, component) && effective_severity(alerts[i]) == peak(
                alerts,
                component,
            ),
    decreases alerts.len(),
{
    if alerts.len() > 0 {
        let shorter = alerts.drop_last();
        let top = alerts.len() - 1;
        peak_is_maximum(shorter, component);
        assert forall|i: int| #[trigger] names(alerts, i, component) implies effective_severity(
            alerts[i],
        ) <= peak(alerts, component) by {
            if i < top {
                assert(names(shorter, i, component));
            }
        }
        if peak(alerts, component) > 0 {
            if peak(alerts, component) == peak(shorter, component) {
                let i = choose|i: int| #[trigger]
                    names(shorter, i, component) && effective_severity(shorter[i]) == peak(
                        shorter,
                        component,
                    );
                assert(names(alerts, i, component));
            } else {
                assert(names(alerts, top, component));
            }
        }
    }
}

/// The severity that `alert` asks for.
pub fn target_severity(alert: &Alert) -> (target: i8)
    ensures
        target == effective_severity(*alert),
{
    match alert.status {
        Status::Firing => alert.annotations.severity,
        Status::Resolved => BASELINE_SEVERITY,
    }
}

/// Reduces a batch of alerts to its severity map.
pub fn reduce(alerts: &Vec<Alert>) -> (components: HashMap<i8, i8>)
    ensures
        components@ == severity_map(alerts@),
{
    let mut components: HashMap<i8, i8> = HashMap::new();
    let mut i: usize = 0;
    while i < alerts.len()
        invariant
            i <= alerts.len(),
            components@ == severity_map(alerts@.take(i as int)),
        decreases alerts.len() - i,
    {
        let alert = &alerts[i];
        let component = alert.annotations.component;
        let current_severity: i8 = match components.get(&component) {
            Some(severity) => *severity,
            None => 0,
        };
        let target = target_severity(alert);
        proof {
            let seen = alerts@.take(i as int);
            let next = alerts@.take(i + 1);
            assert(next.drop_last() == seen);
            peak_is_maximum(seen, component);
            assert forall|c: i8| c != component implies peak(next, c) == peak(seen, c) by {}
        }
        if current_severity < target {
            components.insert(component, target);
        }
        i += 1;
    }
    assert(alerts@.take(alerts.len() as int) == alerts@);
    components
}

/// A component has an entry exactly when one of its alerts asks for a
/// positive severity. A component that no alert names has none.
pub proof fn entry_needs_positive_target(alerts: Seq<Alert>, component: i8)
    ensures
        severity_map(alerts).contains_key(component) <==> exists|i: int| #[trigger]
            names(alerts, i, component) && effective_severity(alerts[i]) > 0,
{
    peak_is_maximum(alerts, component);
}

/// One alert that asks for no less than any other alert of its component
/// decides the peak of that component.
pub proof fn peak_is_decided_by(alerts: Seq<Alert>, component: i8, at: int)
    requires
        names(alerts, at, component),
        forall|i: int| #[trigger]
            names(alerts, i, component) ==> effective_severity(alerts[i]) <= effective_severity(
                alerts[at],
            ),
    ensures
        peak(alerts, component) == if effective_severity(alerts[at]) > 0 {
            effective_severity(alerts[at])
        } else {
            0
        },
{
    peak_is_maximum(alerts, component);
}

/// The severity map does not depend on the order of the alerts: two batches
/// that hold the same alerts, each as often as the other, reduce to the same
/// map.
pub proof fn reduce_ignores_order(first: Seq<Alert>, second: Seq<Alert>)
    requires
        first.to_multiset() == second.to_multiset(),
    ensures
        severity_map(first) == severity_map(second),
{
    assert forall|component: i8| peak(first, component) == peak(second, component) by {
        peak_is_bounded_by_permutation(first, second, component);
        peak_is_bounded_by_permutation(second, first, component);
    }
}

/// A batch asks for no more than any batch that holds all of its alerts.
proof fn peak_is_bounded_by_permutation(first: Seq<Alert>, second: Seq<Alert>, component: i8)
    requires
        first.to_multiset() == second.to_multiset(),
    ensures
        peak(first, component) <= peak(second, component),
{
    peak_is_maximum(first, component);
    peak_is_maximum(second, component);
    if peak(first, component) > 0 {
        let i = choose|i: int| #[trigger]
            names(first, i, component) && effective_severity(first[i]) == peak(first, component);
        vstd::seq_lib::to_multiset_contains(first, first[i]);
        vstd::seq_lib::to_multiset_contains(second, first[i]);
        let j = choose|j: int| 0 <= j < second.len() && second[j] == first[i];
        assert(names(second, j, component));
    }
}

/// Reducing two batches as one gives every component the larger of its two
/// peaks.
pub proof fn peak_of_joined_batches(first: Seq<Alert>, second: Seq<Alert>, component: i8)
    ensures
        peak(first + second, component) == if peak(first, component) < peak(second, component) {
            peak(second, component)
        } else {
            peak(first, component)
        },
    decreases second.len(),
{
    if second.len() == 0 {
        peak_is_maximum(first, component);
    } else {
        assert((first + second).drop_last() == first + second.drop_last());
        peak_of_joined_batches(first, second.drop_last(), component);
    }
}

/// A component whose alerts are all resolved, and that has at least one, is
/// set to the baseline.
pub proof fn resolved_component_is_at_baseline(alerts: Seq<Alert>, component: i8)
    requires
        exists|i: int| names(alerts, i, component),
        forall|i: int| #[trigger]
            names(alerts, i, component) ==> alerts[i].status == Status::Resolved,
    ensures
        severity_map(alerts).contains_key(component),
        severity_map(alerts)[component] == BASELINE_SEVERITY,
{
    let at = choose|i: int| names(alerts, i, component);
    peak_is_decided_by(alerts, component, at);
}

/// A component with a firing alert of severity `severity`, and none firing
/// higher, is set to `severity`; where one of its alerts is resolved, to the
/// baseline if that is more. Firing wins over resolved.
///
/// Left out is the component whose alerts are all firing at zero or below:
/// it has no entry.
pub proof fn firing_component_takes_highest(alerts: Seq<Alert>, component: i8, severity: i8)
    requires
        exists|i: int| #[trigger]
            names(alerts, i, component) && alerts[i].status == Status::Firing
                && alerts[i].annotations.severity == severity,
        forall|i: int| #[trigger]
            names(alerts, i, component) && alerts[i].status == Status::Firing
                ==> alerts[i].annotations.severity <= severity,
        severity > 0 || exists|i: int| #[trigger]
            names(alerts, i, component) && alerts[i].status == Status::Resolved,
    ensures
        severity_map(alerts).contains_key(component),
        severity_map(alerts)[component] == if severity < BASELINE_SEVERITY && (exists|i: int|
            #[trigger] names(alerts, i, component) && alerts[i].status == Status::Resolved) {
            BASELINE_SEVERITY
        } else {
            severity
        },
{
    let firing = choose|i: int| #[trigger]
        names(alerts, i, component) && alerts[i].status == Status::Firing
            && alerts[i].annotations.severity == severity;
    if severity >= BASELINE_SEVERITY {
        peak_is_decided_by(alerts, component, firing);
    } else {
        let cleared = choose|i: int| #[trigger]
            names(alerts, i, component) && alerts[i].status == Status::Resolved;
        peak_is_decided_by(alerts, component, cleared);
    }
}

/// A batch without alerts has an empty severity map.
pub proof fn empty_batch_has_no_entries()
    ensures
        severity_map(Seq::<Alert>::empty()) == Map::<i8, i8>::empty(),
{
}

} // verus!
