//! The data model: what arrives in a webhook delivery and what is reported
//! back.

use std::collections::HashMap;
use vstd::prelude::*;

verus! {

/// Whether an alert, or a whole group of alerts, is active or has cleared.
#[derive(Clone, Copy, Debug, PartialEq, Eq, Structural)]
pub enum Status {
    Firing,
    Resolved,
}

/// A component of the status page together with a severity: the annotations
/// of an alert on the way in, one status update on the way out.
#[derive(Clone, Copy, Debug, PartialEq, Eq, Structural)]
pub struct CachetAnnotation {
    pub component: i8,
    pub severity: i8,
}

/// What became of one status update: the update itself and the HTTP status
/// code recorded for it.
#[derive(Clone, Copy, Debug, PartialEq, Eq, Structural)]
pub struct CachetResponse {
    pub http_status: u16,
    pub status: CachetAnnotation,
}

/// One alert of a delivery. Only `status` and `annotations` take part in the
/// aggregation; the other fields are carried along untouched.
#[derive(Debug)]
pub struct Alert {
    pub status: Status,
    pub labels: HashMap<String, String>,
    pub annotations: CachetAnnotation,
    pub starts_at: String,
    pub ends_at: String,
    pub generator_url: String,
}

/// One webhook delivery: a group of alerts that share a group key.
#[derive(Debug)]
pub struct AlertHook {
    pub version: String,
    pub group_key: String,
    pub status: Status,
    pub receiver: String,
    pub group_labels: HashMap<String, String>,
    pub common_labels: HashMap<String, String>,
    pub common_annotations: HashMap<String, String>,
    pub external_url: String,
    pub alerts: Vec<Alert>,
}

impl Alert {
    /// An alert with the given status and annotations and nothing else.
    pub fn new(status: Status, component: i8, severity: i8) -> (alert: Alert)
        ensures
            alert.status == status,
            alert.annotations.component == component,
            alert.annotations.severity == severity,
            alert.labels@ == Map::<String, String>::empty(),
            alert.starts_at@ == Seq::<char>::empty(),
            alert.ends_at@ == Seq::<char>::empty(),
            alert.generator_url@ == Seq::<char>::empty(),
    {
        Alert {
            status,
            labels: HashMap::new(),
            annotations: CachetAnnotation { component, severity },
            starts_at: String::new(),
            ends_at: String::new(),
            generator_url: String::new(),
        }
    }
}

impl AlertHook {
    /// A delivery with the given group status and alerts and nothing else.
    pub fn new(status: Status, alerts: Vec<Alert>) -> (batch: AlertHook)
        ensures
            batch.status == status,
            batch.alerts == alerts,
            batch.version@ == Seq::<char>::empty(),
            batch.group_key@ == Seq::<char>::empty(),
            batch.receiver@ == Seq::<char>::empty(),
            batch.external_url@ == Seq::<char>::empty(),
            batch.group_labels@ == Map::<String, String>::empty(),
            batch.common_labels@ == Map::<String, String>::empty(),
            batch.common_annotations@ == Map::<String, String>::empty(),
    {
        AlertHook {
            version: String::new(),
            group_key: String::new(),
            status,
            receiver: String::new(),
            group_labels: HashMap::new(),
            common_labels: HashMap::new(),
            common_annotations: HashMap::new(),
            external_url: String::new(),
            alerts,
        }
    }
}

} // verus!
