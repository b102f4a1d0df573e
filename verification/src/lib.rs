//! Severity aggregation and status dispatch for an Alertmanager-to-Cachet
//! webhook adapter.
//!
//! A batch of alerts is folded into one target severity per component
//! ([`aggregator`]), and each entry becomes one status update towards the
//! status API ([`dispatcher`]). Transport is left to the caller: the
//! dispatcher plans the requests and accounts for their results.

pub mod aggregator;
pub mod credential;
pub mod dispatcher;
pub mod model;
pub mod numi8;
pub mod reply;

pub use model::{Alert, AlertHook, CachetAnnotation, CachetResponse, Status};
