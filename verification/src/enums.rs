//! The closed vocabularies of the report entities.

use vstd::prelude::*;

verus! {

/// Lifecycle of one pipeline run.
#[derive(Clone, Copy, Debug, PartialEq, Eq, Structural)]
pub enum ResearchStatus {
    Pending,
    Running,
    Completed,
    Failed,
}

/// Confidence attached to a viral event.
#[derive(Clone, Copy, Debug, PartialEq, Eq, Structural)]
pub enum ConfidenceLevel {
    High,
    Medium,
    Low,
}

/// Kind of a viral event.
#[derive(Clone, Copy, Debug, PartialEq, Eq, Structural)]
pub enum EventCategory {
    ProductLaunch,
    Funding,
    Partnership,
    Regulation,
    Research,
    OpenSource,
}

} // verus!
