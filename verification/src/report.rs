//! The persisted report entity and its assembly.  A report's identity is
//! its id, derived from the run date; writing a report with an existing
//! id overwrites the prior one (upsert), which the persistence layer
//! outside the library enforces.

use vstd::prelude::*;
use vstd::string::*;
use crate::engine::EngineResult;

verus! {

/// One daily research report; `run_date` and `created_at` are unix
/// milliseconds.
#[derive(Clone, Debug)]
pub struct ResearchReport {
    pub report_id: String,
    pub run_date: i64,
    pub result: Option<EngineResult>,
    pub created_at: i64,
}

/// The report identifier for a date; the date text is taken as given.
pub fn make_report_id(date: &str) -> (r: String)
    ensures
        r@ == "rpt-"@ + date@,
{
    let mut s = String::from_str("rpt-");
    s.append(date);
    s
}

/// The fixed search topic derived from a date.
pub fn make_search_topic(date: &str) -> (r: String)
    ensures
        r@ == "AI industry developments "@ + date@,
{
    let mut s = String::from_str("AI industry developments ");
    s.append(date);
    s
}

/// Wraps a finished engine run into the report entity that is persisted:
/// the id is derived from the date, and both date fields carry the
/// moment of assembly.
pub fn build_report(date: &str, result: EngineResult, now: i64) -> (r: ResearchReport)
    ensures
        r.report_id@ == "rpt-"@ + date@,
        r.run_date == now,
        r.created_at == now,
        r.result == Some(result),
{
    ResearchReport { report_id: make_report_id(date), run_date: now, result: Some(result), created_at: now }
}

} // verus!
