//! Assembly of a pipeline run's result entity.  The run's state machine
//! is Pending, then Running on entry, then exactly one of Completed or
//! Failed: a successful analysis is parsed into the structured fields,
//! a failed one leaves them all empty and records the error message.
//! Timestamps are unix milliseconds; the duration is wall-clock
//! milliseconds between entry and the terminal transition.

use vstd::prelude::*;
use crate::enums::ResearchStatus;
use crate::events::{ViralEvent, DeepDive, CompletenessAudit, CompletenessAuditModel, events_view,
    dives_view};
use crate::parser::{parse_tldr, parse_viral_events, parse_deep_dives, parse_completeness_audit,
    spec_parse_tldr, spec_parse_viral_events, spec_parse_deep_dives, spec_parse_audit};

verus! {

/// The outcome of one pipeline run; immutable after construction.
#[derive(Clone, Debug)]
pub struct EngineResult {
    pub status: ResearchStatus,
    pub raw_markdown: String,
    pub tldr: Option<String>,
    pub viral_events: Vec<ViralEvent>,
    pub deep_dives: Vec<DeepDive>,
    pub completeness_audit: Option<CompletenessAudit>,
    pub started_at: i64,
    pub completed_at: i64,
    pub duration_ms: u64,
    pub error_message: Option<String>,
}

pub open spec fn o_str_view(o: Option<String>) -> Option<Seq<char>> {
    match o {
        Some(s) => Some(s@),
        None => None,
    }
}

pub open spec fn o_audit_view(o: Option<CompletenessAudit>) -> Option<CompletenessAuditModel> {
    match o {
        Some(a) => Some(a@),
        None => None,
    }
}

/// Builds the run's result from the analysis outcome and the run's
/// timestamps.  On success the status is Completed, the raw text is kept
/// and every structured field holds exactly what the corresponding
/// extractor yields on it; on failure the status is Failed, all
/// structured fields are empty or absent, and the error message is
/// recorded.
pub fn build_engine_result(
    outcome: Result<String, String>,
    started_at: i64,
    completed_at: i64,
    duration_ms: u64,
) -> (r: EngineResult)
    ensures
        r.started_at == started_at,
        r.completed_at == completed_at,
        r.duration_ms == duration_ms,
        match outcome {
            Ok(md) => r.status == ResearchStatus::Completed && r.raw_markdown@ == md@
                && o_str_view(r.tldr) == spec_parse_tldr(md@) && events_view(r.viral_events@)
                == spec_parse_viral_events(md@) && dives_view(r.deep_dives@)
                == spec_parse_deep_dives(md@) && o_audit_view(r.completeness_audit)
                == spec_parse_audit(md@) && r.error_message is None,
            Err(e) => r.status == ResearchStatus::Failed && r.raw_markdown@.len() == 0
                && r.tldr is None && r.viral_events@.len() == 0 && r.deep_dives@.len() == 0
                && r.completeness_audit is None && r.error_message == Some(e),
        },
{
    match outcome {
        Ok(md) => {
            let tldr = parse_tldr(md.as_str());
            let viral_events = parse_viral_events(md.as_str());
            let deep_dives = parse_deep_dives(md.as_str());
            let completeness_audit = parse_completeness_audit(md.as_str());
            EngineResult {
                status: ResearchStatus::Completed,
                raw_markdown: md,
                tldr,
                viral_events,
                deep_dives,
                completeness_audit,
                started_at,
                completed_at,
                duration_ms,
                error_message: None,
            }
        },
        Err(e) => EngineResult {
            status: ResearchStatus::Failed,
            raw_markdown: String::new(),
            tldr: None,
            viral_events: Vec::new(),
            deep_dives: Vec::new(),
            completeness_audit: None,
            started_at,
            completed_at,
            duration_ms,
            error_message: Some(e),
        },
    }
}

} // verus!
