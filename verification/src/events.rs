//! The typed entities the parser extracts, with their mathematical models.

use vstd::prelude::*;
use crate::enums::{ConfidenceLevel, EventCategory};

verus! {

/// The views of a sequence of strings.
pub open spec fn strings_view(s: Seq<String>) -> Seq<Seq<char>> {
    s.map_values(|x: String| x@)
}

/// The models of a sequence of events.
pub open spec fn events_view(s: Seq<ViralEvent>) -> Seq<ViralEventModel> {
    s.map_values(|e: ViralEvent| e@)
}

/// The models of a sequence of dives.
pub open spec fn dives_view(s: Seq<DeepDive>) -> Seq<DeepDiveModel> {
    s.map_values(|d: DeepDive| d@)
}

/// One tracked industry event.  Invariant maintained by the parser:
/// `headline` is never empty.
#[derive(Clone, Debug, PartialEq)]
pub struct ViralEvent {
    pub headline: String,
    pub category: EventCategory,
    pub impact_rating: i32,
    pub confidence: ConfidenceLevel,
    pub source: String,
    pub summary: String,
}

/// Model of a [`ViralEvent`]: the same fields over `Seq<char>` and `int`.
pub struct ViralEventModel {
    pub headline: Seq<char>,
    pub category: EventCategory,
    pub impact_rating: int,
    pub confidence: ConfidenceLevel,
    pub source: Seq<char>,
    pub summary: Seq<char>,
}

impl View for ViralEvent {
    type V = ViralEventModel;

    open spec fn view(&self) -> ViralEventModel {
        ViralEventModel {
            headline: self.headline@,
            category: self.category,
            impact_rating: self.impact_rating as int,
            confidence: self.confidence,
            source: self.source@,
            summary: self.summary@,
        }
    }
}

/// One strategic deep dive.  Invariant maintained by the parser:
/// `title` is never empty.
#[derive(Clone, Debug, PartialEq)]
pub struct DeepDive {
    pub title: String,
    pub priority: String,
    pub summary: String,
    pub key_findings: Vec<String>,
}

/// Model of a [`DeepDive`].
pub struct DeepDiveModel {
    pub title: Seq<char>,
    pub priority: Seq<char>,
    pub summary: Seq<char>,
    pub key_findings: Seq<Seq<char>>,
}

impl View for DeepDive {
    type V = DeepDiveModel;

    open spec fn view(&self) -> DeepDiveModel {
        DeepDiveModel {
            title: self.title@,
            priority: self.priority@,
            summary: self.summary@,
            key_findings: strings_view(self.key_findings@),
        }
    }
}

/// The self-audit block of a report.  `confidence_score` keeps the field
/// text exactly as written; the parser guarantees it denotes a
/// floating-point number, and callers outside the library convert it.
#[derive(Clone, Debug, PartialEq)]
pub struct CompletenessAudit {
    pub verified_signals: i32,
    pub sources_checked: i32,
    pub confidence_score: String,
    pub gaps: Vec<String>,
}

/// Model of a [`CompletenessAudit`].
pub struct CompletenessAuditModel {
    pub verified_signals: int,
    pub sources_checked: int,
    pub confidence_score: Seq<char>,
    pub gaps: Seq<Seq<char>>,
}

impl View for CompletenessAudit {
    type V = CompletenessAuditModel;

    open spec fn view(&self) -> CompletenessAuditModel {
        CompletenessAuditModel {
            verified_signals: self.verified_signals as int,
            sources_checked: self.sources_checked as int,
            confidence_score: self.confidence_score@,
            gaps: strings_view(self.gaps@),
        }
    }
}

} // verus!
