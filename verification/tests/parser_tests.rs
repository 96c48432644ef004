use deep_research::enums::{ConfidenceLevel, EventCategory};
use deep_research::parser::{parse_completeness_audit, parse_deep_dives, parse_tldr,
    parse_viral_events};

#[test]
fn tldr_present() {
    let md = "## TL;DR\n- one\n- two\n\n## Global Viral Events\n";
    assert_eq!(parse_tldr(md), Some("- one\n- two".to_string()));
}

#[test]
fn tldr_absent_section() {
    assert_eq!(parse_tldr("## Something Else\nbody\n"), None);
}

#[test]
fn tldr_blank_body_is_none() {
    assert_eq!(parse_tldr("## TL;DR\n   \n"), None);
}

#[test]
fn tldr_tolerates_extra_heading_markers() {
    assert_eq!(parse_tldr("### TL;DR\nhello\n"), Some("hello".to_string()));
}

#[test]
fn events_basic() {
    let md = "## Global Viral Events\n### Big Launch\n- **Category**: product_launch\n- **Impact Rating**: 8\n- **Confidence**: high\n- **Source**: example.com\n- **Summary**: a launch\n";
    let evs = parse_viral_events(md);
    assert_eq!(evs.len(), 1);
    assert_eq!(evs[0].headline, "Big Launch");
    assert_eq!(evs[0].category, EventCategory::ProductLaunch);
    assert_eq!(evs[0].impact_rating, 8);
    assert_eq!(evs[0].confidence, ConfidenceLevel::High);
    assert_eq!(evs[0].source, "example.com");
    assert_eq!(evs[0].summary, "a launch");
}

#[test]
fn events_impact_clamped_low() {
    let md = "## Global Viral Events\n### E\n- **Impact Rating**: 0\n";
    assert_eq!(parse_viral_events(md)[0].impact_rating, 1);
}

#[test]
fn events_impact_clamped_high() {
    let md = "## Global Viral Events\n### E\n- **Impact Rating**: 11\n";
    assert_eq!(parse_viral_events(md)[0].impact_rating, 10);
}

#[test]
fn events_impact_non_numeric_defaults() {
    let md = "## Global Viral Events\n### E\n- **Impact Rating**: huge\n";
    assert_eq!(parse_viral_events(md)[0].impact_rating, 5);
}

#[test]
fn events_impact_overflow_defaults() {
    let md = "## Global Viral Events\n### E\n- **Impact Rating**: 2147483648\n";
    assert_eq!(parse_viral_events(md)[0].impact_rating, 5);
}

#[test]
fn events_impact_signed_value() {
    let md = "## Global Viral Events\n### E\n- **Impact Rating**: +3\n";
    assert_eq!(parse_viral_events(md)[0].impact_rating, 3);
}

#[test]
fn events_category_fallbacks() {
    let md = "## Global Viral Events\n### A\n- **Category**: weird_stuff\n\n### B\n- **Summary**: none given\n";
    let evs = parse_viral_events(md);
    assert_eq!(evs.len(), 2);
    assert_eq!(evs[0].category, EventCategory::Research);
    assert_eq!(evs[1].category, EventCategory::Research);
}

#[test]
fn events_confidence_fallbacks() {
    // confidence values are matched case-sensitively in lowercase
    let md = "## Global Viral Events\n### A\n- **Confidence**: HIGH\n\n### B\n- **Category**: funding\n";
    let evs = parse_viral_events(md);
    assert_eq!(evs[0].confidence, ConfidenceLevel::Medium);
    assert_eq!(evs[1].confidence, ConfidenceLevel::Medium);
    assert_eq!(evs[1].category, EventCategory::Funding);
}

#[test]
fn events_source_and_summary_defaults() {
    let md = "## Global Viral Events\n### A\n- **Impact Rating**: 4\n";
    let evs = parse_viral_events(md);
    assert_eq!(evs[0].source, "Unknown");
    assert_eq!(evs[0].summary, "");
}

#[test]
fn events_empty_headline_block_dropped() {
    // a blank-title block can only be the section's first: later sub-heading
    // markers are consumed by the block split together with their whitespace
    let md = "## Global Viral Events\n###  \n- **Category**: funding\n\n### Good One\n- **Category**: funding\n";
    let evs = parse_viral_events(md);
    assert_eq!(evs.len(), 1);
    assert_eq!(evs[0].headline, "Good One");
}

#[test]
fn events_field_keys_case_insensitive_and_last_wins() {
    let md = "## Global Viral Events\n### E\n- **impact RATING**: 9\n- **Category**: funding\n- **Category**: regulation\n";
    let evs = parse_viral_events(md);
    assert_eq!(evs[0].impact_rating, 9);
    assert_eq!(evs[0].category, EventCategory::Regulation);
}

#[test]
fn events_section_absent() {
    assert_eq!(parse_viral_events("## TL;DR\nhi\n").len(), 0);
}

#[test]
fn events_section_ends_at_next_heading() {
    let md = "## Global Viral Events\n### In\n- **Category**: funding\n\n## Strategic Deep Dives\n### Out\n- **Priority**: HIGH\n";
    let evs = parse_viral_events(md);
    assert_eq!(evs.len(), 1);
    assert_eq!(evs[0].headline, "In");
}

#[test]
fn dives_basic_with_findings() {
    let md = "## Strategic Deep Dives\n### Deep Topic\n- **Priority**: HIGH\n- **Summary**: why it matters\n- **Key Findings**\n- first finding\n- second finding\n";
    let dives = parse_deep_dives(md);
    assert_eq!(dives.len(), 1);
    assert_eq!(dives[0].title, "Deep Topic");
    assert_eq!(dives[0].priority, "HIGH");
    assert_eq!(dives[0].summary, "why it matters");
    assert_eq!(dives[0].key_findings, vec!["first finding".to_string(), "second finding".to_string()]);
}

#[test]
fn dives_priority_defaults_to_medium() {
    let md = "## Strategic Deep Dives\n### T\n- **Summary**: s\n";
    let dives = parse_deep_dives(md);
    assert_eq!(dives[0].priority, "MEDIUM");
    assert_eq!(dives[0].key_findings.len(), 0);
}

#[test]
fn dives_fields_after_findings_switch_become_findings() {
    let md = "## Strategic Deep Dives\n### T\n- **Key Findings**\n- **Priority**: HIGH\n- plain one\n";
    let dives = parse_deep_dives(md);
    assert_eq!(dives[0].priority, "MEDIUM");
    assert_eq!(dives[0].key_findings, vec!["**Priority**: HIGH".to_string(), "plain one".to_string()]);
}

#[test]
fn audit_complete() {
    let md = "## Completeness Audit\n- **Verified Signals**: 12\n- **Sources Checked**: 30\n- **Confidence Score**: 0.85\n- **Gaps**: latency data, Q3 forecasts\n";
    let audit = parse_completeness_audit(md).expect("audit should parse");
    assert_eq!(audit.verified_signals, 12);
    assert_eq!(audit.sources_checked, 30);
    assert_eq!(audit.confidence_score, "0.85");
    assert_eq!(audit.gaps, vec!["latency data".to_string(), "Q3 forecasts".to_string()]);
}

#[test]
fn audit_missing_sources_checked_is_absent() {
    let md = "## Completeness Audit\n- **Verified Signals**: 12\n- **Confidence Score**: 0.85\n- **Gaps**: a, b\n";
    assert!(parse_completeness_audit(md).is_none());
}

#[test]
fn audit_malformed_score_is_absent() {
    let md = "## Completeness Audit\n- **Verified Signals**: 1\n- **Sources Checked**: 2\n- **Confidence Score**: very sure\n";
    assert!(parse_completeness_audit(md).is_none());
}

#[test]
fn audit_scientific_score_accepted() {
    let md = "## Completeness Audit\n- **Verified Signals**: 1\n- **Sources Checked**: 2\n- **Confidence Score**: 9.5e-1\n";
    let audit = parse_completeness_audit(md).expect("audit should parse");
    assert_eq!(audit.confidence_score, "9.5e-1");
    assert_eq!(audit.confidence_score.parse::<f64>().unwrap(), 0.95);
}

#[test]
fn audit_double_dot_score_rejected() {
    let md = "## Completeness Audit\n- **Verified Signals**: 1\n- **Sources Checked**: 2\n- **Confidence Score**: 0.5.5\n";
    assert!(parse_completeness_audit(md).is_none());
}

#[test]
fn audit_missing_gaps_is_empty_list() {
    let md = "## Completeness Audit\n- **Verified Signals**: 1\n- **Sources Checked**: 2\n- **Confidence Score**: 1.0\n";
    let audit = parse_completeness_audit(md).expect("audit should parse");
    assert_eq!(audit.gaps.len(), 0);
}

#[test]
fn audit_gaps_empty_entries_dropped() {
    let md = "## Completeness Audit\n- **Verified Signals**: 1\n- **Sources Checked**: 2\n- **Confidence Score**: 1.0\n- **Gaps**: a,, b ,\n";
    let audit = parse_completeness_audit(md).expect("audit should parse");
    assert_eq!(audit.gaps, vec!["a".to_string(), "b".to_string()]);
}

#[test]
fn parser_is_idempotent() {
    let md = "## TL;DR\nsummary here\n\n## Global Viral Events\n### One\n- **Category**: funding\n\n## Strategic Deep Dives\n### Two\n- **Key Findings**\n- x\n\n## Completeness Audit\n- **Verified Signals**: 1\n- **Sources Checked**: 2\n- **Confidence Score**: 0.5\n";
    assert_eq!(parse_tldr(md), parse_tldr(md));
    assert_eq!(parse_viral_events(md), parse_viral_events(md));
    assert_eq!(parse_deep_dives(md), parse_deep_dives(md));
    assert_eq!(parse_completeness_audit(md), parse_completeness_audit(md));
}

#[test]
fn end_to_end_scenario() {
    let md = "## TL;DR\n- big move\n- second move\n\n## Global Viral Events\n### Valid Event\n- **Category**: funding\n- **Impact Rating**: 7\n- **Confidence**: high\n- **Source**: somewhere\n- **Summary**: all fields\n\n### Missing Confidence\n- **Category**: research\n- **Impact Rating**: 4\n- **Source**: elsewhere\n- **Summary**: partial\n\n## Strategic Deep Dives\n### The Dive\n- **Priority**: HIGH\n- **Summary**: depth\n- **Key Findings**\n- finding one\n- finding two\n\n## Completeness Audit\n- **Verified Signals**: 5\n- **Sources Checked**: 9\n- **Confidence Score**: 0.75\n- **Gaps**: latency data, Q3 forecasts\n";
    assert_eq!(parse_tldr(md), Some("- big move\n- second move".to_string()));
    let evs = parse_viral_events(md);
    assert_eq!(evs.len(), 2);
    assert_eq!(evs[0].confidence, ConfidenceLevel::High);
    assert_eq!(evs[1].confidence, ConfidenceLevel::Medium);
    let dives = parse_deep_dives(md);
    assert_eq!(dives.len(), 1);
    assert_eq!(dives[0].key_findings.len(), 2);
    let audit = parse_completeness_audit(md).expect("audit should parse");
    assert_eq!(audit.gaps, vec!["latency data".to_string(), "Q3 forecasts".to_string()]);
}
