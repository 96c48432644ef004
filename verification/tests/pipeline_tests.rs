use deep_research::analysis::{build_full_prompt, combine_analysis};
use deep_research::auth::{check_password, extract_bearer_token, make_claims};
use deep_research::config::parse_cors_origins;
use deep_research::engine::build_engine_result;
use deep_research::enums::{ConfidenceLevel, ResearchStatus};
use deep_research::errors::AppError;
use deep_research::prompts::build_research_prompt;
use deep_research::report::{build_report, make_report_id, make_search_topic};
use deep_research::requests::{make_auth_token, make_report_list};
use deep_research::search::{aggregate_search_results, derive_queries, SearchError, SearchHit};

fn hit(title: &str, url: &str, content: &str) -> SearchHit {
    SearchHit { title: title.to_string(), url: url.to_string(), content: content.to_string() }
}

#[test]
fn aggregate_dedups_by_url_first_wins() {
    let outcomes = vec![
        Some(vec![hit("A", "u1", "first"), hit("B", "u2", "b")]),
        Some(vec![hit("A again", "u1", "second"), hit("C", "u3", "c")]),
        None,
    ];
    let ctx = aggregate_search_results(&outcomes).expect("should aggregate");
    let blocks: Vec<&str> = ctx.split("\n---\n").collect();
    assert_eq!(blocks.len(), 3);
    assert_eq!(blocks[0], "Title: A\nURL: u1\nContent: first\n");
    assert_eq!(blocks[1], "Title: B\nURL: u2\nContent: b\n");
    assert_eq!(blocks[2], "Title: C\nURL: u3\nContent: c\n");
    assert_eq!(ctx.matches("URL: u1").count(), 1);
}

#[test]
fn aggregate_all_failed() {
    let outcomes: Vec<Option<Vec<SearchHit>>> = vec![None, None, None];
    assert_eq!(aggregate_search_results(&outcomes), Err(SearchError::AllSearchesFailed));
}

#[test]
fn aggregate_survives_one_failure() {
    let outcomes = vec![None, Some(vec![hit("A", "u1", "a")]), Some(vec![hit("B", "u2", "b")])];
    let ctx = aggregate_search_results(&outcomes).expect("two successes remain");
    assert!(ctx.contains("URL: u1"));
    assert!(ctx.contains("URL: u2"));
}

#[test]
fn aggregate_empty_successes_still_fail() {
    let outcomes: Vec<Option<Vec<SearchHit>>> = vec![Some(vec![]), Some(vec![]), None];
    assert_eq!(aggregate_search_results(&outcomes), Err(SearchError::AllSearchesFailed));
}

#[test]
fn search_error_message_text() {
    assert_eq!(SearchError::AllSearchesFailed.message(), "All Tavily searches failed");
}

#[test]
fn queries_have_fixed_suffixes() {
    let qs = derive_queries("rust verification");
    assert_eq!(qs, vec![
        "rust verification latest news today".to_string(),
        "rust verification breakthroughs announcements".to_string(),
        "rust verification funding partnerships".to_string(),
    ]);
}

#[test]
fn combine_all_ok_concatenates_in_order() {
    let r = combine_analysis(
        Ok("T".to_string()),
        Ok("E".to_string()),
        Ok("D".to_string()),
    );
    assert_eq!(r, Ok("T\n\nE\n\nD".to_string()));
}

#[test]
fn combine_names_failing_phase() {
    let r = combine_analysis(Err("boom".to_string()), Ok("E".to_string()), Ok("D".to_string()));
    assert_eq!(r, Err("TL;DR failed: boom".to_string()));
    let r = combine_analysis(Ok("T".to_string()), Err("boom".to_string()), Ok("D".to_string()));
    assert_eq!(r, Err("Events failed: boom".to_string()));
    let r = combine_analysis(Ok("T".to_string()), Ok("E".to_string()), Err("boom".to_string()));
    assert_eq!(r, Err("Dives failed: boom".to_string()));
}

#[test]
fn full_prompt_appends_search_context() {
    assert_eq!(build_full_prompt("base", "ctx"), "base\n\nSearch context:\nctx");
}

#[test]
fn failed_engine_result_is_empty_with_message() {
    let r = build_engine_result(Err("Events failed: boom".to_string()), 100, 200, 100);
    assert_eq!(r.status, ResearchStatus::Failed);
    assert_eq!(r.raw_markdown, "");
    assert!(r.tldr.is_none());
    assert!(r.viral_events.is_empty());
    assert!(r.deep_dives.is_empty());
    assert!(r.completeness_audit.is_none());
    assert_eq!(r.error_message, Some("Events failed: boom".to_string()));
    assert_eq!(r.started_at, 100);
    assert_eq!(r.completed_at, 200);
    assert_eq!(r.duration_ms, 100);
}

#[test]
fn completed_engine_result_holds_parsed_fields() {
    let md = "## TL;DR\nhead\n\n## Global Viral Events\n### One\n- **Category**: funding\n- **Confidence**: low\n";
    let r = build_engine_result(Ok(md.to_string()), 1, 2, 1);
    assert_eq!(r.status, ResearchStatus::Completed);
    assert_eq!(r.raw_markdown, md);
    assert_eq!(r.tldr, Some("head".to_string()));
    assert_eq!(r.viral_events.len(), 1);
    assert_eq!(r.viral_events[0].confidence, ConfidenceLevel::Low);
    assert!(r.error_message.is_none());
}

#[test]
fn report_id_and_topic() {
    assert_eq!(make_report_id("2025-06-01"), "rpt-2025-06-01");
    assert_eq!(make_search_topic("2025-06-01"), "AI industry developments 2025-06-01");
}

#[test]
fn report_wraps_result() {
    let res = build_engine_result(Err("x".to_string()), 0, 0, 0);
    let rep = build_report("2025-06-01", res, 777);
    assert_eq!(rep.report_id, "rpt-2025-06-01");
    assert_eq!(rep.run_date, 777);
    assert_eq!(rep.created_at, 777);
    assert!(rep.result.is_some());
}

#[test]
fn prompt_template_instantiates_date() {
    let p = build_research_prompt("2025-06-01");
    assert!(p.starts_with("You are a Global AI Viral Intelligence Tracker v4.0."));
    assert!(p.contains("Today's date: 2025-06-01\n"));
    assert!(p.ends_with("rate your confidence honestly."));
}

#[test]
fn cors_json_array_form() {
    let origins = parse_cors_origins("[\"http://a\", \"http://b\"]");
    assert_eq!(origins, vec!["http://a".to_string(), "http://b".to_string()]);
}

#[test]
fn cors_plain_form_drops_empties() {
    let origins = parse_cors_origins("http://a, ,http://b,");
    assert_eq!(origins, vec!["http://a".to_string(), "http://b".to_string()]);
}

#[test]
fn bearer_token_extraction() {
    assert_eq!(extract_bearer_token("Bearer abc.def"), Some("abc.def".to_string()));
    assert_eq!(extract_bearer_token("Basic abc"), None);
    assert_eq!(extract_bearer_token(""), None);
}

#[test]
fn claims_expiry_arithmetic() {
    let c = make_claims(1_000_000, 24);
    assert_eq!(c.sub, "user");
    assert_eq!(c.iat, 1_000_000);
    assert_eq!(c.exp, 1_000_000 + 24 * 3600);
}

#[test]
fn password_check() {
    assert!(check_password("secret", "secret"));
    assert!(!check_password("secret", "other"));
}

#[test]
fn auth_token_is_bearer() {
    let t = make_auth_token("tok".to_string());
    assert_eq!(t.access_token, "tok");
    assert_eq!(t.token_type, "bearer");
}

#[test]
fn report_list_counts() {
    let l = make_report_list(vec![]);
    assert_eq!(l.total, 0);
    assert!(l.reports.is_empty());
}

#[test]
fn app_error_mappings() {
    assert_eq!(AppError::Auth("no".to_string()).status_code(), 401);
    assert_eq!(AppError::Engine("e".to_string()).status_code(), 500);
    assert_eq!(AppError::Database("d".to_string()).status_code(), 503);
    assert_eq!(AppError::NotFound("n".to_string()).status_code(), 404);
    assert_eq!(AppError::Internal("i".to_string()).status_code(), 500);
    assert_eq!(AppError::Auth("no".to_string()).detail(), "no");
    assert_eq!(
        AppError::Database("down".to_string()).display_text(),
        "Database error: down"
    );
}
