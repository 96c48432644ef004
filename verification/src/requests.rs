//! Request and response entities of the application's interface.

use vstd::prelude::*;
use vstd::string::*;
use crate::report::ResearchReport;

verus! {

/// A research trigger request; a missing date means "today", which the
/// caller resolves.
#[derive(Debug)]
pub struct ResearchRequest {
    pub date: Option<String>,
}

/// The listing response: the reports and their count.
#[derive(Debug)]
pub struct ReportListResponse {
    pub reports: Vec<ResearchReport>,
    pub total: usize,
}

/// A login request.
#[derive(Debug)]
pub struct AuthRequest {
    pub password: String,
}

/// The token handed back on login; its type is always `bearer`.
#[derive(Clone, Debug)]
pub struct AuthToken {
    pub access_token: String,
    pub token_type: String,
}

pub fn make_auth_token(access_token: String) -> (r: AuthToken)
    ensures
        r.access_token@ == access_token@,
        r.token_type@ == "bearer"@,
{
    AuthToken { access_token, token_type: String::from_str("bearer") }
}

/// The listing response for a set of reports; `total` is their count.
pub fn make_report_list(reports: Vec<ResearchReport>) -> (r: ReportListResponse)
    ensures
        r.reports == reports,
        r.total == reports@.len(),
{
    let total = reports.len();
    ReportListResponse { reports, total }
}

} // verus!
