//! The decisions of the planning service: whether a request carries the
//! expected bearer token, and what a plan request is answered.

use vstd::prelude::*;
use crate::plan::{is_plan_for, plan_intent, PlanRequest, PlanResponse};
use crate::text::{constant_time_eq, has_prefix, strip_prefix, trim, trim_ws};

verus! {

/// The characters of an optional string.
pub open spec fn opt_str_view(s: Option<&str>) -> Option<Seq<char>> {
    match s {
        Some(s) => Some(s@),
        None => None,
    }
}

/// The characters of an optional owned string.
pub open spec fn opt_string_view(s: Option<String>) -> Option<Seq<char>> {
    match s {
        Some(s) => Some(s@),
        None => None,
    }
}

/// An `Authorization` header text carries the bearer token `expected`: it is
/// `Bearer ` followed by `expected`, with whitespace around the token ignored.
pub open spec fn bearer_matches(header: Seq<char>, expected: Seq<char>) -> bool {
    &&& has_prefix(header, "Bearer "@)
    &&& trim_ws(header.skip("Bearer "@.len() as int)) == expected
}

/// A request is let through when no token is configured (an unset or empty
/// token disables the check), and otherwise when its `Authorization` header
/// carries the configured token.
pub open spec fn is_authorized(authorization: Option<Seq<char>>, token: Option<Seq<char>>) -> bool {
    match token {
        None => true,
        Some(t) => t.len() == 0 || (authorization matches Some(h) && bearer_matches(h, t)),
    }
}

/// Whether a request may be served. `authorization` is the text of the
/// request's `Authorization` header, `None` where it has none or where the
/// value is not visible ASCII; `token` is the configured service token.
pub fn authorized(authorization: Option<&str>, token: &Option<String>) -> (r: bool)
    ensures
        r == is_authorized(opt_str_view(authorization), opt_string_view(*token)),
{
    let expected = match token {
        None => return true,
        Some(t) => t,
    };
    if expected.as_str().is_empty() {
        return true;
    }
    match authorization {
        None => false,
        Some(header) => match strip_prefix(header, "Bearer ") {
            None => false,
            Some(rest) => constant_time_eq(trim(rest), expected.as_str()),
        },
    }
}

/// The service's configuration: the expected bearer token. `None` or an empty
/// token disables the check (development only).
#[derive(Debug, Clone)]
pub struct AppState {
    pub token: Option<String>,
}

/// What a plan request is answered.
#[derive(Debug)]
pub enum PlanReply {
    /// The bearer token is missing or wrong.
    Unauthorized,
    /// The plan for the request, with status `planned`.
    Planned(PlanResponse),
}

/// Answers a plan request: refused unless [`authorized`], and otherwise the plan
/// for the request's intent, under the plan's task id and the status `planned`.
pub fn plan(st: &AppState, authorization: Option<&str>, req: &PlanRequest) -> (r: PlanReply)
    ensures
        r is Unauthorized <==> !is_authorized(opt_str_view(authorization), opt_string_view(st.token)),
        r matches PlanReply::Planned(resp) ==> {
            &&& is_plan_for(resp.plan, *req)
            &&& resp.task_id@ == resp.plan.task_id@
            &&& resp.status@ == "planned"@
        },
{
    if !authorized(authorization, &st.token) {
        return PlanReply::Unauthorized;
    }
    let plan = plan_intent(req);
    PlanReply::Planned(
        PlanResponse { task_id: plan.task_id.clone(), status: "planned".to_owned(), plan },
    )
}

/// With no token configured, or an empty one, every request is let through.
pub proof fn lemma_open_without_token(authorization: Option<Seq<char>>)
    ensures
        is_authorized(authorization, None),
        is_authorized(authorization, Some(Seq::empty())),
{
}

/// With a token configured, a request without an `Authorization` header is
/// refused, and one whose header is `Bearer ` and the token is let through.
pub proof fn lemma_bearer_token_is_checked(t: Seq<char>)
    requires
        t.len() > 0,
        trim_ws(t) == t,
    ensures
        !is_authorized(None, Some(t)),
        is_authorized(Some("Bearer "@ + t), Some(t)),
{
    let h = "Bearer "@ + t;
    assert(h.subrange(0, "Bearer "@.len() as int) =~= "Bearer "@);
    assert(h.skip("Bearer "@.len() as int) =~= t);
}

} // verus!
