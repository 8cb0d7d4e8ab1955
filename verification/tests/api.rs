use linexus_orch::api::{authorized, plan, AppState, PlanReply};
use linexus_orch::params::Params;
use linexus_orch::plan::PlanRequest;
use linexus_orch::text::{compare_text, TextOrder};
use linexus_orch::text::{constant_time_eq, str_eq, strip_prefix, trim};

fn req(intent: &str) -> PlanRequest {
    PlanRequest {
        intent: intent.to_string(),
        targets: vec![],
        requester_id: String::new(),
        auto_rollback: false,
        params: Params::new(),
        task_id: Some("t-1".into()),
    }
}

#[test]
fn no_token_lets_everything_through() {
    assert!(authorized(None, &None));
    assert!(authorized(Some("garbage"), &None));
    assert!(authorized(None, &Some(String::new())));
}

#[test]
fn token_requires_bearer_header() {
    let token = Some("s3cret".to_string());
    assert!(!authorized(None, &token));
    assert!(!authorized(Some("s3cret"), &token));
    assert!(!authorized(Some("bearer s3cret"), &token));
    assert!(!authorized(Some("Bearer s3cre"), &token));
    assert!(authorized(Some("Bearer s3cret"), &token));
    assert!(authorized(Some("Bearer   s3cret \t"), &token));
}

#[test]
fn plan_reply_unauthorized_and_planned() {
    let st = AppState { token: Some("tok".into()) };
    assert!(matches!(plan(&st, Some("Bearer nope"), &req("restart_node")), PlanReply::Unauthorized));
    match plan(&st, Some("Bearer tok"), &req("restart_node")) {
        PlanReply::Planned(resp) => {
            assert_eq!(resp.status, "planned");
            assert_eq!(resp.task_id, "t-1");
            assert_eq!(resp.plan.task_id, "t-1");
            assert_eq!(resp.plan.steps.len(), 1);
        }
        PlanReply::Unauthorized => panic!("expected a plan"),
    }
}

#[test]
fn constant_time_eq_cases() {
    assert!(constant_time_eq("abc", "abc"));
    assert!(!constant_time_eq("abc", "abd"));
    assert!(!constant_time_eq("abc", "ab"));
    assert!(constant_time_eq("", ""));
    assert!(!constant_time_eq("é", "e"));
}

#[test]
fn text_helpers() {
    assert_eq!(trim("  a b\u{3000}\n"), "a b");
    assert_eq!(trim(" \t "), "");
    assert_eq!(strip_prefix("Bearer x", "Bearer "), Some("x"));
    assert_eq!(strip_prefix("Bear", "Bearer "), None);
    assert_eq!(strip_prefix("abab", "ab"), Some("ab"));
    assert_eq!(strip_prefix("abc", ""), Some("abc"));
    assert!(str_eq("añb", "añb"));
    assert!(!str_eq("añb", "anb"));
}

#[test]
fn compare_text_orders_by_code_point() {
    assert_eq!(compare_text("a", "b"), TextOrder::Less);
    assert_eq!(compare_text("ab", "a"), TextOrder::Greater);
    assert_eq!(compare_text("", ""), TextOrder::Equal);
    assert_eq!(compare_text("z", "é"), TextOrder::Less);
    assert_eq!(compare_text("Z", "a"), TextOrder::Less);
}
