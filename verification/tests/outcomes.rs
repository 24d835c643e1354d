//! Wrapping evaluation results into recorded outcomes: early errors,
//! early skips, and override application.

use fontspector::{Applicability, Check, CheckError, Context, Override, Status, StatusCode};

fn check() -> Check {
    Check::new("acme/x", "x", "", "", Applicability::CheckOne)
}

fn plain_context() -> Context {
    Context::new(false, None, false)
}

#[test]
fn an_early_error_becomes_a_single_error_subresult() {
    let outcome = check().outcome(
        "S",
        Some("f.ttf".to_string()),
        Err(CheckError::Error("the table could not be parsed".to_string())),
        &plain_context(),
        5,
    );
    assert_eq!(outcome.subresults.len(), 1);
    assert_eq!(outcome.subresults[0].severity, StatusCode::Error);
    assert_eq!(
        outcome.subresults[0].message.as_deref(),
        Some("the table could not be parsed")
    );
    assert!(outcome.subresults[0].code.is_none());
    assert_eq!(outcome.worst_status(), StatusCode::Error);
    assert_eq!(outcome.time_micros, 5);
    assert_eq!(outcome.filename.as_deref(), Some("f.ttf"));
    assert!(outcome.hotfix_result.is_none());
}

#[test]
fn an_early_skip_becomes_a_single_skip_subresult() {
    let outcome = check().outcome(
        "S",
        None,
        Err(CheckError::skip("no-stat", "No STAT table.")),
        &plain_context(),
        0,
    );
    assert_eq!(outcome.subresults.len(), 1);
    assert_eq!(outcome.subresults[0].severity, StatusCode::Skip);
    assert_eq!(outcome.subresults[0].code.as_deref(), Some("no-stat"));
    assert_eq!(outcome.subresults[0].message.as_deref(), Some("No STAT table."));
    assert_eq!(outcome.worst_status(), StatusCode::Skip);
}

#[test]
fn subresults_pass_through_with_overrides_applied() {
    let mut ctx = plain_context();
    ctx.overrides = vec![Override::new("late", StatusCode::Fail, "must not slip")];
    let eval = Ok(vec![
        Status::pass(),
        Status::warn("late", "delivered late"),
        Status::info("other", "fine"),
    ]);
    let outcome = check().outcome("S", None, eval, &ctx, 0);
    assert_eq!(outcome.subresults.len(), 3);
    assert_eq!(outcome.subresults[0].severity, StatusCode::Pass);
    assert_eq!(outcome.subresults[1].severity, StatusCode::Fail);
    assert_eq!(
        outcome.subresults[1].message.as_deref(),
        Some("delivered late (Overridden: must not slip)")
    );
    assert_eq!(outcome.subresults[2].severity, StatusCode::Info);
    assert_eq!(outcome.worst_status(), StatusCode::Fail);
}

#[test]
fn an_evaluation_without_subresults_aggregates_to_pass() {
    let outcome = check().outcome("S", None, Ok(vec![]), &plain_context(), 0);
    assert!(outcome.subresults.is_empty());
    assert_eq!(outcome.worst_status(), StatusCode::Pass);
}
