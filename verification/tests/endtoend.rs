//! End-to-end scenarios: a run that fails, the same run overridden to
//! an acceptable severity, and a remediation pass over one file.

use fontspector::config::load_overrides;
use fontspector::remediation::{plan_fixes, record_fix_results};
use fontspector::{
    Applicability, Check, CheckResult, ConfigValue, Context, FixResult, ProfileBuilder, Registry,
    RunResults, Status, StatusCode, Testable, TestableType,
};

fn one_check_universal() -> Registry {
    let mut registry = Registry::new();
    ProfileBuilder::new()
        .add_section("Universal")
        .add_and_register_check(Check::new(
            "acme/x-integrity",
            "x must be sound",
            "",
            "",
            Applicability::CheckOne,
        ))
        .build("universal", &mut registry)
        .unwrap();
    registry
}

#[test]
fn failing_run_turns_acceptable_under_a_user_override() {
    let registry = one_check_universal();
    let testables = vec![TestableType::Single(Testable {
        filename: "Font.ttf".to_string(),
        contents: vec![],
    })];
    let profile = registry.get_profile("universal").unwrap();
    let threshold = StatusCode::Fail;

    // no overrides: the single Fail subresult fails the run
    let base = Context::new(false, Some(10), false);
    let order = profile.check_order(&vec![], &vec![], &registry, &base, &vec![], &testables);
    assert_eq!(order.len(), 1);
    let unit = &order[0];
    let check = registry.get_check(&unit.check_id).unwrap();
    let eval = Ok(vec![Status::fail("bad-x", "x is unsound")]);
    let outcome = check.outcome(
        &unit.section,
        Some("Font.ttf".to_string()),
        eval,
        &unit.context,
        17,
    );
    assert_eq!(outcome.check_id, "acme/x-integrity");
    assert_eq!(outcome.section.as_deref(), Some("Universal"));
    let results = RunResults::new(vec![outcome]);
    assert_eq!(results.worst_status(), StatusCode::Fail);
    assert!(results.worst_status() >= threshold, "the run must fail");

    // the same run with a user override mapping bad-x to INFO passes
    let config = vec![(
        "overrides".to_string(),
        ConfigValue::List(vec![ConfigValue::Object(vec![
            ("code".to_string(), ConfigValue::Str("bad-x".to_string())),
            ("status".to_string(), ConfigValue::Str("INFO".to_string())),
            ("reason".to_string(), ConfigValue::Str("known issue".to_string())),
        ])]),
    )];
    let mut overridden = Context::new(false, Some(10), false);
    overridden.overrides = load_overrides(&config);
    let order2 = profile.check_order(
        &vec![],
        &vec![],
        &registry,
        &overridden,
        &config,
        &testables,
    );
    let unit2 = &order2[0];
    let eval2 = Ok(vec![Status::fail("bad-x", "x is unsound")]);
    let outcome2 = check.outcome(
        &unit2.section,
        Some("Font.ttf".to_string()),
        eval2,
        &unit2.context,
        17,
    );
    assert_eq!(outcome2.subresults[0].severity, StatusCode::Info);
    assert_eq!(
        outcome2.subresults[0].message.as_deref(),
        Some("x is unsound (Overridden: known issue)")
    );
    let results2 = RunResults::new(vec![outcome2]);
    assert_eq!(results2.worst_status(), StatusCode::Info);
    assert!(results2.worst_status() < threshold, "the run must pass");
}

#[test]
fn remediation_saves_the_file_once_and_records_both_outcomes() {
    // two checks with remediation functions both target file F; the
    // first fix errors, the second succeeds and reports a mutation
    let mut registry = Registry::new();
    ProfileBuilder::new()
        .add_section("Fixing")
        .add_and_register_check(
            Check::new("fix/first", "first fixable", "", "", Applicability::CheckOne)
                .with_hotfix(),
        )
        .add_and_register_check(
            Check::new("fix/second", "second fixable", "", "", Applicability::CheckOne)
                .with_hotfix(),
        )
        .build("fixers", &mut registry)
        .unwrap();

    let failing = |check_id: &str| CheckResult {
        check_id: check_id.to_string(),
        section: Some("Fixing".to_string()),
        filename: Some("F.ttf".to_string()),
        time_micros: 0,
        subresults: vec![Status::fail("broken", "needs fixing")],
        hotfix_result: None,
    };
    let mut results = vec![failing("fix/first"), failing("fix/second")];

    let plan = plan_fixes(&results, &registry, true);
    assert_eq!(plan.len(), 1, "both outcomes target one file");
    assert_eq!(plan[0].filename, "F.ttf");
    assert_eq!(plan[0].indices, vec![0, 1]);

    // the surrounding application loads F once per group, runs each
    // fix in order, and saves once when any fix reported a mutation
    let mut saves = 0;
    for group in &plan {
        let outcomes: Vec<Result<bool, String>> =
            vec![Err("first fix exploded".to_string()), Ok(true)];
        let modified = record_fix_results(&mut results, &group.indices, &outcomes);
        if modified {
            saves += 1;
        }
    }
    assert_eq!(saves, 1, "the file is persisted exactly once");
    match &results[0].hotfix_result {
        Some(FixResult::FixError(e)) => assert_eq!(e, "first fix exploded"),
        other => panic!("expected a recorded fix error, got {:?}", other.is_some()),
    }
    match &results[1].hotfix_result {
        Some(FixResult::Fixed) => {}
        _ => panic!("expected the second outcome to be marked fixed"),
    }
}

#[test]
fn remediation_skips_ineligible_results() {
    let mut registry = Registry::new();
    ProfileBuilder::new()
        .add_section("S")
        .add_and_register_check(
            Check::new("fix/a", "fixable", "", "", Applicability::CheckOne).with_hotfix(),
        )
        .add_and_register_check(Check::new("plain/b", "not fixable", "", "", Applicability::CheckOne))
        .build("p", &mut registry)
        .unwrap();
    let make = |id: &str, filename: Option<&str>, sev: StatusCode| CheckResult {
        check_id: id.to_string(),
        section: None,
        filename: filename.map(|f| f.to_string()),
        time_micros: 0,
        subresults: vec![{
            let mut s = Status::pass();
            s.severity = sev;
            s
        }],
        hotfix_result: None,
    };
    let results = vec![
        // eligible
        make("fix/a", Some("F.ttf"), StatusCode::Fail),
        // not failing
        make("fix/a", Some("F.ttf"), StatusCode::Warn),
        // no backing file
        make("fix/a", None, StatusCode::Fail),
        // its check has no remediation
        make("plain/b", Some("F.ttf"), StatusCode::Error),
        // unknown check
        make("ghost/c", Some("F.ttf"), StatusCode::Fail),
    ];
    let plan = plan_fixes(&results, &registry, true);
    assert_eq!(plan.len(), 1);
    assert_eq!(plan[0].indices, vec![0]);
    // and nothing is planned when remediation was not requested
    assert!(plan_fixes(&results, &registry, false).is_empty());
}
