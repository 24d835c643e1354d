//! The severity model: ordering, names, and worst-severity
//! aggregation.

use fontspector::{CheckResult, Status, StatusCode};

fn outcome_with(severities: &[StatusCode]) -> CheckResult {
    let mut subresults = Vec::new();
    for sc in severities {
        let mut s = Status::pass();
        s.severity = *sc;
        subresults.push(s);
    }
    CheckResult {
        check_id: "t".to_string(),
        section: None,
        filename: None,
        time_micros: 0,
        subresults,
        hotfix_result: None,
    }
}

#[test]
fn aggregate_of_empty_list_is_pass() {
    let r = outcome_with(&[]);
    assert_eq!(r.worst_status(), StatusCode::Pass);
}

#[test]
fn aggregate_is_max_severity_present() {
    assert_eq!(outcome_with(&[StatusCode::Skip]).worst_status(), StatusCode::Skip);
    assert_eq!(
        outcome_with(&[StatusCode::Skip, StatusCode::Skip]).worst_status(),
        StatusCode::Skip
    );
    assert_eq!(
        outcome_with(&[StatusCode::Pass, StatusCode::Info]).worst_status(),
        StatusCode::Info
    );
    assert_eq!(
        outcome_with(&[StatusCode::Info, StatusCode::Warn, StatusCode::Pass]).worst_status(),
        StatusCode::Warn
    );
    assert_eq!(
        outcome_with(&[StatusCode::Warn, StatusCode::Fail, StatusCode::Info]).worst_status(),
        StatusCode::Fail
    );
    assert_eq!(
        outcome_with(&[StatusCode::Fail, StatusCode::Error, StatusCode::Skip]).worst_status(),
        StatusCode::Error
    );
    assert_eq!(
        outcome_with(&[StatusCode::Error, StatusCode::Pass]).worst_status(),
        StatusCode::Error
    );
}

#[test]
fn severity_order_is_total() {
    let ranked = [
        StatusCode::Skip,
        StatusCode::Pass,
        StatusCode::Info,
        StatusCode::Warn,
        StatusCode::Fail,
        StatusCode::Error,
    ];
    for i in 0..ranked.len() {
        for j in 0..ranked.len() {
            assert_eq!(ranked[i] < ranked[j], i < j);
            assert_eq!(ranked[i] >= ranked[j], i >= j);
        }
        assert_eq!(ranked[i].rank() as usize, i);
    }
}

#[test]
fn all_status_codes_in_selection_order() {
    let all = StatusCode::all();
    assert_eq!(
        all,
        vec![
            StatusCode::Skip,
            StatusCode::Info,
            StatusCode::Pass,
            StatusCode::Warn,
            StatusCode::Fail,
            StatusCode::Error,
        ]
    );
}

#[test]
fn from_string_maps_severity_names() {
    assert_eq!(StatusCode::from_string("SKIP"), Some(StatusCode::Skip));
    assert_eq!(StatusCode::from_string("PASS"), Some(StatusCode::Pass));
    assert_eq!(StatusCode::from_string("INFO"), Some(StatusCode::Info));
    assert_eq!(StatusCode::from_string("WARN"), Some(StatusCode::Warn));
    assert_eq!(StatusCode::from_string("FAIL"), Some(StatusCode::Fail));
    assert_eq!(StatusCode::from_string("ERROR"), Some(StatusCode::Error));
    assert_eq!(StatusCode::from_string("fail"), None);
    assert_eq!(StatusCode::from_string("FATAL"), None);
    assert_eq!(StatusCode::from_string(""), None);
}

#[test]
fn as_str_names_severities() {
    assert_eq!(StatusCode::Pass.as_str(), "PASS");
    assert_eq!(StatusCode::Error.as_str(), "ERROR");
    assert_eq!(StatusCode::from_string(StatusCode::Warn.as_str()), Some(StatusCode::Warn));
}

#[test]
fn status_constructors_set_fields() {
    let p = Status::pass();
    assert_eq!(p.severity, StatusCode::Pass);
    assert!(p.code.is_none());
    assert!(p.message.is_none());

    let f = Status::fail("bad-x", "something is wrong");
    assert_eq!(f.severity, StatusCode::Fail);
    assert_eq!(f.code.as_deref(), Some("bad-x"));
    assert_eq!(f.message.as_deref(), Some("something is wrong"));

    let e = Status::error(None, "boom");
    assert_eq!(e.severity, StatusCode::Error);
    assert!(e.code.is_none());

    let s = Status::skip("no-table", "missing table");
    assert_eq!(s.severity, StatusCode::Skip);

    let w = Status::warn("w", "warned");
    assert_eq!(w.severity, StatusCode::Warn);

    let i = Status::info("i", "informed");
    assert_eq!(i.severity, StatusCode::Info);
}
