//! The result collection: aggregate severity, summary and grouping.

use fontspector::{CheckResult, CsvReporter, RunResults, Status, StatusCode};

fn result(
    check_id: &str,
    section: Option<&str>,
    filename: Option<&str>,
    severities: &[StatusCode],
) -> CheckResult {
    CheckResult {
        check_id: check_id.to_string(),
        section: section.map(|s| s.to_string()),
        filename: filename.map(|s| s.to_string()),
        time_micros: 0,
        subresults: severities
            .iter()
            .map(|sc| {
                let mut s = Status::pass();
                s.severity = *sc;
                s
            })
            .collect(),
        hotfix_result: None,
    }
}

#[test]
fn worst_status_over_results_is_the_overall_outcome() {
    let rr = RunResults::new(vec![
        result("a", None, None, &[StatusCode::Pass]),
        result("b", None, None, &[StatusCode::Warn, StatusCode::Info]),
        result("c", None, None, &[]),
    ]);
    assert_eq!(rr.worst_status(), StatusCode::Warn);
    let empty = RunResults::new(vec![]);
    assert_eq!(empty.worst_status(), StatusCode::Pass);
}

#[test]
fn summary_counts_subresults_by_severity_in_rank_order() {
    let rr = RunResults::new(vec![
        result("a", None, None, &[StatusCode::Pass, StatusCode::Fail]),
        result("b", None, None, &[StatusCode::Fail, StatusCode::Warn, StatusCode::Fail]),
    ]);
    let summary = rr.summary();
    assert_eq!(
        summary,
        vec![
            (StatusCode::Pass, 1u64),
            (StatusCode::Warn, 1u64),
            (StatusCode::Fail, 3u64),
        ]
    );
    assert_eq!(rr.len(), 2);
}

#[test]
fn organize_groups_by_file_then_section() {
    let rr = RunResults::new(vec![
        result("a", Some("S1"), Some("x.ttf"), &[StatusCode::Pass]),
        result("b", Some("S2"), Some("x.ttf"), &[StatusCode::Fail]),
        result("c", Some("S1"), Some("y.ttf"), &[StatusCode::Warn]),
        result("d", None, None, &[StatusCode::Info]),
        result("e", Some("S1"), Some("x.ttf"), &[StatusCode::Skip]),
    ]);
    let organized = rr.organize();
    assert_eq!(organized.len(), 3);
    assert_eq!(organized[0].0, "x.ttf");
    assert_eq!(organized[1].0, "y.ttf");
    assert_eq!(organized[2].0, "All fonts");
    let x_sections = &organized[0].1;
    assert_eq!(x_sections.len(), 2);
    assert_eq!(x_sections[0].0, "S1");
    let ids: Vec<_> = x_sections[0].1.iter().map(|r| r.check_id.clone()).collect();
    assert_eq!(ids, vec!["a".to_string(), "e".to_string()]);
    assert_eq!(x_sections[1].0, "S2");
    assert_eq!(organized[2].1[0].0, "No section");
    assert_eq!(organized[2].1[0].1[0].check_id, "d");
}

#[test]
fn iter_and_iter_mut_expose_the_results() {
    let mut rr = RunResults::new(vec![result("a", None, None, &[StatusCode::Pass])]);
    assert_eq!(rr.iter().len(), 1);
    assert_eq!(rr.iter()[0].check_id, "a");
    rr.iter_mut()[0].time_micros = 42;
    assert_eq!(rr.iter()[0].time_micros, 42);
    let from_vec: RunResults = vec![result("z", None, None, &[])].into();
    assert_eq!(from_vec.len(), 1);
}

#[test]
fn csv_reporter_remembers_its_target() {
    let reporter = CsvReporter::new("out/report.csv");
    assert_eq!(reporter.filename, "out/report.csv");
}
