//! Severity overrides: matching by code, first-match-wins, and
//! reading overrides out of the run configuration.

use fontspector::{ConfigValue, Override, Status, StatusCode};
use fontspector::config::load_overrides;

#[test]
fn override_with_matching_code_remaps_severity_and_annotates() {
    let mut s = Status::fail("bad-x", "glyph is broken");
    let ovs = vec![Override::new("bad-x", StatusCode::Info, "known issue")];
    s.process_override(&ovs);
    assert_eq!(s.severity, StatusCode::Info);
    let message = s.message.as_deref().unwrap();
    assert_eq!(message, "glyph is broken (Overridden: known issue)");
    assert_eq!(s.code.as_deref(), Some("bad-x"));
}

#[test]
fn override_with_different_code_is_a_no_op() {
    let mut s = Status::fail("bad-x", "glyph is broken");
    let ovs = vec![Override::new("bad-y", StatusCode::Info, "known issue")];
    s.process_override(&ovs);
    assert_eq!(s.severity, StatusCode::Fail);
    assert_eq!(s.message.as_deref(), Some("glyph is broken"));
}

#[test]
fn override_without_subresult_code_is_a_no_op() {
    let mut s = Status::pass();
    let ovs = vec![Override::new("bad-x", StatusCode::Error, "never")];
    s.process_override(&ovs);
    assert_eq!(s.severity, StatusCode::Pass);
    assert!(s.message.is_none());
}

#[test]
fn first_matching_override_wins() {
    let mut s = Status::fail("bad-x", "m");
    let ovs = vec![
        Override::new("bad-x", StatusCode::Warn, "first"),
        Override::new("bad-x", StatusCode::Error, "second"),
    ];
    s.process_override(&ovs);
    assert_eq!(s.severity, StatusCode::Warn);
    assert_eq!(s.message.as_deref(), Some("m (Overridden: first)"));
}

#[test]
fn override_of_message_free_subresult_names_the_absence() {
    let mut s = Status::pass();
    s.code = Some("quiet".to_string());
    let ovs = vec![Override::new("quiet", StatusCode::Warn, "still noted")];
    s.process_override(&ovs);
    assert_eq!(s.severity, StatusCode::Warn);
    assert_eq!(
        s.message.as_deref(),
        Some("No original message (Overridden: still noted)")
    );
}

fn override_entry(code: &str, status: &str, reason: &str) -> ConfigValue {
    ConfigValue::Object(vec![
        ("code".to_string(), ConfigValue::Str(code.to_string())),
        ("status".to_string(), ConfigValue::Str(status.to_string())),
        ("reason".to_string(), ConfigValue::Str(reason.to_string())),
    ])
}

#[test]
fn load_overrides_reads_the_reserved_key() {
    let config = vec![
        ("other".to_string(), ConfigValue::Bool(true)),
        (
            "overrides".to_string(),
            ConfigValue::List(vec![
                override_entry("bad-x", "INFO", "known issue"),
                override_entry("bad-y", "WARN", "meh"),
            ]),
        ),
    ];
    let ovs = load_overrides(&config);
    assert_eq!(ovs.len(), 2);
    assert_eq!(ovs[0].code, "bad-x");
    assert_eq!(ovs[0].status, StatusCode::Info);
    assert_eq!(ovs[0].reason, "known issue");
    assert_eq!(ovs[1].code, "bad-y");
    assert_eq!(ovs[1].status, StatusCode::Warn);
}

#[test]
fn load_overrides_skips_malformed_entries() {
    let config = vec![(
        "overrides".to_string(),
        ConfigValue::List(vec![
            // not an object at all
            ConfigValue::Str("nope".to_string()),
            // missing reason
            ConfigValue::Object(vec![
                ("code".to_string(), ConfigValue::Str("a".to_string())),
                ("status".to_string(), ConfigValue::Str("FAIL".to_string())),
            ]),
            // status is not a severity name
            override_entry("b", "SEVERE", "r"),
            // status has the wrong case
            override_entry("c", "warn", "r"),
            // the only well-formed entry
            override_entry("good", "ERROR", "kept"),
            // code is not a string
            ConfigValue::Object(vec![
                ("code".to_string(), ConfigValue::Num("7".to_string())),
                ("status".to_string(), ConfigValue::Str("FAIL".to_string())),
                ("reason".to_string(), ConfigValue::Str("r".to_string())),
            ]),
        ]),
    )];
    let ovs = load_overrides(&config);
    assert_eq!(ovs.len(), 1);
    assert_eq!(ovs[0].code, "good");
    assert_eq!(ovs[0].status, StatusCode::Error);
    assert_eq!(ovs[0].reason, "kept");
}

#[test]
fn load_overrides_without_the_key_or_with_a_non_list_is_empty() {
    let empty: Vec<(String, ConfigValue)> = vec![];
    assert!(load_overrides(&empty).is_empty());
    let not_a_list = vec![("overrides".to_string(), ConfigValue::Bool(true))];
    assert!(load_overrides(&not_a_list).is_empty());
}
