//! Work-list resolution and input grouping.

use fontspector::{
    Applicability, Check, Context, Override, ProfileBuilder, Registry, StatusCode, Testable,
    TestableCollection, TestableType,
};
use fontspector::scheduler::group_inputs;

fn single(name: &str) -> TestableType {
    TestableType::Single(Testable { filename: name.to_string(), contents: vec![] })
}

fn group(dir: &str, names: &[&str]) -> TestableType {
    TestableType::Collection(TestableCollection {
        directory: dir.to_string(),
        testables: names
            .iter()
            .map(|n| Testable { filename: n.to_string(), contents: vec![] })
            .collect(),
    })
}

fn setup() -> Registry {
    let mut registry = Registry::new();
    ProfileBuilder::new()
        .add_section("Per File")
        .add_and_register_check(Check::new("one/a", "per-file a", "", "", Applicability::CheckOne))
        .add_and_register_check(Check::new("one/b", "per-file b", "", "", Applicability::CheckOne))
        .add_section("Per Family")
        .add_and_register_check(Check::new("all/c", "per-group c", "", "", Applicability::CheckAll))
        .build("p", &mut registry)
        .unwrap();
    registry
}

#[test]
fn work_list_length_counts_files_for_per_file_and_groups_for_per_group_checks() {
    let registry = setup();
    let testables = vec![
        single("fam/A.ttf"),
        single("fam/B.ttf"),
        group("fam", &["fam/A.ttf", "fam/B.ttf"]),
    ];
    let profile = registry.get_profile("p").unwrap();
    let order = profile.check_order(
        &vec![],
        &vec![],
        &registry,
        &Context::new(false, Some(10), false),
        &vec![],
        &testables,
    );
    // two per-file checks x two files, plus one per-group check x one
    // group: the group's two members are never counted individually.
    assert_eq!(order.len(), 2 * 2 + 1);
    let per_group: Vec<_> = order.iter().filter(|u| u.check_id == "all/c").collect();
    assert_eq!(per_group.len(), 1);
    assert_eq!(per_group[0].testable, 2);
    assert_eq!(per_group[0].section, "Per Family");
}

#[test]
fn work_list_is_ordered_by_section_then_placement_then_artifact() {
    let registry = setup();
    let testables = vec![single("x.ttf"), single("y.ttf"), group("d", &[])];
    let profile = registry.get_profile("p").unwrap();
    let order = profile.check_order(
        &vec![],
        &vec![],
        &registry,
        &Context::new(false, None, false),
        &vec![],
        &testables,
    );
    let summary: Vec<(String, usize)> = order
        .iter()
        .map(|u| (u.check_id.clone(), u.testable))
        .collect();
    assert_eq!(
        summary,
        vec![
            ("one/a".to_string(), 0),
            ("one/a".to_string(), 1),
            ("one/b".to_string(), 0),
            ("one/b".to_string(), 1),
            ("all/c".to_string(), 2),
        ]
    );
}

#[test]
fn filters_select_and_drop_check_ids() {
    let registry = setup();
    let testables = vec![single("x.ttf")];
    let profile = registry.get_profile("p").unwrap();
    let ctx = Context::new(false, None, false);
    let kept = profile.check_order(
        &vec!["one/b".to_string()],
        &vec![],
        &registry,
        &ctx,
        &vec![],
        &testables,
    );
    assert_eq!(kept.len(), 1);
    assert_eq!(kept[0].check_id, "one/b");
    let dropped = profile.check_order(
        &vec![],
        &vec!["one/a".to_string()],
        &registry,
        &ctx,
        &vec![],
        &testables,
    );
    assert!(dropped.iter().all(|u| u.check_id != "one/a"));
    assert_eq!(dropped.len(), 1);
}

#[test]
fn profile_exclusions_and_unknown_checks_generate_no_units() {
    let registry = setup();
    // a hand-built profile that excludes one/b and places a check the
    // registry does not know
    let profile = fontspector::Profile {
        section_order: vec!["Per File".to_string()],
        placements: vec![
            ("Per File".to_string(), "one/a".to_string()),
            ("Per File".to_string(), "one/b".to_string()),
            ("Per File".to_string(), "ghost/z".to_string()),
        ],
        exclusions: vec!["one/b".to_string()],
        defaults: vec![],
    };
    let testables = vec![single("x.ttf")];
    let order = profile.check_order(
        &vec![],
        &vec![],
        &registry,
        &Context::new(false, None, false),
        &vec![],
        &testables,
    );
    let ids: Vec<_> = order.iter().map(|u| u.check_id.clone()).collect();
    assert_eq!(ids, vec!["one/a".to_string()]);
}

#[test]
fn unit_contexts_place_profile_defaults_before_user_overrides() {
    let mut registry = setup();
    ProfileBuilder::new()
        .include_profile("p")
        .with_overrides(
            "one/a",
            vec![Override::new("shared", StatusCode::Warn, "profile default")],
        )
        .build("tuned", &mut registry)
        .unwrap();
    let mut base = Context::new(true, Some(10), true);
    base.overrides = vec![Override::new("shared", StatusCode::Info, "user supplied")];
    let configuration = vec![];
    let testables = vec![single("x.ttf")];
    let profile = registry.get_profile("tuned").unwrap();
    let order = profile.check_order(
        &vec![],
        &vec![],
        &registry,
        &base,
        &configuration,
        &testables,
    );
    let unit_a = order.iter().find(|u| u.check_id == "one/a").unwrap();
    assert_eq!(unit_a.context.overrides.len(), 2);
    assert_eq!(unit_a.context.overrides[0].reason, "profile default");
    assert_eq!(unit_a.context.overrides[1].reason, "user supplied");
    assert!(unit_a.context.skip_network);
    assert_eq!(unit_a.context.network_timeout, Some(10));
    let unit_b = order.iter().find(|u| u.check_id == "one/b").unwrap();
    assert_eq!(unit_b.context.overrides.len(), 1);
    assert_eq!(unit_b.context.overrides[0].reason, "user supplied");
}

#[test]
fn group_inputs_groups_files_per_directory() {
    let paths = vec![
        "family/Font-Regular.ttf".to_string(),
        "family/Font-Bold.ttf".to_string(),
        "other/Second.ttf".to_string(),
        "family/Font-Italic.ttf".to_string(),
    ];
    let groups = group_inputs(&paths);
    assert_eq!(groups.len(), 2);
    assert_eq!(groups[0].0, "family");
    assert_eq!(
        groups[0].1,
        vec![
            "family/Font-Regular.ttf".to_string(),
            "family/Font-Bold.ttf".to_string(),
            "family/Font-Italic.ttf".to_string(),
        ]
    );
    assert_eq!(groups[1].0, "other");
    assert_eq!(groups[1].1, vec!["other/Second.ttf".to_string()]);
}

#[test]
fn group_inputs_collapses_article_subdirectories() {
    let paths = vec![
        "repo/family/Font.ttf".to_string(),
        "repo/family/article/ARTICLE.en_us.html".to_string(),
        "repo/family/article/hero.png".to_string(),
    ];
    let groups = group_inputs(&paths);
    assert_eq!(groups.len(), 1);
    assert_eq!(groups[0].0, "repo/family");
    assert_eq!(groups[0].1.len(), 3);
}

#[test]
fn group_inputs_without_separators_groups_under_the_empty_key() {
    let paths = vec!["Font.ttf".to_string()];
    let groups = group_inputs(&paths);
    assert_eq!(groups.len(), 1);
    assert_eq!(groups[0].0, "");
}
