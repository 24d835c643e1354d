//! Profile composition: inclusion, exclusion, sections, overrides and
//! registration.

use fontspector::{
    Adobe, Applicability, Check, Iso15008, Microsoft, Override, Plugin, ProfileBuilder, Registry,
    StatusCode,
};

fn check(id: &str) -> Check {
    Check::new(id, "a test check", "", "", Applicability::CheckOne)
}

fn registry_with_universal() -> Registry {
    let mut registry = Registry::new();
    ProfileBuilder::new()
        .add_section("Universal Checks")
        .add_and_register_check(check("u/alpha"))
        .add_and_register_check(check("u/beta"))
        .build("universal", &mut registry)
        .unwrap();
    registry
}

fn count_placements(registry: &Registry, profile: &str, id: &str) -> usize {
    let p = registry.get_profile(profile).unwrap();
    p.placements.iter().filter(|pl| pl.1 == id).count()
}

#[test]
fn including_the_same_profile_twice_directly_yields_no_duplicates() {
    let mut registry = registry_with_universal();
    ProfileBuilder::new()
        .include_profile("universal")
        .include_profile("universal")
        .build("doubled", &mut registry)
        .unwrap();
    assert_eq!(count_placements(&registry, "doubled", "u/alpha"), 1);
    assert_eq!(count_placements(&registry, "doubled", "u/beta"), 1);
}

#[test]
fn including_the_same_profile_transitively_yields_no_duplicates() {
    let mut registry = registry_with_universal();
    // mid includes universal; top includes both universal and mid, so
    // universal's checks arrive twice, once directly and once
    // transitively.
    ProfileBuilder::new()
        .include_profile("universal")
        .add_section("Mid Checks")
        .add_and_register_check(check("mid/gamma"))
        .build("mid", &mut registry)
        .unwrap();
    ProfileBuilder::new()
        .include_profile("universal")
        .include_profile("mid")
        .build("top", &mut registry)
        .unwrap();
    assert_eq!(count_placements(&registry, "top", "u/alpha"), 1);
    assert_eq!(count_placements(&registry, "top", "u/beta"), 1);
    assert_eq!(count_placements(&registry, "top", "mid/gamma"), 1);
    // and every id sits in the section it came from
    let top = registry.get_profile("top").unwrap();
    assert!(top
        .placements
        .iter()
        .any(|pl| pl.0 == "Universal Checks" && pl.1 == "u/alpha"));
    assert!(top
        .placements
        .iter()
        .any(|pl| pl.0 == "Mid Checks" && pl.1 == "mid/gamma"));
}

#[test]
fn exclude_check_removes_the_id_however_it_arrived() {
    let mut registry = registry_with_universal();
    ProfileBuilder::new()
        .include_profile("universal")
        .include_profile("universal")
        .exclude_check("u/alpha")
        .build("trimmed", &mut registry)
        .unwrap();
    let trimmed = registry.get_profile("trimmed").unwrap();
    assert!(!trimmed.is_resolved("u/alpha"));
    assert!(!trimmed.contains_check("u/alpha"));
    assert!(trimmed.is_resolved("u/beta"));
}

#[test]
fn later_inclusion_does_not_resurrect_an_inherited_exclusion() {
    let mut registry = registry_with_universal();
    ProfileBuilder::new()
        .include_profile("universal")
        .exclude_check("u/alpha")
        .build("strict", &mut registry)
        .unwrap();
    // descendant includes strict, which excludes u/alpha; including
    // universal afterwards brings u/alpha's placement back in, but the
    // inherited exclusion keeps it out of the resolved set.
    ProfileBuilder::new()
        .include_profile("strict")
        .include_profile("universal")
        .build("descendant", &mut registry)
        .unwrap();
    let descendant = registry.get_profile("descendant").unwrap();
    assert!(!descendant.is_resolved("u/alpha"));
    assert!(descendant.is_resolved("u/beta"));
}

#[test]
fn conflicting_section_placement_fails_the_build() {
    let mut registry = Registry::new();
    ProfileBuilder::new()
        .add_section("Here")
        .add_and_register_check(check("shared/x"))
        .build("first", &mut registry)
        .unwrap();
    ProfileBuilder::new()
        .add_section("Elsewhere")
        .add_and_register_check(check("shared/x"))
        .build("second", &mut registry)
        .unwrap();
    let r = ProfileBuilder::new()
        .include_profile("first")
        .include_profile("second")
        .build("both", &mut registry);
    assert!(r.is_err());
    assert!(registry.get_profile("both").is_none());
}

#[test]
fn duplicate_profile_name_fails_registration() {
    let mut registry = registry_with_universal();
    let r = ProfileBuilder::new()
        .add_section("Anything")
        .build("universal", &mut registry);
    assert!(r.is_err());
}

#[test]
fn unresolvable_inclusion_fails_the_build() {
    let mut registry = Registry::new();
    let r = ProfileBuilder::new()
        .include_profile("nowhere")
        .build("orphan", &mut registry);
    assert!(r.is_err());
    assert!(registry.get_profile("orphan").is_none());
}

#[test]
fn adding_a_check_without_an_open_section_fails_the_build() {
    let mut registry = Registry::new();
    let r = ProfileBuilder::new()
        .add_and_register_check(check("lost/x"))
        .build("lost", &mut registry);
    assert!(r.is_err());
}

#[test]
fn adding_the_same_check_id_twice_fails_the_build() {
    let mut registry = Registry::new();
    let r = ProfileBuilder::new()
        .add_section("S")
        .add_and_register_check(check("dup/x"))
        .add_and_register_check(check("dup/x"))
        .build("dups", &mut registry);
    assert!(r.is_err());
}

#[test]
fn with_overrides_accumulates_per_check_defaults() {
    let mut registry = registry_with_universal();
    ProfileBuilder::new()
        .include_profile("universal")
        .with_overrides(
            "u/alpha",
            vec![Override::new("code-1", StatusCode::Warn, "first batch")],
        )
        .with_overrides(
            "u/alpha",
            vec![Override::new("code-2", StatusCode::Info, "second batch")],
        )
        .build("tuned", &mut registry)
        .unwrap();
    let tuned = registry.get_profile("tuned").unwrap();
    let defaults = tuned.defaults_for("u/alpha");
    assert_eq!(defaults.len(), 2);
    assert_eq!(defaults[0].code, "code-1");
    assert_eq!(defaults[1].code, "code-2");
    assert!(tuned.defaults_for("u/beta").is_empty());
}

#[test]
fn sections_derive_from_placements_in_order() {
    let mut registry = registry_with_universal();
    ProfileBuilder::new()
        .include_profile("universal")
        .add_section("Extra Checks")
        .add_and_register_check(check("x/one"))
        .add_and_register_check(check("x/two"))
        .build("layered", &mut registry)
        .unwrap();
    let layered = registry.get_profile("layered").unwrap();
    let sections = layered.sections();
    assert_eq!(sections.len(), 2);
    assert_eq!(sections[0].name, "Universal Checks");
    assert_eq!(sections[0].checks, vec!["u/alpha".to_string(), "u/beta".to_string()]);
    assert_eq!(sections[1].name, "Extra Checks");
    assert_eq!(sections[1].checks, vec!["x/one".to_string(), "x/two".to_string()]);
}

#[test]
fn registered_checks_are_findable_and_classified() {
    let mut registry = Registry::new();
    let exp = Check::new("exp/y", "experimental", "", "", Applicability::CheckOne)
        .as_experimental();
    ProfileBuilder::new()
        .add_section("S")
        .add_and_register_check(check("plain/x"))
        .add_and_register_check(exp)
        .build("p", &mut registry)
        .unwrap();
    assert!(registry.get_check("plain/x").is_some());
    assert!(!registry.is_experimental("plain/x"));
    assert!(registry.is_experimental("exp/y"));
    assert!(!registry.is_experimental("missing/z"));
}

#[test]
fn plugins_register_their_profiles_on_top_of_universal() {
    let mut registry = registry_with_universal();
    Adobe.register(&mut registry).unwrap();
    Iso15008.register(&mut registry).unwrap();
    Microsoft.register(&mut registry).unwrap();
    let adobe = registry.get_profile("adobefonts").unwrap();
    assert!(adobe.contains_check("adobefonts/unsupported_tables"));
    assert!(adobe.contains_check("u/alpha"));
    assert!(registry.get_profile("iso15008").unwrap().contains_check("iso15008/stem_width"));
    assert!(registry
        .get_profile("microsoft")
        .unwrap()
        .contains_check("microsoft/copyright"));
    // without universal registered, a plugin's registration fails and
    // leaves the registry without its profile
    let mut bare = Registry::new();
    assert!(Adobe.register(&mut bare).is_err());
    assert!(bare.get_profile("adobefonts").is_none());
}
