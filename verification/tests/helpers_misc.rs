//! Check helpers: weight names, designer-name normalization, article
//! image requirements, and path grouping keys.

use fontspector::helpers::{
    css_weight_name, gf_api_weight_name, image_requirements, normalize_designer_name,
    static_weight_expectation,
};
use fontspector::scheduler::{group_key, parent_of};

#[test]
fn catalog_weight_names_cover_the_table() {
    assert_eq!(gf_api_weight_name(100), "Thin");
    assert_eq!(gf_api_weight_name(200), "ExtraLight");
    assert_eq!(gf_api_weight_name(250), "Thin");
    assert_eq!(gf_api_weight_name(275), "ExtraLight");
    assert_eq!(gf_api_weight_name(300), "Light");
    assert_eq!(gf_api_weight_name(400), "Regular");
    assert_eq!(gf_api_weight_name(500), "Medium");
    assert_eq!(gf_api_weight_name(600), "SemiBold");
    assert_eq!(gf_api_weight_name(700), "Bold");
    assert_eq!(gf_api_weight_name(800), "ExtraBold");
    assert_eq!(gf_api_weight_name(900), "Black");
    assert_eq!(gf_api_weight_name(450), "bad value");
}

#[test]
fn css_weight_names_have_no_legacy_values() {
    assert_eq!(css_weight_name(100), "Thin");
    assert_eq!(css_weight_name(250), "bad value");
    assert_eq!(css_weight_name(275), "bad value");
    assert_eq!(css_weight_name(900), "Black");
    assert_eq!(css_weight_name(0), "bad value");
}

#[test]
fn static_weight_expectation_rewrites_legacy_values() {
    let (w, why) = static_weight_expectation(250);
    assert_eq!(w, 100);
    assert_eq!(why, "100, corresponding to CSS weight name 'Thin'");
    let (w, why) = static_weight_expectation(275);
    assert_eq!(w, 200);
    assert_eq!(why, "200, corresponding to CSS weight name 'ExtraLight'");
    let (w, why) = static_weight_expectation(400);
    assert_eq!(w, 400);
    assert_eq!(why, "the same");
}

#[test]
fn image_requirements_by_extension() {
    assert_eq!(image_requirements("svg"), Some((2048, 1024, "vector", 1792000)));
    assert_eq!(image_requirements("png"), Some((2048, 1024, "raster", 819200)));
    assert_eq!(image_requirements("jpg"), Some((2048, 1024, "raster", 819200)));
    assert_eq!(image_requirements("jpeg"), Some((2048, 1024, "raster", 819200)));
    assert_eq!(image_requirements("jxl"), Some((2048, 1024, "raster", 819200)));
    assert_eq!(image_requirements("gif"), Some((2048, 1024, "raster", 819200)));
    assert_eq!(image_requirements("webm"), None);
    assert_eq!(image_requirements(""), None);
}

#[test]
fn designer_names_normalize_for_catalog_lookup() {
    assert_eq!(normalize_designer_name("Multiple Designers"), "multipledesigners");
    assert_eq!(normalize_designer_name("Sorkin Type"), "sorkintype");
    assert_eq!(normalize_designer_name("Søren Müller"), "sorenmuller");
    assert_eq!(normalize_designer_name("José María"), "josemaria");
    // only the first character of a multi-character replacement
    // survives the per-character mapping
    assert_eq!(normalize_designer_name("Straße"), "strase");
    // the capital form of an accented letter is not in the table and
    // is dropped, like any other unmapped character
    assert_eq!(normalize_designer_name("Łukasz ńřś"), "ukasznrs");
    assert_eq!(normalize_designer_name("łukasz"), "lukasz");
    assert_eq!(normalize_designer_name("A-1 & Co."), "a1co");
    assert_eq!(normalize_designer_name(""), "");
}

#[test]
fn path_parents_and_group_keys() {
    assert_eq!(parent_of("a/b/c.ttf"), "a/b");
    assert_eq!(parent_of("c.ttf"), "");
    assert_eq!(parent_of("/c.ttf"), "");
    assert_eq!(group_key("repo/fam/Font.ttf"), "repo/fam");
    assert_eq!(group_key("repo/fam/article/img.png"), "repo/fam");
    assert_eq!(group_key("article/img.png"), "");
    assert_eq!(group_key("repo/particle/img.png"), "repo/particle");
}
