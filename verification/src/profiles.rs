//! The statically linked rule bundles: each registers its checks and
//! its composed profile on top of the `universal` profile.
//!
//! The evaluation functions of these checks parse font binaries and
//! live with the application; the engine registers their metadata and
//! schedules them.

use vstd::prelude::*;
use crate::builder::{benign_op, lemma_replay_fresh_bundle, BuilderOpView, ProfileBuilder};
use crate::check::{Applicability, Check};
use crate::profile::pv_has_id;
use crate::registry::{has_profile, profile_named, Plugin, Registry};
use crate::status::{Override, StatusCode};

verus! {

broadcast use vstd::string::group_string_axioms;

/// The check ids the Adobe bundle registers.
pub open spec fn adobe_check_id(id: Seq<char>) -> bool {
    ||| id == "adobefonts/family/consistent_upm"@
    ||| id == "adobefonts/nameid_1_win_english"@
    ||| id == "adobefonts/unsupported_tables"@
    ||| id == "adobefonts/STAT_strings"@
}

/// The Adobe Fonts rule bundle.
pub struct Adobe;

impl Plugin for Adobe {
    /// Register the Adobe checks and the `adobefonts` profile, which
    /// includes `universal`, suppresses a number of its checks and
    /// softens one whitespace rule.
    ///
    /// Registration succeeds whenever `universal` is registered, no
    /// profile is registered under `adobefonts` yet, and none of this
    /// bundle's check ids is already placed in `universal`.
    fn register(&self, cr: &mut Registry) -> (r: Result<(), String>)
        ensures
            r is Ok ==> has_profile(final(cr)@.profiles, "adobefonts"@),
            ({
                &&& has_profile(old(cr)@.profiles, "universal"@)
                &&& !has_profile(old(cr)@.profiles, "adobefonts"@)
                &&& forall|id: Seq<char>|
                    adobe_check_id(id) ==> !pv_has_id(
                        profile_named(old(cr)@.profiles, "universal"@),
                        id,
                    )
            }) ==> r is Ok,
    {
        let mut softer_whitespace: Vec<Override> = Vec::new();
        softer_whitespace.push(
            Override::new(
                "missing-whitespace-glyph-0x00A0",
                StatusCode::Warn,
                "For Adobe, this is not as severe as assessed in the original check for 0x00A0.",
            ),
        );
        let builder = ProfileBuilder::new().include_profile("universal").add_section(
            "Adobe Fonts Checks",
        ).add_and_register_check(
            Check::new(
                "adobefonts/family/consistent_upm",
                "Fonts have consistent Units Per Em?",
                "",
                "https://github.com/fonttools/fontbakery/issues/2372",
                Applicability::CheckAll,
            ),
        ).add_and_register_check(
            Check::new(
                "adobefonts/nameid_1_win_english",
                "Font has a good nameID 1, Windows/Unicode/US-English `name` table record?",
                "",
                "https://github.com/fonttools/fontbakery/issues/3714",
                Applicability::CheckOne,
            ),
        ).add_and_register_check(
            Check::new(
                "adobefonts/unsupported_tables",
                "Does the font have any unsupported tables?",
                "",
                "https://github.com/fonttools/fontbakery/pull/3870",
                Applicability::CheckOne,
            ),
        ).add_and_register_check(
            Check::new(
                "adobefonts/STAT_strings",
                "Check correctness of STAT table strings",
                "",
                "https://github.com/fonttools/fontbakery/issues/2863",
                Applicability::CheckOne,
            ),
        ).exclude_check("opentype/xavgcharwidth").exclude_check("designspace_has_consistent_codepoints").exclude_check("designspace_has_consistent_glyphset").exclude_check("designspace_has_consistent_groups").exclude_check("designspace_has_default_master").exclude_check("designspace_has_sources").exclude_check("name/no_copyright_on_description").exclude_check("ufolint").exclude_check("ufo_features_default_languagesystem").exclude_check("ufo_recommended_fields").exclude_check("ufo_required_fields").exclude_check("ufo_unnecessary_fields").exclude_check("STAT_strings").exclude_check("transformed_components").exclude_check("unreachable_glyphs").exclude_check("whitespace_ink").with_overrides("whitespace_glyphs", softer_whitespace);
        let ghost opsv = builder.ops.deep_view();
        let ghost profs = cr@.profiles;
        proof {
            reveal_strlit("adobefonts/family/consistent_upm");
            reveal_strlit("adobefonts/nameid_1_win_english");
            reveal_strlit("adobefonts/unsupported_tables");
            reveal_strlit("adobefonts/STAT_strings");
            assert("adobefonts/family/consistent_upm"@.len() == 32);
            assert("adobefonts/nameid_1_win_english"@.len() == 31);
            assert("adobefonts/unsupported_tables"@.len() == 29);
            assert("adobefonts/STAT_strings"@.len() == 23);
            assert("adobefonts/family/consistent_upm"@ != "adobefonts/nameid_1_win_english"@);
            assert("adobefonts/family/consistent_upm"@ != "adobefonts/unsupported_tables"@);
            assert("adobefonts/family/consistent_upm"@ != "adobefonts/STAT_strings"@);
            assert("adobefonts/nameid_1_win_english"@ != "adobefonts/unsupported_tables"@);
            assert("adobefonts/nameid_1_win_english"@ != "adobefonts/STAT_strings"@);
            assert("adobefonts/unsupported_tables"@ != "adobefonts/STAT_strings"@);
            assert(opsv[2] matches BuilderOpView::AddCheck(c) && c.id == "adobefonts/family/consistent_upm"@);
            assert(opsv[3] matches BuilderOpView::AddCheck(c) && c.id == "adobefonts/nameid_1_win_english"@);
            assert(opsv[4] matches BuilderOpView::AddCheck(c) && c.id == "adobefonts/unsupported_tables"@);
            assert(opsv[5] matches BuilderOpView::AddCheck(c) && c.id == "adobefonts/STAT_strings"@);
            assert(benign_op(opsv[6]));
            assert(benign_op(opsv[7]));
            assert(benign_op(opsv[8]));
            assert(benign_op(opsv[9]));
            assert(benign_op(opsv[10]));
            assert(benign_op(opsv[11]));
            assert(benign_op(opsv[12]));
            assert(benign_op(opsv[13]));
            assert(benign_op(opsv[14]));
            assert(benign_op(opsv[15]));
            assert(benign_op(opsv[16]));
            assert(benign_op(opsv[17]));
            assert(benign_op(opsv[18]));
            assert(benign_op(opsv[19]));
            assert(benign_op(opsv[20]));
            assert(benign_op(opsv[21]));
            assert(benign_op(opsv[22]));
            assert forall|m: int|
                2 <= m < opsv.len() implies (benign_op(#[trigger] opsv[m]) || (opsv[m]
                    matches BuilderOpView::AddCheck(c) && adobe_check_id(c.id))) by {}
            if has_profile(profs, "universal"@) && (forall|id: Seq<char>|
                adobe_check_id(id) ==> !pv_has_id(profile_named(profs, "universal"@), id)) {
                assert forall|m: int|
                    2 <= m < opsv.len() implies (benign_op(#[trigger] opsv[m]) || (opsv[m]
                        matches BuilderOpView::AddCheck(c) && !pv_has_id(
                        profile_named(profs, "universal"@),
                        c.id,
                    ))) by {
                    if !benign_op(opsv[m]) {
                        match opsv[m] {
                            BuilderOpView::AddCheck(c) => {
                                assert(adobe_check_id(c.id));
                            },
                            _ => {},
                        }
                    }
                }
                lemma_replay_fresh_bundle(opsv, profs);
            }
        }
        let r = builder.build("adobefonts", cr);
        proof {
            if r is Ok {
                assert(final(cr)@.profiles.last().0 == "adobefonts"@);
            }
        }
        r
    }
}

/// The check ids the legibility bundle registers.
pub open spec fn iso15008_check_id(id: Seq<char>) -> bool {
    ||| id == "iso15008/intercharacter_spacing"@
    ||| id == "iso15008/interline_spacing"@
    ||| id == "iso15008/interword_spacing"@
    ||| id == "iso15008/proportions"@
    ||| id == "iso15008/stem_width"@
}

/// The in-vehicle display legibility rule bundle.
pub struct Iso15008;

impl Plugin for Iso15008 {
    /// Register the legibility checks and the `iso15008` profile on
    /// top of `universal`.
    ///
    /// Registration succeeds whenever `universal` is registered, no
    /// profile is registered under `iso15008` yet, and none of this
    /// bundle's check ids is already placed in `universal`.
    fn register(&self, cr: &mut Registry) -> (r: Result<(), String>)
        ensures
            r is Ok ==> has_profile(final(cr)@.profiles, "iso15008"@),
            ({
                &&& has_profile(old(cr)@.profiles, "universal"@)
                &&& !has_profile(old(cr)@.profiles, "iso15008"@)
                &&& forall|id: Seq<char>|
                    iso15008_check_id(id) ==> !pv_has_id(
                        profile_named(old(cr)@.profiles, "universal"@),
                        id,
                    )
            }) ==> r is Ok,
    {
        let builder = ProfileBuilder::new().include_profile("universal").add_section(
            "Iso15008 Fonts Checks",
        ).add_and_register_check(
            Check::new(
                "iso15008/intercharacter_spacing",
                "Check if spacing between characters is adequate for display use",
                "",
                "https://github.com/fonttools/fontbakery/issues/1832",
                Applicability::CheckOne,
            ),
        ).add_and_register_check(
            Check::new(
                "iso15008/interline_spacing",
                "Check if spacing between lines is adequate for display use",
                "",
                "https://github.com/fonttools/fontbakery/issues/1832",
                Applicability::CheckOne,
            ),
        ).add_and_register_check(
            Check::new(
                "iso15008/interword_spacing",
                "Check if spacing between words is adequate for display use",
                "",
                "https://github.com/fonttools/fontbakery/issues/1832",
                Applicability::CheckOne,
            ),
        ).add_and_register_check(
            Check::new(
                "iso15008/proportions",
                "Check if 0.65 => (H width / H height) => 0.80",
                "",
                "https://github.com/fonttools/fontbakery/issues/1832",
                Applicability::CheckOne,
            ),
        ).add_and_register_check(
            Check::new(
                "iso15008/stem_width",
                "Check if 0.10 <= (stem width / ascender) <= 0.82",
                "",
                "https://github.com/fonttools/fontbakery/issues/1832",
                Applicability::CheckOne,
            ),
        );
        let ghost opsv = builder.ops.deep_view();
        let ghost profs = cr@.profiles;
        proof {
            reveal_strlit("iso15008/intercharacter_spacing");
            reveal_strlit("iso15008/interline_spacing");
            reveal_strlit("iso15008/interword_spacing");
            reveal_strlit("iso15008/proportions");
            reveal_strlit("iso15008/stem_width");
            assert("iso15008/intercharacter_spacing"@.len() == 31);
            assert("iso15008/interline_spacing"@.len() == 26);
            assert("iso15008/interword_spacing"@.len() == 26);
            assert("iso15008/proportions"@.len() == 20);
            assert("iso15008/stem_width"@.len() == 19);
            assert("iso15008/intercharacter_spacing"@ != "iso15008/interline_spacing"@);
            assert("iso15008/intercharacter_spacing"@ != "iso15008/interword_spacing"@);
            assert("iso15008/intercharacter_spacing"@ != "iso15008/proportions"@);
            assert("iso15008/intercharacter_spacing"@ != "iso15008/stem_width"@);
            assert("iso15008/interline_spacing"@[14] != "iso15008/interword_spacing"@[14]);
            assert("iso15008/interline_spacing"@ != "iso15008/interword_spacing"@);
            assert("iso15008/interline_spacing"@ != "iso15008/proportions"@);
            assert("iso15008/interline_spacing"@ != "iso15008/stem_width"@);
            assert("iso15008/interword_spacing"@ != "iso15008/proportions"@);
            assert("iso15008/interword_spacing"@ != "iso15008/stem_width"@);
            assert("iso15008/proportions"@ != "iso15008/stem_width"@);
            assert(opsv[2] matches BuilderOpView::AddCheck(c) && c.id == "iso15008/intercharacter_spacing"@);
            assert(opsv[3] matches BuilderOpView::AddCheck(c) && c.id == "iso15008/interline_spacing"@);
            assert(opsv[4] matches BuilderOpView::AddCheck(c) && c.id == "iso15008/interword_spacing"@);
            assert(opsv[5] matches BuilderOpView::AddCheck(c) && c.id == "iso15008/proportions"@);
            assert(opsv[6] matches BuilderOpView::AddCheck(c) && c.id == "iso15008/stem_width"@);
            assert forall|m: int|
                2 <= m < opsv.len() implies (benign_op(#[trigger] opsv[m]) || (opsv[m]
                    matches BuilderOpView::AddCheck(c) && iso15008_check_id(c.id))) by {}
            if has_profile(profs, "universal"@) && (forall|id: Seq<char>|
                iso15008_check_id(id) ==> !pv_has_id(profile_named(profs, "universal"@), id)) {
                assert forall|m: int|
                    2 <= m < opsv.len() implies (benign_op(#[trigger] opsv[m]) || (opsv[m]
                        matches BuilderOpView::AddCheck(c) && !pv_has_id(
                        profile_named(profs, "universal"@),
                        c.id,
                    ))) by {
                    if !benign_op(opsv[m]) {
                        match opsv[m] {
                            BuilderOpView::AddCheck(c) => {
                                assert(iso15008_check_id(c.id));
                            },
                            _ => {},
                        }
                    }
                }
                lemma_replay_fresh_bundle(opsv, profs);
            }
        }
        let r = builder.build("iso15008", cr);
        proof {
            if r is Ok {
                assert(final(cr)@.profiles.last().0 == "iso15008"@);
            }
        }
        r
    }
}

/// The check ids the Microsoft bundle registers.
pub open spec fn microsoft_check_id(id: Seq<char>) -> bool {
    ||| id == "microsoft/copyright"@
    ||| id == "microsoft/fstype"@
    ||| id == "microsoft/license_description"@
    ||| id == "microsoft/manufacturer"@
    ||| id == "microsoft/trademark"@
    ||| id == "microsoft/vendor_url"@
    ||| id == "microsoft/version"@
    ||| id == "microsoft/office_ribz_req"@
    ||| id == "name_id_1"@
    ||| id == "name_id_2"@
    ||| id == "name_length_req"@
    ||| id == "microsoft/vertical_metrics"@
    ||| id == "microsoft/STAT_table_axis_order"@
}

/// The Microsoft rule bundle.
pub struct Microsoft;

impl Plugin for Microsoft {
    /// Register the Microsoft checks and the `microsoft` profile on
    /// top of `universal`, with its own metadata, name, metrics,
    /// variable-font and glyph sections.
    ///
    /// Registration succeeds whenever `universal` is registered, no
    /// profile is registered under `microsoft` yet, and none of this
    /// bundle's check ids is already placed in `universal`.
    fn register(&self, cr: &mut Registry) -> (r: Result<(), String>)
        ensures
            r is Ok ==> has_profile(final(cr)@.profiles, "microsoft"@),
            ({
                &&& has_profile(old(cr)@.profiles, "universal"@)
                &&& !has_profile(old(cr)@.profiles, "microsoft"@)
                &&& forall|id: Seq<char>|
                    microsoft_check_id(id) ==> !pv_has_id(
                        profile_named(old(cr)@.profiles, "universal"@),
                        id,
                    )
            }) ==> r is Ok,
    {
        let builder = ProfileBuilder::new().include_profile("universal").add_section(
            "Metadata Checks",
        ).add_and_register_check(
            Check::new(
                "microsoft/copyright",
                "Validate copyright string in name table.",
                "",
                "https://github.com/googlefonts/gftools/issues/950",
                Applicability::CheckOne,
            ),
        ).add_and_register_check(
            Check::new(
                "microsoft/fstype",
                "Checking OS/2 fsType.",
                "",
                "https://github.com/googlefonts/gftools/issues/950",
                Applicability::CheckOne,
            ),
        ).add_and_register_check(
            Check::new(
                "microsoft/license_description",
                "Validate license description field in the name table.",
                "",
                "https://github.com/googlefonts/gftools/issues/950",
                Applicability::CheckOne,
            ),
        ).add_and_register_check(
            Check::new(
                "microsoft/manufacturer",
                "Validate manufacturer field in name table.",
                "",
                "https://github.com/googlefonts/gftools/issues/950",
                Applicability::CheckOne,
            ),
        ).add_and_register_check(
            Check::new(
                "microsoft/trademark",
                "Validate trademark field in name table.",
                "",
                "https://github.com/googlefonts/gftools/issues/950",
                Applicability::CheckOne,
            ),
        ).add_and_register_check(
            Check::new(
                "microsoft/vendor_url",
                "Validate vendor URL.",
                "",
                "https://github.com/googlefonts/gftools/issues/950",
                Applicability::CheckOne,
            ),
        ).add_and_register_check(
            Check::new(
                "microsoft/version",
                "Version string formatting requirements.",
                "",
                "https://github.com/googlefonts/gftools/issues/950",
                Applicability::CheckOne,
            ),
        ).add_section(
            "Name Checks",
        ).add_and_register_check(
            Check::new(
                "microsoft/office_ribz_req",
                "MS Office RBIZ requirements.",
                "",
                "https://github.com/googlefonts/gftools/issues/950",
                Applicability::CheckOne,
            ),
        ).add_and_register_check(
            Check::new(
                "name_id_1",
                "Font has a name with ID 1.",
                "",
                "https://github.com/googlefonts/gftools/issues/950",
                Applicability::CheckOne,
            ),
        ).add_and_register_check(
            Check::new(
                "name_id_2",
                "Font has a name with ID 2.",
                "",
                "https://github.com/googlefonts/gftools/issues/950",
                Applicability::CheckOne,
            ),
        ).add_and_register_check(
            Check::new(
                "name_length_req",
                "Maximum allowed length for family and subfamily names.",
                "",
                "https://github.com/googlefonts/gftools/issues/950",
                Applicability::CheckOne,
            ),
        ).add_section(
            "Metrics Checks",
        ).add_and_register_check(
            Check::new(
                "microsoft/vertical_metrics",
                "Checking hhea OS/2 vertical_metrics.",
                "",
                "https://github.com/googlefonts/gftools/issues/950",
                Applicability::CheckOne,
            ),
        ).add_section(
            "Variable Fonts Checks",
        ).add_and_register_check(
            Check::new(
                "microsoft/STAT_table_axis_order",
                "STAT table axis order.",
                "",
                "https://github.com/googlefonts/gftools/issues/950",
                Applicability::CheckOne,
            ),
        ).add_section(
            "Glyph Checks",
        ).exclude_check("fontbakery_version").exclude_check("STAT_in_statics").exclude_check("tabular_kerning");
        let ghost opsv = builder.ops.deep_view();
        let ghost profs = cr@.profiles;
        proof {
            reveal_strlit("microsoft/copyright");
            reveal_strlit("microsoft/fstype");
            reveal_strlit("microsoft/license_description");
            reveal_strlit("microsoft/manufacturer");
            reveal_strlit("microsoft/trademark");
            reveal_strlit("microsoft/vendor_url");
            reveal_strlit("microsoft/version");
            reveal_strlit("microsoft/office_ribz_req");
            reveal_strlit("name_id_1");
            reveal_strlit("name_id_2");
            reveal_strlit("name_length_req");
            reveal_strlit("microsoft/vertical_metrics");
            reveal_strlit("microsoft/STAT_table_axis_order");
            assert("microsoft/copyright"@.len() == 19);
            assert("microsoft/fstype"@.len() == 16);
            assert("microsoft/license_description"@.len() == 29);
            assert("microsoft/manufacturer"@.len() == 22);
            assert("microsoft/trademark"@.len() == 19);
            assert("microsoft/vendor_url"@.len() == 20);
            assert("microsoft/version"@.len() == 17);
            assert("microsoft/office_ribz_req"@.len() == 25);
            assert("name_id_1"@.len() == 9);
            assert("name_id_2"@.len() == 9);
            assert("name_length_req"@.len() == 15);
            assert("microsoft/vertical_metrics"@.len() == 26);
            assert("microsoft/STAT_table_axis_order"@.len() == 31);
            assert("microsoft/copyright"@ != "microsoft/fstype"@);
            assert("microsoft/copyright"@ != "microsoft/license_description"@);
            assert("microsoft/copyright"@ != "microsoft/manufacturer"@);
            assert("microsoft/copyright"@[10] != "microsoft/trademark"@[10]);
            assert("microsoft/copyright"@ != "microsoft/trademark"@);
            assert("microsoft/copyright"@ != "microsoft/vendor_url"@);
            assert("microsoft/copyright"@ != "microsoft/version"@);
            assert("microsoft/copyright"@ != "microsoft/office_ribz_req"@);
            assert("microsoft/copyright"@ != "name_id_1"@);
            assert("microsoft/copyright"@ != "name_id_2"@);
            assert("microsoft/copyright"@ != "name_length_req"@);
            assert("microsoft/copyright"@ != "microsoft/vertical_metrics"@);
            assert("microsoft/copyright"@ != "microsoft/STAT_table_axis_order"@);
            assert("microsoft/fstype"@ != "microsoft/license_description"@);
            assert("microsoft/fstype"@ != "microsoft/manufacturer"@);
            assert("microsoft/fstype"@ != "microsoft/trademark"@);
            assert("microsoft/fstype"@ != "microsoft/vendor_url"@);
            assert("microsoft/fstype"@ != "microsoft/version"@);
            assert("microsoft/fstype"@ != "microsoft/office_ribz_req"@);
            assert("microsoft/fstype"@ != "name_id_1"@);
            assert("microsoft/fstype"@ != "name_id_2"@);
            assert("microsoft/fstype"@ != "name_length_req"@);
            assert("microsoft/fstype"@ != "microsoft/vertical_metrics"@);
            assert("microsoft/fstype"@ != "microsoft/STAT_table_axis_order"@);
            assert("microsoft/license_description"@ != "microsoft/manufacturer"@);
            assert("microsoft/license_description"@ != "microsoft/trademark"@);
            assert("microsoft/license_description"@ != "microsoft/vendor_url"@);
            assert("microsoft/license_description"@ != "microsoft/version"@);
            assert("microsoft/license_description"@ != "microsoft/office_ribz_req"@);
            assert("microsoft/license_description"@ != "name_id_1"@);
            assert("microsoft/license_description"@ != "name_id_2"@);
            assert("microsoft/license_description"@ != "name_length_req"@);
            assert("microsoft/license_description"@ != "microsoft/vertical_metrics"@);
            assert("microsoft/license_description"@ != "microsoft/STAT_table_axis_order"@);
            assert("microsoft/manufacturer"@ != "microsoft/trademark"@);
            assert("microsoft/manufacturer"@ != "microsoft/vendor_url"@);
            assert("microsoft/manufacturer"@ != "microsoft/version"@);
            assert("microsoft/manufacturer"@ != "microsoft/office_ribz_req"@);
            assert("microsoft/manufacturer"@ != "name_id_1"@);
            assert("microsoft/manufacturer"@ != "name_id_2"@);
            assert("microsoft/manufacturer"@ != "name_length_req"@);
            assert("microsoft/manufacturer"@ != "microsoft/vertical_metrics"@);
            assert("microsoft/manufacturer"@ != "microsoft/STAT_table_axis_order"@);
            assert("microsoft/trademark"@ != "microsoft/vendor_url"@);
            assert("microsoft/trademark"@ != "microsoft/version"@);
            assert("microsoft/trademark"@ != "microsoft/office_ribz_req"@);
            assert("microsoft/trademark"@ != "name_id_1"@);
            assert("microsoft/trademark"@ != "name_id_2"@);
            assert("microsoft/trademark"@ != "name_length_req"@);
            assert("microsoft/trademark"@ != "microsoft/vertical_metrics"@);
            assert("microsoft/trademark"@ != "microsoft/STAT_table_axis_order"@);
            assert("microsoft/vendor_url"@ != "microsoft/version"@);
            assert("microsoft/vendor_url"@ != "microsoft/office_ribz_req"@);
            assert("microsoft/vendor_url"@ != "name_id_1"@);
            assert("microsoft/vendor_url"@ != "name_id_2"@);
            assert("microsoft/vendor_url"@ != "name_length_req"@);
            assert("microsoft/vendor_url"@ != "microsoft/vertical_metrics"@);
            assert("microsoft/vendor_url"@ != "microsoft/STAT_table_axis_order"@);
            assert("microsoft/version"@ != "microsoft/office_ribz_req"@);
            assert("microsoft/version"@ != "name_id_1"@);
            assert("microsoft/version"@ != "name_id_2"@);
            assert("microsoft/version"@ != "name_length_req"@);
            assert("microsoft/version"@ != "microsoft/vertical_metrics"@);
            assert("microsoft/version"@ != "microsoft/STAT_table_axis_order"@);
            assert("microsoft/office_ribz_req"@ != "name_id_1"@);
            assert("microsoft/office_ribz_req"@ != "name_id_2"@);
            assert("microsoft/office_ribz_req"@ != "name_length_req"@);
            assert("microsoft/office_ribz_req"@ != "microsoft/vertical_metrics"@);
            assert("microsoft/office_ribz_req"@ != "microsoft/STAT_table_axis_order"@);
            assert("name_id_1"@[8] != "name_id_2"@[8]);
            assert("name_id_1"@ != "name_id_2"@);
            assert("name_id_1"@ != "name_length_req"@);
            assert("name_id_1"@ != "microsoft/vertical_metrics"@);
            assert("name_id_1"@ != "microsoft/STAT_table_axis_order"@);
            assert("name_id_2"@ != "name_length_req"@);
            assert("name_id_2"@ != "microsoft/vertical_metrics"@);
            assert("name_id_2"@ != "microsoft/STAT_table_axis_order"@);
            assert("name_length_req"@ != "microsoft/vertical_metrics"@);
            assert("name_length_req"@ != "microsoft/STAT_table_axis_order"@);
            assert("microsoft/vertical_metrics"@ != "microsoft/STAT_table_axis_order"@);
            assert(opsv[2] matches BuilderOpView::AddCheck(c) && c.id == "microsoft/copyright"@);
            assert(opsv[3] matches BuilderOpView::AddCheck(c) && c.id == "microsoft/fstype"@);
            assert(opsv[4] matches BuilderOpView::AddCheck(c) && c.id == "microsoft/license_description"@);
            assert(opsv[5] matches BuilderOpView::AddCheck(c) && c.id == "microsoft/manufacturer"@);
            assert(opsv[6] matches BuilderOpView::AddCheck(c) && c.id == "microsoft/trademark"@);
            assert(opsv[7] matches BuilderOpView::AddCheck(c) && c.id == "microsoft/vendor_url"@);
            assert(opsv[8] matches BuilderOpView::AddCheck(c) && c.id == "microsoft/version"@);
            assert(benign_op(opsv[9]));
            assert(opsv[10] matches BuilderOpView::AddCheck(c) && c.id == "microsoft/office_ribz_req"@);
            assert(opsv[11] matches BuilderOpView::AddCheck(c) && c.id == "name_id_1"@);
            assert(opsv[12] matches BuilderOpView::AddCheck(c) && c.id == "name_id_2"@);
            assert(opsv[13] matches BuilderOpView::AddCheck(c) && c.id == "name_length_req"@);
            assert(benign_op(opsv[14]));
            assert(opsv[15] matches BuilderOpView::AddCheck(c) && c.id == "microsoft/vertical_metrics"@);
            assert(benign_op(opsv[16]));
            assert(opsv[17] matches BuilderOpView::AddCheck(c) && c.id == "microsoft/STAT_table_axis_order"@);
            assert(benign_op(opsv[18]));
            assert(benign_op(opsv[19]));
            assert(benign_op(opsv[20]));
            assert(benign_op(opsv[21]));
            assert forall|m: int|
                2 <= m < opsv.len() implies (benign_op(#[trigger] opsv[m]) || (opsv[m]
                    matches BuilderOpView::AddCheck(c) && microsoft_check_id(c.id))) by {}
            if has_profile(profs, "universal"@) && (forall|id: Seq<char>|
                microsoft_check_id(id) ==> !pv_has_id(profile_named(profs, "universal"@), id)) {
                assert forall|m: int|
                    2 <= m < opsv.len() implies (benign_op(#[trigger] opsv[m]) || (opsv[m]
                        matches BuilderOpView::AddCheck(c) && !pv_has_id(
                        profile_named(profs, "universal"@),
                        c.id,
                    ))) by {
                    if !benign_op(opsv[m]) {
                        match opsv[m] {
                            BuilderOpView::AddCheck(c) => {
                                assert(microsoft_check_id(c.id));
                            },
                            _ => {},
                        }
                    }
                }
                lemma_replay_fresh_bundle(opsv, profs);
            }
        }
        let r = builder.build("microsoft", cr);
        proof {
            if r is Ok {
                assert(final(cr)@.profiles.last().0 == "microsoft"@);
            }
        }
        r
    }
}

} // verus!
