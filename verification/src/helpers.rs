//! Pure helpers shared by individual checks: weight-name tables,
//! designer-name normalization and article-image requirements.
//!
//! The checks that use them parse font binaries and talk to the
//! network outside this crate; these helpers are the plain-value logic
//! they rest on.

use vstd::prelude::*;
use vstd::string::{StrSliceExecFns, StringExecFns};

verus! {

/// The weight name the font catalog uses for a weight class value;
/// `bad value` for anything outside the table.
pub open spec fn spec_gf_api_weight_name(weight: u16) -> Seq<char> {
    if weight == 100 || weight == 250 {
        "Thin"@
    } else if weight == 200 || weight == 275 {
        "ExtraLight"@
    } else if weight == 300 {
        "Light"@
    } else if weight == 400 {
        "Regular"@
    } else if weight == 500 {
        "Medium"@
    } else if weight == 600 {
        "SemiBold"@
    } else if weight == 700 {
        "Bold"@
    } else if weight == 800 {
        "ExtraBold"@
    } else if weight == 900 {
        "Black"@
    } else {
        "bad value"@
    }
}

/// The weight name the font catalog uses for a weight class value.
pub fn gf_api_weight_name(weight: u16) -> (r: &'static str)
    ensures
        r@ == spec_gf_api_weight_name(weight),
{
    match weight {
        100 => "Thin",
        200 => "ExtraLight",
        250 => "Thin",
        275 => "ExtraLight",
        300 => "Light",
        400 => "Regular",
        500 => "Medium",
        600 => "SemiBold",
        700 => "Bold",
        800 => "ExtraBold",
        900 => "Black",
        _ => "bad value",
    }
}

/// The CSS weight name for a weight class value; `bad value` for
/// anything not a multiple of one hundred between 100 and 900.
pub open spec fn spec_css_weight_name(weight: u16) -> Seq<char> {
    if weight == 100 {
        "Thin"@
    } else if weight == 200 {
        "ExtraLight"@
    } else if weight == 300 {
        "Light"@
    } else if weight == 400 {
        "Regular"@
    } else if weight == 500 {
        "Medium"@
    } else if weight == 600 {
        "SemiBold"@
    } else if weight == 700 {
        "Bold"@
    } else if weight == 800 {
        "ExtraBold"@
    } else if weight == 900 {
        "Black"@
    } else {
        "bad value"@
    }
}

/// The CSS weight name for a weight class value.
pub fn css_weight_name(weight: u16) -> (r: &'static str)
    ensures
        r@ == spec_css_weight_name(weight),
{
    match weight {
        100 => "Thin",
        200 => "ExtraLight",
        300 => "Light",
        400 => "Regular",
        500 => "Medium",
        600 => "SemiBold",
        700 => "Bold",
        800 => "ExtraBold",
        900 => "Black",
        _ => "bad value",
    }
}

/// The weight a static font's catalog entry should declare, with the
/// explanation: the legacy weight class values 250 and 275 stand for
/// the CSS weights 100 and 200; any other value should be kept as it
/// is.
pub fn static_weight_expectation(us_weight_class: u16) -> (r: (u16, String))
    ensures
        us_weight_class == 250 ==> r.0 == 100 && r.1@
            == "100, corresponding to CSS weight name 'Thin'"@,
        us_weight_class == 275 ==> r.0 == 200 && r.1@
            == "200, corresponding to CSS weight name 'ExtraLight'"@,
        us_weight_class != 250 && us_weight_class != 275 ==> r.0 == us_weight_class && r.1@
            == "the same"@,
{
    match us_weight_class {
        250 => (100, String::from_str("100, corresponding to CSS weight name 'Thin'")),
        275 => (200, String::from_str("200, corresponding to CSS weight name 'ExtraLight'")),
        _ => (us_weight_class, String::from_str("the same")),
    }
}

/// The constraints an article image must meet for its file extension:
/// maximum width, maximum height, the image kind, and the maximum file
/// size in bytes; `None` for an extension that is no image.
pub open spec fn spec_image_requirements(extension: Seq<char>) -> Option<
    (u32, u32, Seq<char>, usize),
> {
    if extension == "svg"@ {
        Some((2048u32, 1024u32, "vector"@, 1792000usize))
    } else if extension == "png"@ || extension == "jpg"@ || extension == "jpeg"@ || extension
        == "jxl"@ || extension == "gif"@ {
        Some((2048u32, 1024u32, "raster"@, 819200usize))
    } else {
        None
    }
}

/// The constraints an article image must meet for its file extension.
pub fn image_requirements(extension: &str) -> (r: Option<(u32, u32, &'static str, usize)>)
    ensures
        match r {
            Some(req) => spec_image_requirements(extension@) == Some(
                (req.0, req.1, req.2@, req.3),
            ),
            None => spec_image_requirements(extension@) is None,
        },
{
    if crate::strutil::str_eq(extension, "svg") {
        Some((2048, 1024, "vector", 1792000))
    } else if crate::strutil::str_eq(extension, "png") || crate::strutil::str_eq(extension, "jpg")
        || crate::strutil::str_eq(extension, "jpeg") || crate::strutil::str_eq(extension, "jxl")
        || crate::strutil::str_eq(extension, "gif") {
        Some((2048, 1024, "raster", 819200))
    } else {
        None
    }
}

/// How one character of a designer name is normalized: ASCII letters
/// and digits keep their lower-case form, a few accented letters lose
/// their accent, and everything else is dropped.
pub open spec fn spec_normalize_char(c: char) -> Option<char> {
    if '0' <= c && c <= '9' {
        Some(c)
    } else if 'a' <= c && c <= 'z' {
        Some(c)
    } else if 'A' <= c && c <= 'Z' {
        Some((((c as u8) + 32) as u8) as char)
    } else if c == 'á' || c == 'à' || c == 'ã' {
        Some('a')
    } else if c == 'é' || c == 'è' {
        Some('e')
    } else if c == 'í' || c == 'ì' || c == 'ı' {
        Some('i')
    } else if c == 'ó' || c == 'ò' || c == 'ø' {
        Some('o')
    } else if c == 'ú' || c == 'ù' || c == 'ü' {
        Some('u')
    } else if c == 'ń' {
        Some('n')
    } else if c == 'ř' {
        Some('r')
    } else if c == 'ś' || c == 'ß' {
        Some('s')
    } else if c == 'ł' {
        Some('l')
    } else {
        None
    }
}

/// The normalized form of the first `i` characters of a designer name.
pub open spec fn spec_normalize_upto(s: Seq<char>, i: int) -> Seq<char>
    decreases i,
{
    if i <= 0 {
        Seq::empty()
    } else {
        match spec_normalize_char(s[i - 1]) {
            Some(c) => spec_normalize_upto(s, i - 1).push(c),
            None => spec_normalize_upto(s, i - 1),
        }
    }
}

/// The normalized form of a designer name, used to look the designer
/// up in the catalog.
pub open spec fn spec_normalize_designer_name(s: Seq<char>) -> Seq<char> {
    spec_normalize_upto(s, s.len() as int)
}

/// Normalize one character of a designer name, as
/// [`spec_normalize_char`] describes it.
fn normalize_char(c: char) -> (r: Option<char>)
    ensures
        r == spec_normalize_char(c),
{
    if '0' <= c && c <= '9' {
        Some(c)
    } else if 'a' <= c && c <= 'z' {
        Some(c)
    } else if 'A' <= c && c <= 'Z' {
        Some((((c as u8) + 32) as u8) as char)
    } else if c == 'á' || c == 'à' || c == 'ã' {
        Some('a')
    } else if c == 'é' || c == 'è' {
        Some('e')
    } else if c == 'í' || c == 'ì' || c == 'ı' {
        Some('i')
    } else if c == 'ó' || c == 'ò' || c == 'ø' {
        Some('o')
    } else if c == 'ú' || c == 'ù' || c == 'ü' {
        Some('u')
    } else if c == 'ń' {
        Some('n')
    } else if c == 'ř' {
        Some('r')
    } else if c == 'ś' || c == 'ß' {
        Some('s')
    } else if c == 'ł' {
        Some('l')
    } else {
        None
    }
}

/// Normalize a designer name for a catalog lookup: lower-case ASCII
/// letters and digits, a few accented letters reduced to their base
/// letter, everything else dropped.
pub fn normalize_designer_name(designer: &str) -> (r: String)
    ensures
        r@ == spec_normalize_designer_name(designer@),
{
    let n = designer.unicode_len();
    let mut out = String::new();
    let mut i: usize = 0;
    while i < n
        invariant
            i <= n,
            n == designer@.len(),
            out@ == spec_normalize_upto(designer@, i as int),
        decreases n - i,
    {
        let c = designer.get_char(i);
        match normalize_char(c) {
            Some(mapped) => {
                proof {
                    assert(('0' <= mapped && mapped <= '9') || ('a' <= mapped && mapped <= 'z'))
                        by {
                        if 'A' <= c && c <= 'Z' {
                            assert(mapped == (((c as u8) + 32) as u8) as char);
                        }
                    }
                }
                out.append(crate::strutil::ascii_char_to_str(mapped));
                proof {
                    assert(out@ =~= spec_normalize_upto(designer@, i as int + 1));
                }
            },
            None => {},
        }
        i += 1;
    }
    out
}

} // verus!
