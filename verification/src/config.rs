//! A minimal model of structured configuration data.
//!
//! The run configuration reaches the engine as an opaque keyed object,
//! typically parsed from a JSON file by the surrounding application and
//! converted into [`ConfigValue`] before it is handed over. The engine
//! itself interprets only a single reserved key, `overrides`; everything
//! else is forwarded untouched to the individual checks.

use vstd::prelude::*;
use crate::status::{Override, OverrideView, StatusCode};
use crate::strutil::str_eq;

verus! {

/// A structured configuration value: the engine-side shape of a parsed
/// JSON document.
pub enum ConfigValue {
    Null,
    Bool(bool),
    /// A number, kept as its decimal source text; the engine never
    /// interprets numeric configuration values itself.
    Num(String),
    Str(String),
    List(Vec<ConfigValue>),
    Object(Vec<(String, ConfigValue)>),
}

/// The mathematical shape of a [`ConfigValue`], with strings as character
/// sequences.
pub ghost enum ConfigView {
    Null,
    Bool(bool),
    Num(Seq<char>),
    Str(Seq<char>),
    List(Seq<ConfigView>),
    Object(Seq<(Seq<char>, ConfigView)>),
}

/// The abstract value of a configuration tree.
pub open spec fn cv_view(v: ConfigValue) -> ConfigView
    decreases v, 0int,
{
    match v {
        ConfigValue::Null => ConfigView::Null,
        ConfigValue::Bool(b) => ConfigView::Bool(b),
        ConfigValue::Num(s) => ConfigView::Num(s@),
        ConfigValue::Str(s) => ConfigView::Str(s@),
        ConfigValue::List(items) => ConfigView::List(cv_view_list(items, 0)),
        ConfigValue::Object(fields) => ConfigView::Object(cv_view_fields(fields, 0)),
    }
}

/// The abstract values of the elements of a list, from position `i` on.
pub open spec fn cv_view_list(items: Vec<ConfigValue>, i: int) -> Seq<ConfigView>
    decreases items, items@.len() - i,
{
    if i < 0 || i >= items@.len() {
        Seq::empty()
    } else {
        seq![cv_view(items[i])] + cv_view_list(items, i + 1)
    }
}

/// The abstract key/value pairs of an object, from position `i` on.
pub open spec fn cv_view_fields(fields: Vec<(String, ConfigValue)>, i: int) -> Seq<
    (Seq<char>, ConfigView),
>
    decreases fields, fields@.len() - i,
{
    if i < 0 || i >= fields@.len() {
        Seq::empty()
    } else {
        seq![(fields[i].0@, cv_view(fields[i].1))] + cv_view_fields(fields, i + 1)
    }
}

/// A size measure on configuration trees, used to justify termination of
/// the executable functions that walk them.
pub open spec fn cv_size(v: ConfigValue) -> nat
    decreases v, 0int,
{
    match v {
        ConfigValue::Null => 1,
        ConfigValue::Bool(_) => 1,
        ConfigValue::Num(_) => 1,
        ConfigValue::Str(_) => 1,
        ConfigValue::List(items) => 1 + cv_size_list(items, 0),
        ConfigValue::Object(fields) => 1 + cv_size_fields(fields, 0),
    }
}

/// Combined size of the elements of a list, from position `i` on.
pub open spec fn cv_size_list(items: Vec<ConfigValue>, i: int) -> nat
    decreases items, items@.len() - i,
{
    if i < 0 || i >= items@.len() {
        0
    } else {
        cv_size(items[i]) + cv_size_list(items, i + 1)
    }
}

/// Combined size of the values of an object, from position `i` on.
pub open spec fn cv_size_fields(fields: Vec<(String, ConfigValue)>, i: int) -> nat
    decreases fields, fields@.len() - i,
{
    if i < 0 || i >= fields@.len() {
        0
    } else {
        cv_size(fields[i].1) + cv_size_fields(fields, i + 1)
    }
}

proof fn lemma_cv_size_list_elem(items: Vec<ConfigValue>, i: int, j: int)
    requires
        0 <= i <= j < items@.len(),
    ensures
        cv_size(items@[j]) <= cv_size_list(items, i),
    decreases j - i,
{
    if i < j {
        lemma_cv_size_list_elem(items, i + 1, j);
    }
}

proof fn lemma_cv_size_fields_elem(fields: Vec<(String, ConfigValue)>, i: int, j: int)
    requires
        0 <= i <= j < fields@.len(),
    ensures
        cv_size(fields@[j].1) <= cv_size_fields(fields, i),
    decreases j - i,
{
    if i < j {
        lemma_cv_size_fields_elem(fields, i + 1, j);
    }
}

/// Pointwise description of [`cv_view_list`]: the suffix starting at `i`
/// has one entry per remaining element, in order.
pub proof fn lemma_cv_view_list_index(items: Vec<ConfigValue>, i: int)
    requires
        0 <= i <= items@.len(),
    ensures
        cv_view_list(items, i).len() == items@.len() - i,
        forall|k: int|
            0 <= k < items@.len() - i ==> #[trigger] cv_view_list(items, i)[k] == cv_view(
                items@[i + k],
            ),
    decreases items@.len() - i,
{
    if i < items@.len() {
        lemma_cv_view_list_index(items, i + 1);
    }
}

/// Pointwise description of [`cv_view_fields`], as for lists.
pub proof fn lemma_cv_view_fields_index(fields: Vec<(String, ConfigValue)>, i: int)
    requires
        0 <= i <= fields@.len(),
    ensures
        cv_view_fields(fields, i).len() == fields@.len() - i,
        forall|k: int|
            0 <= k < fields@.len() - i ==> #[trigger] cv_view_fields(fields, i)[k] == (
                fields@[i + k].0@,
                cv_view(fields@[i + k].1),
            ),
    decreases fields@.len() - i,
{
    if i < fields@.len() {
        lemma_cv_view_fields_index(fields, i + 1);
    }
}

impl DeepView for ConfigValue {
    type V = ConfigView;

    open spec fn deep_view(&self) -> ConfigView {
        cv_view(*self)
    }
}

impl Clone for ConfigValue {
    /// A deep copy; the copy denotes the same configuration tree.
    fn clone(&self) -> (r: Self)
        ensures
            cv_view(r) == cv_view(*self),
        decreases cv_size(*self),
    {
        match self {
            ConfigValue::Null => ConfigValue::Null,
            ConfigValue::Bool(b) => ConfigValue::Bool(*b),
            ConfigValue::Num(s) => ConfigValue::Num(s.clone()),
            ConfigValue::Str(s) => ConfigValue::Str(s.clone()),
            ConfigValue::List(items) => {
                let mut out: Vec<ConfigValue> = Vec::new();
                let mut j: usize = 0;
                while j < items.len()
                    invariant
                        *self == ConfigValue::List(*items),
                        j <= items@.len(),
                        out@.len() == j,
                        forall|k: int|
                            0 <= k < j ==> cv_view(#[trigger] out@[k]) == cv_view(items@[k]),
                    decreases items@.len() - j,
                {
                    proof {
                        lemma_cv_size_list_elem(*items, 0, j as int);
                    }
                    out.push(items[j].clone());
                    j += 1;
                }
                proof {
                    lemma_cv_view_list_index(out, 0);
                    lemma_cv_view_list_index(*items, 0);
                    assert forall|k: int| 0 <= k < items@.len() implies cv_view_list(out, 0)[k]
                        == cv_view_list(*items, 0)[k] by {
                        assert(cv_view_list(out, 0)[k] == cv_view(out@[0 + k]));
                        assert(cv_view_list(*items, 0)[k] == cv_view(items@[0 + k]));
                    }
                    assert(cv_view_list(out, 0) =~= cv_view_list(*items, 0));
                }
                ConfigValue::List(out)
            },
            ConfigValue::Object(fields) => {
                let mut out: Vec<(String, ConfigValue)> = Vec::new();
                let mut j: usize = 0;
                while j < fields.len()
                    invariant
                        *self == ConfigValue::Object(*fields),
                        j <= fields@.len(),
                        out@.len() == j,
                        forall|k: int|
                            0 <= k < j ==> (#[trigger] out@[k]).0@ == fields@[k].0@ && cv_view(
                                out@[k].1,
                            ) == cv_view(fields@[k].1),
                    decreases fields@.len() - j,
                {
                    proof {
                        lemma_cv_size_fields_elem(*fields, 0, j as int);
                    }
                    let entry = &fields[j];
                    out.push((entry.0.clone(), entry.1.clone()));
                    j += 1;
                }
                proof {
                    lemma_cv_view_fields_index(out, 0);
                    lemma_cv_view_fields_index(*fields, 0);
                    assert forall|k: int| 0 <= k < fields@.len() implies cv_view_fields(out, 0)[k]
                        == cv_view_fields(*fields, 0)[k] by {
                        assert(cv_view_fields(out, 0)[k] == (out@[0 + k].0@, cv_view(out@[0 + k].1)));
                        assert(cv_view_fields(*fields, 0)[k] == (
                            fields@[0 + k].0@,
                            cv_view(fields@[0 + k].1),
                        ));
                    }
                    assert(cv_view_fields(out, 0) =~= cv_view_fields(*fields, 0));
                }
                ConfigValue::Object(out)
            },
        }
    }
}

/// The value stored under `key` in a keyed-object field list: the
/// first entry with that key, scanning from position `i`.
pub open spec fn object_field_from(
    fields: Seq<(String, ConfigValue)>,
    key: Seq<char>,
    i: int,
) -> Option<ConfigValue>
    decreases fields.len() - i,
{
    if i < 0 || i >= fields.len() {
        None
    } else if fields[i].0@ == key {
        Some(fields[i].1)
    } else {
        object_field_from(fields, key, i + 1)
    }
}

/// The override an entry of the reserved `overrides` list declares, if
/// it is well formed: an object with a `code` string, a `status` string
/// naming one of the six severities, and a `reason` string. A malformed
/// entry declares nothing and is skipped.
pub open spec fn override_of_entry(entry: ConfigValue) -> Option<OverrideView> {
    match entry {
        ConfigValue::Object(fields) => {
            match (
                object_field_from(fields@, "code"@, 0),
                object_field_from(fields@, "status"@, 0),
                object_field_from(fields@, "reason"@, 0),
            ) {
                (Some(ConfigValue::Str(c)), Some(ConfigValue::Str(s)), Some(
                    ConfigValue::Str(r),
                )) => match StatusCode::spec_from_string(s@) {
                    Some(status) => Some(OverrideView { code: c@, status, reason: r@ }),
                    None => None,
                },
                _ => None,
            }
        },
        _ => None,
    }
}

/// The overrides declared by the entries of the `overrides` list, from
/// position `i` on, skipping malformed entries.
pub open spec fn overrides_of_entries(entries: Seq<ConfigValue>, i: int) -> Seq<OverrideView>
    decreases entries.len() - i,
{
    if i < 0 || i >= entries.len() {
        Seq::empty()
    } else {
        match override_of_entry(entries[i]) {
            Some(o) => seq![o] + overrides_of_entries(entries, i + 1),
            None => overrides_of_entries(entries, i + 1),
        }
    }
}

/// The overrides a configuration object declares under its reserved
/// `overrides` key; none when the key is absent or not a list.
pub open spec fn spec_load_overrides(config: Seq<(String, ConfigValue)>) -> Seq<OverrideView> {
    match object_field_from(config, "overrides"@, 0) {
        Some(ConfigValue::List(entries)) => overrides_of_entries(entries@, 0),
        _ => Seq::empty(),
    }
}

/// The first value stored under `key` in a field list, if any.
pub fn object_get<'a>(fields: &'a Vec<(String, ConfigValue)>, key: &str) -> (r: Option<
    &'a ConfigValue,
>)
    ensures
        match r {
            Some(v) => object_field_from(fields@, key@, 0) == Some(*v),
            None => object_field_from(fields@, key@, 0) is None,
        },
{
    let mut i: usize = 0;
    while i < fields.len()
        invariant
            i <= fields@.len(),
            object_field_from(fields@, key@, 0) == object_field_from(fields@, key@, i as int),
        decreases fields@.len() - i,
    {
        if str_eq(fields[i].0.as_str(), key) {
            return Some(&fields[i].1);
        }
        i += 1;
    }
    None
}

/// Read the user-supplied severity overrides out of the run
/// configuration: the entries of the reserved `overrides` list that
/// carry a `code` string, a valid `status` severity name, and a
/// `reason` string. Malformed entries are skipped, not fatal.
pub fn load_overrides(config: &Vec<(String, ConfigValue)>) -> (r: Vec<Override>)
    ensures
        r.deep_view() == spec_load_overrides(config@),
{
    let mut out: Vec<Override> = Vec::new();
    let entries: &Vec<ConfigValue> = match object_get(config, "overrides") {
        Some(ConfigValue::List(entries)) => entries,
        _ => {
            proof {
                assert(out.deep_view() =~= spec_load_overrides(config@));
            }
            return out;
        },
    };
    let mut i: usize = 0;
    while i < entries.len()
        invariant
            i <= entries@.len(),
            spec_load_overrides(config@) == out.deep_view() + overrides_of_entries(
                entries@,
                i as int,
            ),
        decreases entries@.len() - i,
    {
        let ghost pre = out.deep_view();
        match &entries[i] {
            ConfigValue::Object(fields) => {
                let code = object_get(fields, "code");
                let status = object_get(fields, "status");
                let reason = object_get(fields, "reason");
                match (code, status, reason) {
                    (
                        Some(ConfigValue::Str(c)),
                        Some(ConfigValue::Str(s)),
                        Some(ConfigValue::Str(r)),
                    ) => {
                        match StatusCode::from_string(s.as_str()) {
                            Some(sc) => {
                                out.push(Override::new(c.as_str(), sc, r.as_str()));
                                proof {
                                    assert(out.deep_view() =~= pre.push(
                                        override_of_entry(entries@[i as int]).unwrap(),
                                    ));
                                    assert(pre + (seq![
                                        override_of_entry(entries@[i as int]).unwrap(),
                                    ] + overrides_of_entries(entries@, i as int + 1))
                                        =~= out.deep_view() + overrides_of_entries(
                                        entries@,
                                        i as int + 1,
                                    ));
                                }
                            },
                            None => {
                                proof {
                                    assert(override_of_entry(entries@[i as int]) is None);
                                }
                            },
                        }
                    },
                    _ => {
                        proof {
                            assert(override_of_entry(entries@[i as int]) is None);
                        }
                    },
                }
            },
            _ => {
                proof {
                    assert(override_of_entry(entries@[i as int]) is None);
                }
            },
        }
        i += 1;
    }
    proof {
        assert(out.deep_view() + overrides_of_entries(entries@, entries@.len() as int)
            =~= out.deep_view());
    }
    out
}

} // verus!
