//! Profiles: named, composed sets of checks partitioned into sections,
//! with exclusions and default severity overrides.
//!
//! A profile stores its content as a flat, ordered list of placements,
//! one `(section name, check id)` pair per check; the named sections a
//! reporter shows are derived by grouping the placements by section
//! name. A well-formed profile never places the same check id twice.

use vstd::prelude::*;
use vstd::string::StringExecFns;
use crate::status::{clone_overrides, Override, OverrideView};
use crate::strutil::{str_eq, vec_contains_str};

verus! {

/// A named, ordered bucket of check identifiers, used purely for
/// grouping and reporting.
pub struct Section {
    pub name: String,
    pub checks: Vec<String>,
}

/// The mathematical shape of a [`Section`].
pub ghost struct SectionView {
    pub name: Seq<char>,
    pub checks: Seq<Seq<char>>,
}

impl View for Section {
    type V = SectionView;

    open spec fn view(&self) -> SectionView {
        SectionView { name: self.name@, checks: self.checks.deep_view() }
    }
}

impl DeepView for Section {
    type V = SectionView;

    open spec fn deep_view(&self) -> SectionView {
        self.view()
    }
}

/// A named, finalized composition of checks: ordered sections, a set of
/// excluded check ids, and default severity overrides per check id.
pub struct Profile {
    /// Section names, in declaration order.
    pub section_order: Vec<String>,
    /// `(section name, check id)` pairs, in insertion order.
    pub placements: Vec<(String, String)>,
    /// Check ids suppressed in this profile.
    pub exclusions: Vec<String>,
    /// Default severity overrides, one entry per `with_overrides` call.
    pub defaults: Vec<(String, Vec<Override>)>,
}

/// The mathematical shape of a [`Profile`].
#[verifier::ext_equal]
pub ghost struct ProfileView {
    pub section_order: Seq<Seq<char>>,
    pub placements: Seq<(Seq<char>, Seq<char>)>,
    pub exclusions: Seq<Seq<char>>,
    pub defaults: Seq<(Seq<char>, Seq<OverrideView>)>,
}

impl View for Profile {
    type V = ProfileView;

    open spec fn view(&self) -> ProfileView {
        ProfileView {
            section_order: self.section_order.deep_view(),
            placements: self.placements.deep_view(),
            exclusions: self.exclusions.deep_view(),
            defaults: self.defaults.deep_view(),
        }
    }
}

impl DeepView for Profile {
    type V = ProfileView;

    open spec fn deep_view(&self) -> ProfileView {
        self.view()
    }
}

/// Whether some placement carries the given check id.
pub open spec fn placed(pls: Seq<(Seq<char>, Seq<char>)>, id: Seq<char>) -> bool {
    exists|i: int| 0 <= i < pls.len() && (#[trigger] pls[i]).1 == id
}

/// The section name under which `id` is placed (meaningful only when
/// `placed(pls, id)` holds and ids are unique).
pub open spec fn section_of(pls: Seq<(Seq<char>, Seq<char>)>, id: Seq<char>) -> Seq<char> {
    pls[choose|i: int| 0 <= i < pls.len() && (#[trigger] pls[i]).1 == id].0
}

/// No check id occurs in two placements.
pub open spec fn placements_unique(pls: Seq<(Seq<char>, Seq<char>)>) -> bool {
    forall|i: int, j: int|
        0 <= i < j < pls.len() ==> (#[trigger] pls[i]).1 != (#[trigger] pls[j]).1
}

/// Well-formedness of a profile: unique check ids, unique section
/// names, and every placement under a declared section.
pub open spec fn pv_wf(p: ProfileView) -> bool {
    &&& placements_unique(p.placements)
    &&& forall|i: int|
        0 <= i < p.placements.len() ==> p.section_order.contains((#[trigger] p.placements[i]).0)
    &&& forall|i: int, j: int|
        0 <= i < j < p.section_order.len() ==> p.section_order[i] != p.section_order[j]
}

/// Whether the profile's sections contain the given check id.
pub open spec fn pv_has_id(p: ProfileView, id: Seq<char>) -> bool {
    placed(p.placements, id)
}

/// Whether the profile suppresses the given check id.
pub open spec fn pv_excluded(p: ProfileView, id: Seq<char>) -> bool {
    p.exclusions.contains(id)
}

/// The profile's full check-id set: placed and not excluded.
pub open spec fn pv_resolved(p: ProfileView, id: Seq<char>) -> bool {
    pv_has_id(p, id) && !pv_excluded(p, id)
}

/// The default overrides this profile attaches to `id`, in the order
/// the entries were recorded, concatenated.
pub open spec fn defaults_of_from(
    ds: Seq<(Seq<char>, Seq<OverrideView>)>,
    id: Seq<char>,
    i: int,
) -> Seq<OverrideView>
    decreases ds.len() - i,
{
    if i < 0 || i >= ds.len() {
        Seq::empty()
    } else if ds[i].0 == id {
        ds[i].1 + defaults_of_from(ds, id, i + 1)
    } else {
        defaults_of_from(ds, id, i + 1)
    }
}

/// The default overrides a profile attaches to a check id.
pub open spec fn pv_defaults_of(p: ProfileView, id: Seq<char>) -> Seq<OverrideView> {
    defaults_of_from(p.defaults, id, 0)
}

/// If two placements carry the same id and ids are unique, they are the
/// same placement; so the placement at `j` names `id`'s section.
pub proof fn lemma_section_of_unique(pls: Seq<(Seq<char>, Seq<char>)>, j: int)
    requires
        placements_unique(pls),
        0 <= j < pls.len(),
    ensures
        section_of(pls, pls[j].1) == pls[j].0,
{
    let id = pls[j].1;
    let k = choose|i: int| 0 <= i < pls.len() && (#[trigger] pls[i]).1 == id;
    if k != j {
        if k < j {
            assert(pls[k].1 != pls[j].1);
        } else {
            assert(pls[j].1 != pls[k].1);
        }
    }
}

/// The check ids placed under the section named `nm`, from placement
/// `i` on, in order.
pub open spec fn checks_in_from(
    pls: Seq<(Seq<char>, Seq<char>)>,
    nm: Seq<char>,
    i: int,
) -> Seq<Seq<char>>
    decreases pls.len() - i,
{
    if i < 0 || i >= pls.len() {
        Seq::empty()
    } else if pls[i].0 == nm {
        seq![pls[i].1] + checks_in_from(pls, nm, i + 1)
    } else {
        checks_in_from(pls, nm, i + 1)
    }
}

/// The placements whose check id is not in `excl`, from `i` on, in
/// order.
pub open spec fn minus_ids_from(
    pls: Seq<(Seq<char>, Seq<char>)>,
    excl: Seq<Seq<char>>,
    i: int,
) -> Seq<(Seq<char>, Seq<char>)>
    decreases pls.len() - i,
{
    if i < 0 || i >= pls.len() {
        Seq::empty()
    } else if excl.contains(pls[i].1) {
        minus_ids_from(pls, excl, i + 1)
    } else {
        seq![pls[i]] + minus_ids_from(pls, excl, i + 1)
    }
}

/// The placements whose check id is not in `excl`, in order.
pub open spec fn placements_minus_ids(
    pls: Seq<(Seq<char>, Seq<char>)>,
    excl: Seq<Seq<char>>,
) -> Seq<(Seq<char>, Seq<char>)> {
    minus_ids_from(pls, excl, 0)
}

/// The placements of `src` whose check id is not already placed in
/// `dst`, from `i` on, in order.
pub open spec fn only_new_from(
    src: Seq<(Seq<char>, Seq<char>)>,
    dst: Seq<(Seq<char>, Seq<char>)>,
    i: int,
) -> Seq<(Seq<char>, Seq<char>)>
    decreases src.len() - i,
{
    if i < 0 || i >= src.len() {
        Seq::empty()
    } else if placed(dst, src[i].1) {
        only_new_from(src, dst, i + 1)
    } else {
        seq![src[i]] + only_new_from(src, dst, i + 1)
    }
}

/// The placements of `src` not already placed in `dst`, in order.
pub open spec fn placements_only_new(
    src: Seq<(Seq<char>, Seq<char>)>,
    dst: Seq<(Seq<char>, Seq<char>)>,
) -> Seq<(Seq<char>, Seq<char>)> {
    only_new_from(src, dst, 0)
}

/// The strings of `src` that do not occur in `dst`, from `i` on, in
/// order.
pub open spec fn new_names_from(src: Seq<Seq<char>>, dst: Seq<Seq<char>>, i: int) -> Seq<
    Seq<char>,
>
    decreases src.len() - i,
{
    if i < 0 || i >= src.len() {
        Seq::empty()
    } else if dst.contains(src[i]) {
        new_names_from(src, dst, i + 1)
    } else {
        seq![src[i]] + new_names_from(src, dst, i + 1)
    }
}

/// The strings of `src` that do not occur in `dst`, in order.
pub open spec fn names_only_new(src: Seq<Seq<char>>, dst: Seq<Seq<char>>) -> Seq<Seq<char>> {
    new_names_from(src, dst, 0)
}

/// Whether some placement of `v` carries the check id `id`.
pub fn pairs_contain_id(v: &Vec<(String, String)>, id: &str) -> (r: bool)
    ensures
        r == placed(v.deep_view(), id@),
{
    let mut i: usize = 0;
    while i < v.len()
        invariant
            i <= v@.len(),
            forall|k: int| 0 <= k < i ==> (#[trigger] v.deep_view()[k]).1 != id@,
        decreases v@.len() - i,
    {
        if str_eq(v[i].1.as_str(), id) {
            proof {
                assert(v.deep_view()[i as int].1 == id@);
            }
            return true;
        }
        i += 1;
    }
    proof {
        if placed(v.deep_view(), id@) {
            let k = choose|k: int|
                0 <= k < v.deep_view().len() && (#[trigger] v.deep_view()[k]).1 == id@;
            assert(v.deep_view()[k].1 != id@);
        }
    }
    false
}

/// A copy of a placement list, denoting the same placements.
fn clone_pairs(v: &Vec<(String, String)>) -> (out: Vec<(String, String)>)
    ensures
        out.deep_view() == v.deep_view(),
{
    let mut out: Vec<(String, String)> = Vec::new();
    let mut i: usize = 0;
    while i < v.len()
        invariant
            i <= v@.len(),
            out@.len() == i,
            forall|k: int| 0 <= k < i ==> out.deep_view()[k] == v.deep_view()[k],
        decreases v@.len() - i,
    {
        let pair = &v[i];
        out.push((pair.0.clone(), pair.1.clone()));
        i += 1;
    }
    proof {
        assert(out.deep_view() =~= v.deep_view());
    }
    out
}

/// The placements of `v` whose check id is not in `excl`.
fn pairs_minus_ids(v: &Vec<(String, String)>, excl: &Vec<String>) -> (out: Vec<(String, String)>)
    ensures
        out.deep_view() == placements_minus_ids(v.deep_view(), excl.deep_view()),
{
    let mut out: Vec<(String, String)> = Vec::new();
    let mut i: usize = 0;
    while i < v.len()
        invariant
            i <= v@.len(),
            placements_minus_ids(v.deep_view(), excl.deep_view()) == out.deep_view()
                + minus_ids_from(v.deep_view(), excl.deep_view(), i as int),
        decreases v@.len() - i,
    {
        let ghost pre = out.deep_view();
        let pair = &v[i];
        if !vec_contains_str(excl, pair.1.as_str()) {
            out.push((pair.0.clone(), pair.1.clone()));
            proof {
                assert(out.deep_view() =~= pre.push(v.deep_view()[i as int]));
                assert(pre + minus_ids_from(v.deep_view(), excl.deep_view(), i as int)
                    =~= out.deep_view() + minus_ids_from(
                    v.deep_view(),
                    excl.deep_view(),
                    i as int + 1,
                ));
            }
        }
        i += 1;
    }
    proof {
        assert(out.deep_view() + minus_ids_from(v.deep_view(), excl.deep_view(), v@.len() as int)
            =~= out.deep_view());
    }
    out
}

/// The placements of `src` whose check id is not already placed in
/// `dst`.
fn pairs_only_new(src: &Vec<(String, String)>, dst: &Vec<(String, String)>) -> (out: Vec<
    (String, String),
>)
    ensures
        out.deep_view() == placements_only_new(src.deep_view(), dst.deep_view()),
{
    let mut out: Vec<(String, String)> = Vec::new();
    let mut i: usize = 0;
    while i < src.len()
        invariant
            i <= src@.len(),
            placements_only_new(src.deep_view(), dst.deep_view()) == out.deep_view()
                + only_new_from(src.deep_view(), dst.deep_view(), i as int),
        decreases src@.len() - i,
    {
        let ghost pre = out.deep_view();
        let pair = &src[i];
        if !pairs_contain_id(dst, pair.1.as_str()) {
            out.push((pair.0.clone(), pair.1.clone()));
            proof {
                assert(out.deep_view() =~= pre.push(src.deep_view()[i as int]));
                assert(pre + only_new_from(src.deep_view(), dst.deep_view(), i as int)
                    =~= out.deep_view() + only_new_from(
                    src.deep_view(),
                    dst.deep_view(),
                    i as int + 1,
                ));
            }
        }
        i += 1;
    }
    proof {
        assert(out.deep_view() + only_new_from(src.deep_view(), dst.deep_view(), src@.len() as int)
            =~= out.deep_view());
    }
    out
}

/// The strings of `src` that do not occur in `dst`.
fn strings_only_new(src: &Vec<String>, dst: &Vec<String>) -> (out: Vec<String>)
    ensures
        out.deep_view() == names_only_new(src.deep_view(), dst.deep_view()),
{
    let mut out: Vec<String> = Vec::new();
    let mut i: usize = 0;
    while i < src.len()
        invariant
            i <= src@.len(),
            names_only_new(src.deep_view(), dst.deep_view()) == out.deep_view() + new_names_from(
                src.deep_view(),
                dst.deep_view(),
                i as int,
            ),
        decreases src@.len() - i,
    {
        let ghost pre = out.deep_view();
        if !vec_contains_str(dst, src[i].as_str()) {
            out.push(src[i].clone());
            proof {
                assert(out.deep_view() =~= pre.push(src.deep_view()[i as int]));
                assert(pre + new_names_from(src.deep_view(), dst.deep_view(), i as int)
                    =~= out.deep_view() + new_names_from(
                    src.deep_view(),
                    dst.deep_view(),
                    i as int + 1,
                ));
            }
        }
        i += 1;
    }
    proof {
        assert(out.deep_view() + new_names_from(src.deep_view(), dst.deep_view(), src@.len() as int)
            =~= out.deep_view());
    }
    out
}

impl Profile {
    /// An empty profile: no sections, placements, exclusions or
    /// defaults.
    pub fn new() -> (r: Self)
        ensures
            r@ == (ProfileView {
                section_order: Seq::<Seq<char>>::empty(),
                placements: Seq::<(Seq<char>, Seq<char>)>::empty(),
                exclusions: Seq::<Seq<char>>::empty(),
                defaults: Seq::<(Seq<char>, Seq<OverrideView>)>::empty(),
            }),
            pv_wf(r@),
    {
        let r = Profile {
            section_order: Vec::new(),
            placements: Vec::new(),
            exclusions: Vec::new(),
            defaults: Vec::new(),
        };
        proof {
            assert(r@.section_order =~= Seq::<Seq<char>>::empty());
            assert(r@.placements =~= Seq::<(Seq<char>, Seq<char>)>::empty());
            assert(r@.exclusions =~= Seq::<Seq<char>>::empty());
            assert(r@.defaults =~= Seq::<(Seq<char>, Seq<OverrideView>)>::empty());
        }
        r
    }

    /// Whether this profile's sections contain the given check id.
    pub fn contains_check(&self, id: &str) -> (r: bool)
        ensures
            r == pv_has_id(self@, id@),
    {
        pairs_contain_id(&self.placements, id)
    }

    /// Whether the given check id survives resolution: placed in some
    /// section and not excluded.
    pub fn is_resolved(&self, id: &str) -> (r: bool)
        ensures
            r == pv_resolved(self@, id@),
    {
        self.contains_check(id) && !vec_contains_str(&self.exclusions, id)
    }

    /// The profile as an ordered list of named sections: sections in
    /// declaration order, each listing its check ids in placement
    /// order.
    pub fn sections(&self) -> (r: Vec<Section>)
        ensures
            r.deep_view().len() == self@.section_order.len(),
            forall|k: int|
                0 <= k < r.deep_view().len() ==> (#[trigger] r.deep_view()[k]).name
                    == self@.section_order[k] && r.deep_view()[k].checks == checks_in_from(
                    self@.placements,
                    self@.section_order[k],
                    0,
                ),
    {
        let ghost pls = self@.placements;
        let mut out: Vec<Section> = Vec::new();
        let mut k: usize = 0;
        while k < self.section_order.len()
            invariant
                k <= self.section_order@.len(),
                pls == self@.placements,
                out.deep_view().len() == k,
                forall|m: int|
                    0 <= m < k ==> (#[trigger] out.deep_view()[m]).name
                        == self@.section_order[m] && out.deep_view()[m].checks
                        == checks_in_from(pls, self@.section_order[m], 0),
            decreases self.section_order@.len() - k,
        {
            let name = &self.section_order[k];
            let mut checks: Vec<String> = Vec::new();
            let mut i: usize = 0;
            while i < self.placements.len()
                invariant
                    i <= self.placements@.len(),
                    pls == self@.placements,
                    checks_in_from(pls, name@, 0) == checks.deep_view() + checks_in_from(
                        pls,
                        name@,
                        i as int,
                    ),
                decreases self.placements@.len() - i,
            {
                let pair = &self.placements[i];
                let ghost pre = checks.deep_view();
                if str_eq(pair.0.as_str(), name.as_str()) {
                    checks.push(pair.1.clone());
                    proof {
                        assert(checks.deep_view() =~= pre.push(pls[i as int].1));
                        assert(pre + (seq![pls[i as int].1] + checks_in_from(
                            pls,
                            name@,
                            i as int + 1,
                        )) =~= checks.deep_view() + checks_in_from(pls, name@, i as int + 1));
                    }
                }
                i += 1;
            }
            proof {
                assert(checks.deep_view() + checks_in_from(pls, name@, pls.len() as int)
                    =~= checks.deep_view());
            }
            let ghost pre_out = out.deep_view();
            out.push(Section { name: name.clone(), checks });
            proof {
                assert(out.deep_view() =~= pre_out.push(
                    SectionView { name: name@, checks: checks_in_from(pls, name@, 0) },
                ));
            }
            k += 1;
        }
        out
    }

    /// The default overrides this profile attaches to a check id, in
    /// recording order.
    pub fn defaults_for(&self, id: &str) -> (out: Vec<Override>)
        ensures
            out.deep_view() == pv_defaults_of(self@, id@),
    {
        let mut out: Vec<Override> = Vec::new();
        let mut i: usize = 0;
        while i < self.defaults.len()
            invariant
                i <= self.defaults@.len(),
                pv_defaults_of(self@, id@) == out.deep_view() + defaults_of_from(
                    self@.defaults,
                    id@,
                    i as int,
                ),
            decreases self.defaults@.len() - i,
        {
            let entry = &self.defaults[i];
            if str_eq(entry.0.as_str(), id) {
                let ghost pre = out.deep_view();
                let mut extra = clone_overrides(&entry.1);
                out.append(&mut extra);
                proof {
                    assert(out.deep_view() =~= pre + self@.defaults[i as int].1);
                    assert(pre + (self@.defaults[i as int].1 + defaults_of_from(
                        self@.defaults,
                        id@,
                        i as int + 1,
                    )) =~= out.deep_view() + defaults_of_from(self@.defaults, id@, i as int + 1));
                }
            }
            i += 1;
        }
        proof {
            assert(out.deep_view() + defaults_of_from(self@.defaults, id@, self.defaults@.len() as int)
                =~= out.deep_view());
        }
        out
    }
}

/// The index of the placement carrying `id`, if any.
fn find_pair_index(v: &Vec<(String, String)>, id: &str) -> (r: Option<usize>)
    ensures
        match r {
            Some(j) => j < v@.len() && v.deep_view()[j as int].1 == id@,
            None => !placed(v.deep_view(), id@),
        },
{
    let mut i: usize = 0;
    while i < v.len()
        invariant
            i <= v@.len(),
            forall|k: int| 0 <= k < i ==> (#[trigger] v.deep_view()[k]).1 != id@,
        decreases v@.len() - i,
    {
        if str_eq(v[i].1.as_str(), id) {
            proof {
                assert(v.deep_view()[i as int].1 == id@);
            }
            return Some(i);
        }
        i += 1;
    }
    proof {
        if placed(v.deep_view(), id@) {
            let k = choose|k: int|
                0 <= k < v.deep_view().len() && (#[trigger] v.deep_view()[k]).1 == id@;
            assert(v.deep_view()[k].1 != id@);
        }
    }
    None
}

/// A copy of a defaults list, denoting the same override entries.
fn clone_defaults(v: &Vec<(String, Vec<Override>)>) -> (out: Vec<(String, Vec<Override>)>)
    ensures
        out.deep_view() == v.deep_view(),
{
    let mut out: Vec<(String, Vec<Override>)> = Vec::new();
    let mut i: usize = 0;
    while i < v.len()
        invariant
            i <= v@.len(),
            out@.len() == i,
            forall|k: int| 0 <= k < i ==> out.deep_view()[k] == v.deep_view()[k],
        decreases v@.len() - i,
    {
        let entry = &v[i];
        let ovs = entry.1.clone();
        proof {
            assert(ovs.deep_view() =~= entry.1.deep_view()) by {
                assert forall|k: int| 0 <= k < entry.1@.len() implies ovs.deep_view()[k]
                    == entry.1.deep_view()[k] by {
                    assert(cloned::<Override>(entry.1[k], ovs[k]));
                }
            }
        }
        out.push((entry.0.clone(), ovs));
        i += 1;
    }
    proof {
        assert(out.deep_view() =~= v.deep_view());
    }
    out
}

/// Whether including `src` into `dst` would have to move some check id
/// from one section name to a different one.
pub open spec fn include_conflict(dst: ProfileView, src: ProfileView) -> bool {
    exists|i: int|
        0 <= i < src.placements.len() && placed(dst.placements, (#[trigger] src.placements[i]).1)
            && section_of(dst.placements, src.placements[i].1) != src.placements[i].0
}

/// The profile obtained by merging `src` into `dst`: sections of `dst`
/// first, then `src`'s new sections in `src`'s order; `dst`'s
/// placements, then `src`'s placements for ids not yet present, with
/// `src`'s exclusions applied to the union; exclusions and default
/// overrides accumulated.
pub open spec fn include_views(dst: ProfileView, src: ProfileView) -> ProfileView {
    ProfileView {
        section_order: dst.section_order + names_only_new(src.section_order, dst.section_order),
        placements: placements_minus_ids(
            dst.placements + placements_only_new(src.placements, dst.placements),
            src.exclusions,
        ),
        exclusions: dst.exclusions + names_only_new(src.exclusions, dst.exclusions),
        defaults: dst.defaults + src.defaults,
    }
}

/// Every element of `minus_ids_from(pls, excl, i)` is an element of
/// `pls` at or after `i`, and its id is not in `excl`.
pub proof fn lemma_minus_ids_membership(pls: Seq<(Seq<char>, Seq<char>)>, excl: Seq<Seq<char>>, i: int)
    requires
        0 <= i <= pls.len(),
    ensures
        forall|a: int|
            0 <= a < minus_ids_from(pls, excl, i).len() ==> exists|k: int|
                i <= k < pls.len() && pls[k] == #[trigger] minus_ids_from(pls, excl, i)[a]
                    && !excl.contains(pls[k].1),
    decreases pls.len() - i,
{
    if i < pls.len() {
        lemma_minus_ids_membership(pls, excl, i + 1);
        let rest = minus_ids_from(pls, excl, i + 1);
        let whole = minus_ids_from(pls, excl, i);
        if !excl.contains(pls[i].1) {
            assert forall|a: int| 0 <= a < whole.len() implies exists|k: int|
                i <= k < pls.len() && pls[k] == #[trigger] whole[a] && !excl.contains(
                    pls[k].1,
                ) by {
                if a == 0 {
                    assert(whole[0] == pls[i]);
                    assert(i <= i < pls.len() && pls[i] == whole[0] && !excl.contains(pls[i].1));
                } else {
                    assert(whole[a] == rest[a - 1]);
                    let k = choose|k: int|
                        i + 1 <= k < pls.len() && pls[k] == #[trigger] rest[a - 1] && !excl.contains(
                            pls[k].1,
                        );
                    assert(i <= k < pls.len() && pls[k] == whole[a] && !excl.contains(pls[k].1));
                }
            }
        }
    }
}

/// Every id placed at or after `i` and not excluded is still placed in
/// the filtered placements.
proof fn lemma_minus_ids_keeps(pls: Seq<(Seq<char>, Seq<char>)>, excl: Seq<Seq<char>>, i: int)
    requires
        0 <= i <= pls.len(),
    ensures
        forall|k: int|
            i <= k < pls.len() && !excl.contains((#[trigger] pls[k]).1) ==> placed(
                minus_ids_from(pls, excl, i),
                pls[k].1,
            ),
    decreases pls.len() - i,
{
    if i < pls.len() {
        lemma_minus_ids_keeps(pls, excl, i + 1);
        let rest = minus_ids_from(pls, excl, i + 1);
        let whole = minus_ids_from(pls, excl, i);
        assert forall|k: int|
            i <= k < pls.len() && !excl.contains((#[trigger] pls[k]).1) implies placed(
            whole,
            pls[k].1,
        ) by {
            if k == i {
                assert(whole[0] == pls[i]);
            } else {
                assert(placed(rest, pls[k].1));
                let a = choose|a: int| 0 <= a < rest.len() && (#[trigger] rest[a]).1 == pls[k].1;
                if !excl.contains(pls[i].1) {
                    assert(whole[a + 1] == rest[a]);
                } else {
                    assert(whole[a] == rest[a]);
                }
            }
        }
    }
}

/// The filtered placements keep ids unique.
pub proof fn lemma_minus_ids_unique(pls: Seq<(Seq<char>, Seq<char>)>, excl: Seq<Seq<char>>)
    requires
        placements_unique(pls),
    ensures
        placements_unique(placements_minus_ids(pls, excl)),
        forall|id: Seq<char>|
            placed(#[trigger] placements_minus_ids(pls, excl), id) <==> placed(pls, id)
                && !excl.contains(id),
{
    lemma_minus_ids_unique_from(pls, excl, 0);
    lemma_minus_ids_membership(pls, excl, 0);
    lemma_minus_ids_keeps(pls, excl, 0);
    let out = placements_minus_ids(pls, excl);
    assert forall|id: Seq<char>| #[trigger] placed(out, id) implies placed(pls, id)
        && !excl.contains(id) by {
        let a = choose|a: int| 0 <= a < out.len() && (#[trigger] out[a]).1 == id;
        let k = choose|k: int| 0 <= k < pls.len() && pls[k] == out[a] && !excl.contains(pls[k].1);
        assert(pls[k].1 == id);
    }
    assert forall|id: Seq<char>| placed(pls, id) && !excl.contains(id) implies #[trigger] placed(
        out,
        id,
    ) by {
        let k = choose|k: int| 0 <= k < pls.len() && (#[trigger] pls[k]).1 == id;
        assert(placed(out, pls[k].1));
    }
}

proof fn lemma_minus_ids_unique_from(
    pls: Seq<(Seq<char>, Seq<char>)>,
    excl: Seq<Seq<char>>,
    i: int,
)
    requires
        0 <= i <= pls.len(),
        placements_unique(pls),
    ensures
        placements_unique(minus_ids_from(pls, excl, i)),
    decreases pls.len() - i,
{
    if i < pls.len() {
        lemma_minus_ids_unique_from(pls, excl, i + 1);
        lemma_minus_ids_membership(pls, excl, i + 1);
        let rest = minus_ids_from(pls, excl, i + 1);
        let whole = minus_ids_from(pls, excl, i);
        if !excl.contains(pls[i].1) {
            assert forall|a: int, b: int| 0 <= a < b < whole.len() implies (
            #[trigger] whole[a]).1 != (#[trigger] whole[b]).1 by {
                if a == 0 {
                    assert(whole[b] == rest[b - 1]);
                    let k = choose|k: int|
                        i + 1 <= k < pls.len() && pls[k] == #[trigger] rest[b - 1] && !excl.contains(
                            pls[k].1,
                        );
                    assert(pls[i].1 != pls[k].1);
                } else {
                    assert(whole[a] == rest[a - 1]);
                    assert(whole[b] == rest[b - 1]);
                }
            }
        }
    }
}

/// Elements picked from `src` because `dst` lacks their id: they all
/// come from `src`, their ids are absent from `dst`, and ids stay
/// unique.
pub proof fn lemma_only_new_membership(
    src: Seq<(Seq<char>, Seq<char>)>,
    dst: Seq<(Seq<char>, Seq<char>)>,
    i: int,
)
    requires
        0 <= i <= src.len(),
    ensures
        forall|a: int|
            0 <= a < only_new_from(src, dst, i).len() ==> exists|k: int|
                i <= k < src.len() && src[k] == #[trigger] only_new_from(src, dst, i)[a] && !placed(
                    dst,
                    src[k].1,
                ),
    decreases src.len() - i,
{
    if i < src.len() {
        lemma_only_new_membership(src, dst, i + 1);
        let rest = only_new_from(src, dst, i + 1);
        let whole = only_new_from(src, dst, i);
        if !placed(dst, src[i].1) {
            assert forall|a: int| 0 <= a < whole.len() implies exists|k: int|
                i <= k < src.len() && src[k] == #[trigger] whole[a] && !placed(dst, src[k].1) by {
                if a == 0 {
                    assert(src[i] == whole[0] && !placed(dst, src[i].1));
                } else {
                    assert(whole[a] == rest[a - 1]);
                    let k = choose|k: int|
                        i + 1 <= k < src.len() && src[k] == #[trigger] rest[a - 1] && !placed(
                            dst,
                            src[k].1,
                        );
                    assert(i <= k < src.len() && src[k] == whole[a] && !placed(dst, src[k].1));
                }
            }
        }
    }
}

/// Every id placed in `src` at or after `i` and absent from `dst` is
/// placed among the newly picked elements.
proof fn lemma_only_new_keeps(
    src: Seq<(Seq<char>, Seq<char>)>,
    dst: Seq<(Seq<char>, Seq<char>)>,
    i: int,
)
    requires
        0 <= i <= src.len(),
    ensures
        forall|k: int|
            i <= k < src.len() && !placed(dst, (#[trigger] src[k]).1) ==> placed(
                only_new_from(src, dst, i),
                src[k].1,
            ),
    decreases src.len() - i,
{
    if i < src.len() {
        lemma_only_new_keeps(src, dst, i + 1);
        let rest = only_new_from(src, dst, i + 1);
        let whole = only_new_from(src, dst, i);
        assert forall|k: int|
            i <= k < src.len() && !placed(dst, (#[trigger] src[k]).1) implies placed(
            whole,
            src[k].1,
        ) by {
            if k == i {
                assert(whole[0] == src[i]);
            } else {
                assert(placed(rest, src[k].1));
                let a = choose|a: int| 0 <= a < rest.len() && (#[trigger] rest[a]).1 == src[k].1;
                if !placed(dst, src[i].1) {
                    assert(whole[a + 1] == rest[a]);
                } else {
                    assert(whole[a] == rest[a]);
                }
            }
        }
    }
}

proof fn lemma_only_new_unique_from(
    src: Seq<(Seq<char>, Seq<char>)>,
    dst: Seq<(Seq<char>, Seq<char>)>,
    i: int,
)
    requires
        0 <= i <= src.len(),
        placements_unique(src),
    ensures
        placements_unique(only_new_from(src, dst, i)),
    decreases src.len() - i,
{
    if i < src.len() {
        lemma_only_new_unique_from(src, dst, i + 1);
        lemma_only_new_membership(src, dst, i + 1);
        let rest = only_new_from(src, dst, i + 1);
        let whole = only_new_from(src, dst, i);
        if !placed(dst, src[i].1) {
            assert forall|a: int, b: int| 0 <= a < b < whole.len() implies (
            #[trigger] whole[a]).1 != (#[trigger] whole[b]).1 by {
                if a == 0 {
                    assert(whole[b] == rest[b - 1]);
                    let k = choose|k: int|
                        i + 1 <= k < src.len() && src[k] == #[trigger] rest[b - 1] && !placed(
                            dst,
                            src[k].1,
                        );
                    assert(src[i].1 != src[k].1);
                } else {
                    assert(whole[a] == rest[a - 1]);
                    assert(whole[b] == rest[b - 1]);
                }
            }
        }
    }
}

/// The merged placements `dst + only_new(src, dst)` carry exactly the
/// ids of `dst` and `src`, uniquely.
proof fn lemma_merged_placements(
    dst: Seq<(Seq<char>, Seq<char>)>,
    src: Seq<(Seq<char>, Seq<char>)>,
)
    requires
        placements_unique(dst),
        placements_unique(src),
    ensures
        placements_unique(dst + placements_only_new(src, dst)),
        forall|id: Seq<char>|
            placed(#[trigger] (dst + placements_only_new(src, dst)), id) <==> placed(dst, id)
                || placed(src, id),
{
    let extra = placements_only_new(src, dst);
    let merged = dst + extra;
    lemma_only_new_unique_from(src, dst, 0);
    lemma_only_new_membership(src, dst, 0);
    lemma_only_new_keeps(src, dst, 0);
    assert forall|a: int, b: int| 0 <= a < b < merged.len() implies (#[trigger] merged[a]).1 != (
    #[trigger] merged[b]).1 by {
        if a < dst.len() && b >= dst.len() {
            assert(merged[b] == extra[b - dst.len()]);
            let k = choose|k: int|
                0 <= k < src.len() && src[k] == #[trigger] extra[b - dst.len()] && !placed(
                    dst,
                    src[k].1,
                );
            if merged[a].1 == merged[b].1 {
                assert(placed(dst, src[k].1));
            }
        } else if a >= dst.len() {
            assert(merged[a] == extra[a - dst.len()]);
            assert(merged[b] == extra[b - dst.len()]);
        }
    }
    assert forall|id: Seq<char>| #[trigger] placed(merged, id) implies placed(dst, id) || placed(
        src,
        id,
    ) by {
        let a = choose|a: int| 0 <= a < merged.len() && (#[trigger] merged[a]).1 == id;
        if a < dst.len() {
            assert(dst[a].1 == id);
        } else {
            assert(merged[a] == extra[a - dst.len()]);
            let k = choose|k: int|
                0 <= k < src.len() && src[k] == #[trigger] extra[a - dst.len()] && !placed(
                    dst,
                    src[k].1,
                );
            assert(src[k].1 == id);
        }
    }
    assert forall|id: Seq<char>| placed(dst, id) || placed(src, id) implies #[trigger] placed(
        merged,
        id,
    ) by {
        if placed(dst, id) {
            let k = choose|k: int| 0 <= k < dst.len() && (#[trigger] dst[k]).1 == id;
            assert(merged[k] == dst[k]);
        } else {
            let k = choose|k: int| 0 <= k < src.len() && (#[trigger] src[k]).1 == id;
            if !placed(dst, id) {
                assert(placed(extra, src[k].1));
                let a = choose|a: int| 0 <= a < extra.len() && (#[trigger] extra[a]).1 == id;
                assert(merged[dst.len() + a] == extra[a]);
            }
        }
    }
}

/// The strings kept by `names_only_new`: exactly those of `src` absent
/// from `dst`, each occurring once.
proof fn lemma_new_names_membership(src: Seq<Seq<char>>, dst: Seq<Seq<char>>, i: int)
    requires
        0 <= i <= src.len(),
    ensures
        forall|a: int|
            0 <= a < new_names_from(src, dst, i).len() ==> src.contains(
                #[trigger] new_names_from(src, dst, i)[a],
            ) && !dst.contains(new_names_from(src, dst, i)[a]),
    decreases src.len() - i,
{
    if i < src.len() {
        lemma_new_names_membership(src, dst, i + 1);
        let rest = new_names_from(src, dst, i + 1);
        let whole = new_names_from(src, dst, i);
        if !dst.contains(src[i]) {
            assert forall|a: int| 0 <= a < whole.len() implies src.contains(#[trigger] whole[a])
                && !dst.contains(whole[a]) by {
                if a == 0 {
                    assert(whole[0] == src[i]);
                    assert(src.contains(src[i]));
                } else {
                    assert(whole[a] == rest[a - 1]);
                }
            }
        }
    }
}

/// The combined list `dst + names_only_new(src, dst)` contains a string
/// exactly when `dst` or `src` contains it, and keeps unique entries
/// unique.
pub proof fn lemma_names_union(src: Seq<Seq<char>>, dst: Seq<Seq<char>>)
    ensures
        forall|n: Seq<char>|
            (dst + names_only_new(src, dst)).contains(n) <==> dst.contains(n) || src.contains(n),
        (forall|i: int, j: int| 0 <= i < j < dst.len() ==> dst[i] != dst[j]) && (forall|
            i: int,
            j: int,
        |
            0 <= i < j < src.len() ==> src[i] != src[j]) ==> forall|i: int, j: int|
            0 <= i < j < (dst + names_only_new(src, dst)).len() ==> (dst + names_only_new(
                src,
                dst,
            ))[i] != (dst + names_only_new(src, dst))[j],
{
    let extra = names_only_new(src, dst);
    let all = dst + extra;
    lemma_new_names_membership(src, dst, 0);
    lemma_new_names_keeps(src, dst, 0);
    assert forall|n: Seq<char>| all.contains(n) implies dst.contains(n) || src.contains(n) by {
        let a = choose|a: int| 0 <= a < all.len() && all[a] == n;
        if a < dst.len() {
            assert(dst[a] == n);
        } else {
            assert(all[a] == extra[a - dst.len()]);
        }
    }
    assert forall|n: Seq<char>| dst.contains(n) || src.contains(n) implies all.contains(n) by {
        if dst.contains(n) {
            let k = choose|k: int| 0 <= k < dst.len() && dst[k] == n;
            assert(all[k] == n);
        } else {
            let k = choose|k: int| 0 <= k < src.len() && src[k] == n;
            assert(extra.contains(src[k]));
            let a = choose|a: int| 0 <= a < extra.len() && extra[a] == n;
            assert(all[dst.len() + a] == n);
        }
    }
    if (forall|i: int, j: int| 0 <= i < j < dst.len() ==> dst[i] != dst[j]) && (forall|
        i: int,
        j: int,
    | 0 <= i < j < src.len() ==> src[i] != src[j]) {
        lemma_new_names_unique(src, dst, 0);
        assert forall|i: int, j: int| 0 <= i < j < all.len() implies all[i] != all[j] by {
            if i < dst.len() && j >= dst.len() {
                assert(all[j] == extra[j - dst.len()]);
                if all[i] == all[j] {
                    assert(dst.contains(extra[j - dst.len()]));
                }
            } else if i >= dst.len() {
                assert(all[i] == extra[i - dst.len()]);
                assert(all[j] == extra[j - dst.len()]);
            }
        }
    }
}

/// Every string of `src` (from `i` on) absent from `dst` is kept.
proof fn lemma_new_names_keeps(src: Seq<Seq<char>>, dst: Seq<Seq<char>>, i: int)
    requires
        0 <= i <= src.len(),
    ensures
        forall|k: int|
            i <= k < src.len() && !dst.contains(#[trigger] src[k]) ==> new_names_from(
                src,
                dst,
                i,
            ).contains(src[k]),
    decreases src.len() - i,
{
    if i < src.len() {
        lemma_new_names_keeps(src, dst, i + 1);
        let rest = new_names_from(src, dst, i + 1);
        let whole = new_names_from(src, dst, i);
        assert forall|k: int|
            i <= k < src.len() && !dst.contains(#[trigger] src[k]) implies whole.contains(
            src[k],
        ) by {
            if k == i {
                assert(whole[0] == src[i]);
            } else {
                assert(rest.contains(src[k]));
                let a = choose|a: int| 0 <= a < rest.len() && rest[a] == src[k];
                if !dst.contains(src[i]) {
                    assert(whole[a + 1] == rest[a]);
                } else {
                    assert(whole[a] == rest[a]);
                }
            }
        }
    }
}

proof fn lemma_new_names_unique(src: Seq<Seq<char>>, dst: Seq<Seq<char>>, i: int)
    requires
        0 <= i <= src.len(),
        forall|a: int, b: int| 0 <= a < b < src.len() ==> src[a] != src[b],
    ensures
        forall|a: int, b: int|
            0 <= a < b < new_names_from(src, dst, i).len() ==> new_names_from(src, dst, i)[a]
                != new_names_from(src, dst, i)[b],
    decreases src.len() - i,
{
    if i < src.len() {
        lemma_new_names_unique(src, dst, i + 1);
        lemma_new_names_membership_idx(src, dst, i + 1);
        let rest = new_names_from(src, dst, i + 1);
        let whole = new_names_from(src, dst, i);
        if !dst.contains(src[i]) {
            assert forall|a: int, b: int| 0 <= a < b < whole.len() implies whole[a]
                != whole[b] by {
                if a == 0 {
                    assert(whole[b] == rest[b - 1]);
                    let k = choose|k: int|
                        i + 1 <= k < src.len() && src[k] == #[trigger] rest[b - 1];
                    assert(src[i] != src[k]);
                } else {
                    assert(whole[a] == rest[a - 1]);
                    assert(whole[b] == rest[b - 1]);
                }
            }
        }
    }
}

proof fn lemma_new_names_membership_idx(src: Seq<Seq<char>>, dst: Seq<Seq<char>>, i: int)
    requires
        0 <= i <= src.len(),
    ensures
        forall|a: int|
            0 <= a < new_names_from(src, dst, i).len() ==> exists|k: int|
                i <= k < src.len() && src[k] == #[trigger] new_names_from(src, dst, i)[a],
    decreases src.len() - i,
{
    if i < src.len() {
        lemma_new_names_membership_idx(src, dst, i + 1);
        let rest = new_names_from(src, dst, i + 1);
        let whole = new_names_from(src, dst, i);
        if !dst.contains(src[i]) {
            assert forall|a: int| 0 <= a < whole.len() implies exists|k: int|
                i <= k < src.len() && src[k] == #[trigger] whole[a] by {
                if a == 0 {
                    assert(src[i] == whole[0]);
                } else {
                    assert(whole[a] == rest[a - 1]);
                    let k = choose|k: int|
                        i + 1 <= k < src.len() && src[k] == #[trigger] rest[a - 1];
                    assert(i <= k < src.len() && src[k] == whole[a]);
                }
            }
        }
    }
}

/// What including one profile into another leaves placed, excluded and
/// defaulted, and that well-formedness survives the merge.
pub proof fn lemma_include_views(dst: ProfileView, src: ProfileView)
    requires
        pv_wf(dst),
        pv_wf(src),
    ensures
        pv_wf(include_views(dst, src)),
        forall|id: Seq<char>|
            #[trigger] pv_has_id(include_views(dst, src), id) <==> ((pv_has_id(dst, id)
                || pv_has_id(src, id)) && !src.exclusions.contains(id)),
        forall|id: Seq<char>|
            #[trigger] pv_excluded(include_views(dst, src), id) <==> pv_excluded(dst, id)
                || pv_excluded(src, id),
{
    let merged = dst.placements + placements_only_new(src.placements, dst.placements);
    let out = include_views(dst, src);
    lemma_merged_placements(dst.placements, src.placements);
    lemma_minus_ids_unique(merged, src.exclusions);
    lemma_names_union(src.section_order, dst.section_order);
    lemma_names_union(src.exclusions, dst.exclusions);
    lemma_minus_ids_membership(merged, src.exclusions, 0);
    lemma_only_new_membership(src.placements, dst.placements, 0);
    assert forall|i: int| 0 <= i < out.placements.len() implies out.section_order.contains((
    #[trigger] out.placements[i]).0) by {
        let k = choose|k: int|
            0 <= k < merged.len() && merged[k] == out.placements[i] && !src.exclusions.contains(
                merged[k].1,
            );
        if k < dst.placements.len() {
            assert(dst.section_order.contains(merged[k].0));
        } else {
            let extra = placements_only_new(src.placements, dst.placements);
            assert(merged[k] == extra[k - dst.placements.len()]);
            let m = choose|m: int|
                0 <= m < src.placements.len() && src.placements[m] == #[trigger] extra[k
                    - dst.placements.len()] && !placed(dst.placements, src.placements[m].1);
            assert(src.section_order.contains(src.placements[m].0));
        }
    }
}

/// The composition law for repeated inclusion: merging a well-formed
/// profile into a well-formed profile keeps check ids unique, and
/// merging the same profile in a second time — directly or after it
/// already arrived transitively — adds no check id at all.
pub proof fn lemma_include_twice(dst: ProfileView, src: ProfileView)
    requires
        pv_wf(dst),
        pv_wf(src),
    ensures
        pv_wf(include_views(dst, src)),
        pv_wf(include_views(include_views(dst, src), src)),
        forall|id: Seq<char>|
            #[trigger] pv_has_id(include_views(include_views(dst, src), src), id) <==> pv_has_id(
                include_views(dst, src),
                id,
            ),
{
    lemma_include_views(dst, src);
    let once = include_views(dst, src);
    lemma_include_views(once, src);
    assert forall|id: Seq<char>|
        #[trigger] pv_has_id(include_views(once, src), id) <==> pv_has_id(once, id) by {
        if pv_has_id(include_views(once, src), id) {
            assert((pv_has_id(once, id) || pv_has_id(src, id)) && !src.exclusions.contains(id));
            if !pv_has_id(once, id) {
                assert(pv_has_id(src, id) && !src.exclusions.contains(id));
                assert(pv_has_id(once, id));
            }
        }
        if pv_has_id(once, id) {
            assert((pv_has_id(dst, id) || pv_has_id(src, id)) && !src.exclusions.contains(id));
        }
    }
}

/// The exclusion law for inheritance: a check id excluded by a profile
/// does not survive resolution there, and a profile that includes the
/// excluding profile does not resurrect it — the exclusion is inherited
/// and keeps the id out of the resolved set.
pub proof fn lemma_exclusion_persists(dst: ProfileView, src: ProfileView, x: Seq<char>)
    requires
        pv_excluded(src, x),
    ensures
        !pv_resolved(src, x),
        !pv_resolved(include_views(dst, src), x),
{
    lemma_names_union(src.exclusions, dst.exclusions);
    assert(pv_excluded(include_views(dst, src), x));
}

impl Profile {
    /// Open (or reopen) the named section: record it in the section
    /// order if it is new. Placements, exclusions and defaults are
    /// untouched.
    pub(crate) fn apply_add_section(&mut self, name: &str)
        ensures
            final(self)@ == (ProfileView {
                section_order: if old(self)@.section_order.contains(name@) {
                    old(self)@.section_order
                } else {
                    old(self)@.section_order.push(name@)
                },
                ..old(self)@
            }),
    {
        if !vec_contains_str(&self.section_order, name) {
            self.section_order.push(String::from_str(name));
            proof {
                assert(self@.section_order =~= old(self)@.section_order.push(name@));
            }
        }
    }

    /// Append a check id to the named section. Fails (with no change)
    /// when the id is already placed somewhere in this profile.
    pub(crate) fn apply_add_check(&mut self, section: &str, id: &str) -> (r: bool)
        ensures
            r == !pv_has_id(old(self)@, id@),
            r ==> final(self)@ == (ProfileView {
                placements: old(self)@.placements.push((section@, id@)),
                ..old(self)@
            }),
            !r ==> *final(self) == *old(self),
    {
        if pairs_contain_id(&self.placements, id) {
            return false;
        }
        self.placements.push((String::from_str(section), String::from_str(id)));
        proof {
            assert(self@.placements =~= old(self)@.placements.push((section@, id@)));
        }
        true
    }

    /// Remove the id from whatever section holds it (a no-op when it is
    /// absent) and record it as excluded.
    pub(crate) fn apply_exclude(&mut self, id: &str)
        ensures
            final(self)@ == (ProfileView {
                placements: placements_minus_ids(old(self)@.placements, seq![id@]),
                exclusions: if old(self)@.exclusions.contains(id@) {
                    old(self)@.exclusions
                } else {
                    old(self)@.exclusions.push(id@)
                },
                ..old(self)@
            }),
    {
        let mut single: Vec<String> = Vec::new();
        single.push(String::from_str(id));
        proof {
            assert(single.deep_view() =~= seq![id@]);
        }
        let filtered = pairs_minus_ids(&self.placements, &single);
        self.placements = filtered;
        if !vec_contains_str(&self.exclusions, id) {
            self.exclusions.push(String::from_str(id));
            proof {
                assert(self@.exclusions =~= old(self)@.exclusions.push(id@));
            }
        }
    }

    /// Attach default severity overrides for a check id; repeated calls
    /// for one id accumulate.
    pub(crate) fn apply_overrides(&mut self, check_id: &str, overrides: Vec<Override>)
        ensures
            final(self)@ == (ProfileView {
                defaults: old(self)@.defaults.push((check_id@, overrides.deep_view())),
                ..old(self)@
            }),
    {
        let ghost ovs_view = overrides.deep_view();
        self.defaults.push((String::from_str(check_id), overrides));
        proof {
            assert(self@.defaults =~= old(self)@.defaults.push((check_id@, ovs_view)));
        }
    }

    /// Merge another profile into this one, as `include_profile` asks:
    /// union of sections and placements, inherited exclusions applied,
    /// defaults accumulated. Fails (with no change) when some check id
    /// would have to move between differently named sections.
    pub(crate) fn apply_include(&mut self, src: &Profile) -> (r: Result<(), String>)
        requires
            placements_unique(old(self)@.placements),
            placements_unique(src@.placements),
        ensures
            match r {
                Ok(_) => !include_conflict(old(self)@, src@) && final(self)@ == include_views(
                    old(self)@,
                    src@,
                ),
                Err(_) => include_conflict(old(self)@, src@) && *final(self) == *old(self),
            },
    {
        let mut i: usize = 0;
        while i < src.placements.len()
            invariant
                i <= src.placements@.len(),
                placements_unique(self@.placements),
                *self == *old(self),
                forall|k: int|
                    0 <= k < i ==> !(placed(self@.placements, (#[trigger] src@.placements[k]).1)
                        && section_of(self@.placements, src@.placements[k].1)
                        != src@.placements[k].0),
            decreases src.placements@.len() - i,
        {
            let pair = &src.placements[i];
            match find_pair_index(&self.placements, pair.1.as_str()) {
                Some(j) => {
                    if !str_eq(self.placements[j].0.as_str(), pair.0.as_str()) {
                        proof {
                            lemma_section_of_unique(self@.placements, j as int);
                            assert(placed(self@.placements, src@.placements[i as int].1)) by {
                                assert(self@.placements[j as int].1
                                    == src@.placements[i as int].1);
                            }
                        }
                        let mut message = String::from_str(
                            "conflicting section placement for check ",
                        );
                        message.append(pair.1.as_str());
                        return Err(message);
                    }
                    proof {
                        lemma_section_of_unique(self@.placements, j as int);
                    }
                },
                None => {},
            }
            i += 1;
        }
        let extra = pairs_only_new(&src.placements, &self.placements);
        let mut merged = clone_pairs(&self.placements);
        let ghost merged_pre = self@.placements + placements_only_new(
            src@.placements,
            self@.placements,
        );
        let mut extra_in = extra;
        merged.append(&mut extra_in);
        proof {
            assert(merged.deep_view() =~= merged_pre);
        }
        let filtered = pairs_minus_ids(&merged, &src.exclusions);
        self.placements = filtered;
        let mut new_names = strings_only_new(&src.section_order, &self.section_order);
        self.section_order.append(&mut new_names);
        let mut new_excl = strings_only_new(&src.exclusions, &self.exclusions);
        self.exclusions.append(&mut new_excl);
        let mut new_defaults = clone_defaults(&src.defaults);
        self.defaults.append(&mut new_defaults);
        proof {
            assert(self@.section_order =~= old(self)@.section_order + names_only_new(
                src@.section_order,
                old(self)@.section_order,
            ));
            assert(self@.exclusions =~= old(self)@.exclusions + names_only_new(
                src@.exclusions,
                old(self)@.exclusions,
            ));
            assert(self@.defaults =~= old(self)@.defaults + src@.defaults);
            assert(self@ =~= include_views(old(self)@, src@));
        }
        Ok(())
    }
}

} // verus!
