//! Artifacts and the scheduler's resolution phase: turning a profile,
//! filters and artifacts into the deterministic, ordered list of units
//! of work.

use vstd::prelude::*;
use vstd::string::{StrSliceExecFns, StringExecFns};
use crate::check::{Applicability, CheckView};
use crate::config::{ConfigValue, ConfigView};
use crate::context::{clone_configuration, Context, ContextView};
use crate::profile::{pv_defaults_of, Profile, ProfileView};
use crate::registry::{check_named, has_check, Registry};
use crate::status::{clone_overrides, OverrideView};
use crate::strutil::{str_eq, vec_contains_str};

verus! {

/// A single font file under test: its name and its raw bytes.
pub struct Testable {
    pub filename: String,
    pub contents: Vec<u8>,
}

/// The mathematical shape of a [`Testable`].
pub ghost struct TestableView {
    pub filename: Seq<char>,
    pub contents: Seq<u8>,
}

impl View for Testable {
    type V = TestableView;

    open spec fn view(&self) -> TestableView {
        TestableView { filename: self.filename@, contents: self.contents@ }
    }
}

impl DeepView for Testable {
    type V = TestableView;

    open spec fn deep_view(&self) -> TestableView {
        self.view()
    }
}

/// A named group of files tested together (one group per directory).
pub struct TestableCollection {
    pub directory: String,
    pub testables: Vec<Testable>,
}

/// The mathematical shape of a [`TestableCollection`].
pub ghost struct TestableCollectionView {
    pub directory: Seq<char>,
    pub testables: Seq<TestableView>,
}

impl View for TestableCollection {
    type V = TestableCollectionView;

    open spec fn view(&self) -> TestableCollectionView {
        TestableCollectionView {
            directory: self.directory@,
            testables: self.testables.deep_view(),
        }
    }
}

impl DeepView for TestableCollection {
    type V = TestableCollectionView;

    open spec fn deep_view(&self) -> TestableCollectionView {
        self.view()
    }
}

/// An artifact a unit of work runs against: a single file or a group.
pub enum TestableType {
    Single(Testable),
    Collection(TestableCollection),
}

/// The mathematical shape of a [`TestableType`].
pub ghost enum TestableTypeView {
    Single(TestableView),
    Collection(TestableCollectionView),
}

impl View for TestableType {
    type V = TestableTypeView;

    open spec fn view(&self) -> TestableTypeView {
        match self {
            TestableType::Single(t) => TestableTypeView::Single(t@),
            TestableType::Collection(c) => TestableTypeView::Collection(c@),
        }
    }
}

impl DeepView for TestableType {
    type V = TestableTypeView;

    open spec fn deep_view(&self) -> TestableTypeView {
        self.view()
    }
}

impl TestableType {
    /// Whether this artifact is a single file rather than a group.
    pub fn is_single(&self) -> (r: bool)
        ensures
            r == (self@ is Single),
    {
        match self {
            TestableType::Single(_) => true,
            TestableType::Collection(_) => false,
        }
    }
}

/// The position just after the last `/` strictly before position `i`,
/// or `-1` when there is none.
pub open spec fn last_slash_before(s: Seq<char>, i: int) -> int
    decreases i,
{
    if i <= 0 {
        -1
    } else if s[i - 1] == '/' {
        i - 1
    } else {
        last_slash_before(s, i - 1)
    }
}

/// The directory part of a path: everything before the last `/`, empty
/// when the path has no separator.
pub open spec fn spec_parent(s: Seq<char>) -> Seq<char> {
    if last_slash_before(s, s.len() as int) < 0 {
        Seq::empty()
    } else {
        s.subrange(0, last_slash_before(s, s.len() as int))
    }
}

/// Whether the path's final component equals `name`.
pub open spec fn ends_with_component(p: Seq<char>, name: Seq<char>) -> bool {
    &&& p.len() >= name.len()
    &&& p.subrange(p.len() - name.len(), p.len() as int) == name
    &&& (p.len() == name.len() || p[p.len() - name.len() - 1] == '/')
}

/// The directory a file is grouped under. Files in an `article`
/// subdirectory are grouped with the parent directory's family.
pub open spec fn spec_group_key(path: Seq<char>) -> Seq<char> {
    let parent = spec_parent(path);
    if ends_with_component(parent, "article"@) {
        spec_parent(parent)
    } else {
        parent
    }
}

/// The distinct group keys of the first `i` paths, in first-occurrence
/// order.
pub open spec fn keys_upto(paths: Seq<Seq<char>>, i: int) -> Seq<Seq<char>>
    decreases i,
{
    if i <= 0 {
        Seq::empty()
    } else {
        let prev = keys_upto(paths, i - 1);
        if prev.contains(spec_group_key(paths[i - 1])) {
            prev
        } else {
            prev.push(spec_group_key(paths[i - 1]))
        }
    }
}

/// The paths (from position `i` on) whose group key is `key`, in order.
pub open spec fn files_with_key_from(paths: Seq<Seq<char>>, key: Seq<char>, i: int) -> Seq<
    Seq<char>,
>
    decreases paths.len() - i,
{
    if i < 0 || i >= paths.len() {
        Seq::empty()
    } else if spec_group_key(paths[i]) == key {
        seq![paths[i]] + files_with_key_from(paths, key, i + 1)
    } else {
        files_with_key_from(paths, key, i + 1)
    }
}

/// The directory part of a path, as [`spec_parent`] describes it.
pub fn parent_of(path: &str) -> (r: String)
    ensures
        r@ == spec_parent(path@),
{
    let n = path.unicode_len();
    let mut i: usize = n;
    while i > 0
        invariant
            i <= n,
            n == path@.len(),
            last_slash_before(path@, n as int) == last_slash_before(path@, i as int),
        decreases i,
    {
        if path.get_char(i - 1) == '/' {
            let prefix = path.substring_char(0, i - 1);
            proof {
                assert(last_slash_before(path@, i as int) == i - 1);
            }
            return String::from_str(prefix);
        }
        i -= 1;
    }
    proof {
        assert(last_slash_before(path@, 0int) == -1);
    }
    let r = String::new();
    proof {
        assert(r@ =~= spec_parent(path@));
    }
    r
}

/// Whether the path's final component equals `name`, as
/// [`ends_with_component`] describes it.
fn path_ends_with_component(p: &str, name: &str) -> (r: bool)
    ensures
        r == ends_with_component(p@, name@),
{
    let plen = p.unicode_len();
    let nlen = name.unicode_len();
    if plen < nlen {
        return false;
    }
    let suffix = p.substring_char(plen - nlen, plen);
    if !str_eq(suffix, name) {
        return false;
    }
    if plen == nlen {
        return true;
    }
    let sep = p.get_char(plen - nlen - 1);
    sep == '/'
}

/// The directory a file is grouped under, as [`spec_group_key`]
/// describes it.
pub fn group_key(path: &str) -> (r: String)
    ensures
        r@ == spec_group_key(path@),
{
    let parent = parent_of(path);
    if path_ends_with_component(parent.as_str(), "article") {
        parent_of(parent.as_str())
    } else {
        parent
    }
}

/// Group input file paths per directory: one group per distinct group
/// key, keys in first-occurrence order, each group listing its files in
/// input order. Files in an `article` subdirectory are grouped with the
/// parent directory's group.
pub fn group_inputs(paths: &Vec<String>) -> (r: Vec<(String, Vec<String>)>)
    ensures
        r.deep_view().len() == keys_upto(paths.deep_view(), paths.deep_view().len() as int).len(),
        forall|g: int|
            0 <= g < r.deep_view().len() ==> (#[trigger] r.deep_view()[g]).0 == keys_upto(
                paths.deep_view(),
                paths.deep_view().len() as int,
            )[g] && r.deep_view()[g].1 == files_with_key_from(
                paths.deep_view(),
                r.deep_view()[g].0,
                0,
            ),
{
    let ghost pview = paths.deep_view();
    let mut keys: Vec<String> = Vec::new();
    let mut i: usize = 0;
    while i < paths.len()
        invariant
            i <= paths@.len(),
            pview == paths.deep_view(),
            keys.deep_view() == keys_upto(pview, i as int),
        decreases paths@.len() - i,
    {
        let key = group_key(paths[i].as_str());
        if !vec_contains_str(&keys, key.as_str()) {
            let ghost pre = keys.deep_view();
            keys.push(key);
            proof {
                assert(keys.deep_view() =~= pre.push(spec_group_key(pview[i as int])));
            }
        }
        i += 1;
    }
    let mut out: Vec<(String, Vec<String>)> = Vec::new();
    let mut g: usize = 0;
    while g < keys.len()
        invariant
            g <= keys@.len(),
            pview == paths.deep_view(),
            keys.deep_view() == keys_upto(pview, pview.len() as int),
            out.deep_view().len() == g,
            forall|k: int|
                0 <= k < g ==> (#[trigger] out.deep_view()[k]).0 == keys.deep_view()[k]
                    && out.deep_view()[k].1 == files_with_key_from(pview, keys.deep_view()[k], 0),
        decreases keys@.len() - g,
    {
        let key = &keys[g];
        let mut files: Vec<String> = Vec::new();
        let mut i2: usize = 0;
        while i2 < paths.len()
            invariant
                i2 <= paths@.len(),
                pview == paths.deep_view(),
                files_with_key_from(pview, key@, 0) == files.deep_view() + files_with_key_from(
                    pview,
                    key@,
                    i2 as int,
                ),
            decreases paths@.len() - i2,
        {
            let k2 = group_key(paths[i2].as_str());
            let ghost pre = files.deep_view();
            if str_eq(k2.as_str(), key.as_str()) {
                files.push(paths[i2].clone());
                proof {
                    assert(files.deep_view() =~= pre.push(pview[i2 as int]));
                    assert(pre + (seq![pview[i2 as int]] + files_with_key_from(
                        pview,
                        key@,
                        i2 as int + 1,
                    )) =~= files.deep_view() + files_with_key_from(pview, key@, i2 as int + 1));
                }
            }
            i2 += 1;
        }
        proof {
            assert(files.deep_view() + files_with_key_from(pview, key@, pview.len() as int)
                =~= files.deep_view());
        }
        let ghost pre_out = out.deep_view();
        out.push((key.clone(), files));
        proof {
            assert(out.deep_view() =~= pre_out.push((key@, files_with_key_from(pview, key@, 0))));
        }
        g += 1;
    }
    out
}

/// One scheduled unit of work: a check to run against one artifact,
/// under a context specialized for that check.
pub struct WorkUnit {
    /// The section the check belongs to.
    pub section: String,
    /// Index of the artifact in the artifact list handed to resolution.
    pub testable: usize,
    /// The check to run.
    pub check_id: String,
    /// The context for this unit, with the applicable override list.
    pub context: Context,
}

/// The mathematical shape of a [`WorkUnit`].
#[verifier::ext_equal]
pub ghost struct WorkUnitView {
    pub section: Seq<char>,
    pub testable: int,
    pub check_id: Seq<char>,
    pub context: ContextView,
}

impl View for WorkUnit {
    type V = WorkUnitView;

    open spec fn view(&self) -> WorkUnitView {
        WorkUnitView {
            section: self.section@,
            testable: self.testable as int,
            check_id: self.check_id@,
            context: self.context@,
        }
    }
}

impl DeepView for WorkUnit {
    type V = WorkUnitView;

    open spec fn deep_view(&self) -> WorkUnitView {
        self.view()
    }
}

/// Whether a placed check id survives resolution: not excluded by the
/// profile, kept by the include filter, not dropped by the exclude
/// filter, and known to the registry.
pub open spec fn survives(
    p: ProfileView,
    checks: Seq<CheckView>,
    inc: Seq<Seq<char>>,
    exc: Seq<Seq<char>>,
    id: Seq<char>,
) -> bool {
    &&& !p.exclusions.contains(id)
    &&& (inc.len() == 0 || inc.contains(id))
    &&& !exc.contains(id)
    &&& has_check(checks, id)
}

/// The context a unit runs under: the base context with the run's
/// configuration object and with the profile's default overrides for
/// the unit's check placed before the user-supplied overrides, so that
/// profile defaults win under first-match-wins scanning.
pub open spec fn unit_context(
    base: ContextView,
    config: Seq<(Seq<char>, ConfigView)>,
    defaults: Seq<OverrideView>,
) -> ContextView {
    ContextView { configuration: config, overrides: defaults + base.overrides, ..base }
}

/// Whether a check with the given applicability runs against this
/// artifact.
pub open spec fn applies(app: Applicability, t: TestableTypeView) -> bool {
    match app {
        Applicability::CheckOne => t is Single,
        Applicability::CheckAll => t is Collection,
    }
}

/// The units one surviving check generates: one per applicable
/// artifact, from artifact `t` on, in artifact order.
pub open spec fn units_for_check(
    section: Seq<char>,
    check: CheckView,
    ts: Seq<TestableTypeView>,
    ctx: ContextView,
    t: int,
) -> Seq<WorkUnitView>
    decreases ts.len() - t,
{
    if t < 0 || t >= ts.len() {
        Seq::empty()
    } else if applies(check.applicability, ts[t]) {
        seq![WorkUnitView { section, testable: t, check_id: check.id, context: ctx }]
            + units_for_check(section, check, ts, ctx, t + 1)
    } else {
        units_for_check(section, check, ts, ctx, t + 1)
    }
}

/// The units of one section: those of its surviving checks, in
/// placement order, from placement `pli` on.
pub open spec fn units_for_section(
    p: ProfileView,
    checks: Seq<CheckView>,
    inc: Seq<Seq<char>>,
    exc: Seq<Seq<char>>,
    section: Seq<char>,
    base: ContextView,
    config: Seq<(Seq<char>, ConfigView)>,
    ts: Seq<TestableTypeView>,
    pli: int,
) -> Seq<WorkUnitView>
    decreases p.placements.len() - pli,
{
    if pli < 0 || pli >= p.placements.len() {
        Seq::empty()
    } else {
        let pl = p.placements[pli];
        let rest = units_for_section(p, checks, inc, exc, section, base, config, ts, pli + 1);
        if pl.0 == section && survives(p, checks, inc, exc, pl.1) {
            units_for_check(
                section,
                check_named(checks, pl.1),
                ts,
                unit_context(base, config, pv_defaults_of(p, pl.1)),
                0,
            ) + rest
        } else {
            rest
        }
    }
}

/// The full resolved work list, from section `si` on: sections in
/// declaration order, within a section in placement order, within a
/// check in artifact order.
pub open spec fn units_from(
    p: ProfileView,
    checks: Seq<CheckView>,
    inc: Seq<Seq<char>>,
    exc: Seq<Seq<char>>,
    base: ContextView,
    config: Seq<(Seq<char>, ConfigView)>,
    ts: Seq<TestableTypeView>,
    si: int,
) -> Seq<WorkUnitView>
    decreases p.section_order.len() - si,
{
    if si < 0 || si >= p.section_order.len() {
        Seq::empty()
    } else {
        units_for_section(p, checks, inc, exc, p.section_order[si], base, config, ts, 0)
            + units_from(p, checks, inc, exc, base, config, ts, si + 1)
    }
}

/// The canonical, deterministic run order for a profile, filters,
/// registry, base context, configuration and artifacts.
pub open spec fn work_order(
    p: ProfileView,
    checks: Seq<CheckView>,
    inc: Seq<Seq<char>>,
    exc: Seq<Seq<char>>,
    base: ContextView,
    config: Seq<(Seq<char>, ConfigView)>,
    ts: Seq<TestableTypeView>,
) -> Seq<WorkUnitView> {
    units_from(p, checks, inc, exc, base, config, ts, 0)
}

/// The number of artifacts (from position `t` on) a check with this
/// applicability generates units for: single files for a per-file
/// check, groups for a per-group check.
pub open spec fn applicable_count(app: Applicability, ts: Seq<TestableTypeView>, t: int) -> nat
    decreases ts.len() - t,
{
    if t < 0 || t >= ts.len() {
        0
    } else if applies(app, ts[t]) {
        1 + applicable_count(app, ts, t + 1)
    } else {
        applicable_count(app, ts, t + 1)
    }
}

/// One surviving check contributes exactly one unit per applicable
/// artifact: one per single file when it runs per file, one per group
/// when it runs per group — never one per group member.
pub proof fn lemma_units_for_check_length(
    section: Seq<char>,
    check: CheckView,
    ts: Seq<TestableTypeView>,
    ctx: ContextView,
    t: int,
)
    ensures
        units_for_check(section, check, ts, ctx, t).len() == applicable_count(
            check.applicability,
            ts,
            t,
        ),
    decreases ts.len() - t,
{
    if 0 <= t < ts.len() {
        lemma_units_for_check_length(section, check, ts, ctx, t + 1);
    }
}

/// The combined length of the units of one section's surviving checks,
/// from placement `pli` on.
pub open spec fn expected_section_len(
    p: ProfileView,
    checks: Seq<CheckView>,
    inc: Seq<Seq<char>>,
    exc: Seq<Seq<char>>,
    section: Seq<char>,
    ts: Seq<TestableTypeView>,
    pli: int,
) -> nat
    decreases p.placements.len() - pli,
{
    if pli < 0 || pli >= p.placements.len() {
        0
    } else {
        let pl = p.placements[pli];
        let rest = expected_section_len(p, checks, inc, exc, section, ts, pli + 1);
        if pl.0 == section && survives(p, checks, inc, exc, pl.1) {
            applicable_count(check_named(checks, pl.1).applicability, ts, 0) + rest
        } else {
            rest
        }
    }
}

/// The combined length over all sections, from section `si` on.
pub open spec fn expected_total_len(
    p: ProfileView,
    checks: Seq<CheckView>,
    inc: Seq<Seq<char>>,
    exc: Seq<Seq<char>>,
    ts: Seq<TestableTypeView>,
    si: int,
) -> nat
    decreases p.section_order.len() - si,
{
    if si < 0 || si >= p.section_order.len() {
        0
    } else {
        expected_section_len(p, checks, inc, exc, p.section_order[si], ts, 0)
            + expected_total_len(p, checks, inc, exc, ts, si + 1)
    }
}

proof fn lemma_units_for_section_length(
    p: ProfileView,
    checks: Seq<CheckView>,
    inc: Seq<Seq<char>>,
    exc: Seq<Seq<char>>,
    section: Seq<char>,
    base: ContextView,
    config: Seq<(Seq<char>, ConfigView)>,
    ts: Seq<TestableTypeView>,
    pli: int,
)
    ensures
        units_for_section(p, checks, inc, exc, section, base, config, ts, pli).len()
            == expected_section_len(p, checks, inc, exc, section, ts, pli),
    decreases p.placements.len() - pli,
{
    if 0 <= pli < p.placements.len() {
        lemma_units_for_section_length(p, checks, inc, exc, section, base, config, ts, pli + 1);
        let pl = p.placements[pli];
        if pl.0 == section && survives(p, checks, inc, exc, pl.1) {
            lemma_units_for_check_length(
                section,
                check_named(checks, pl.1),
                ts,
                unit_context(base, config, pv_defaults_of(p, pl.1)),
                0,
            );
        }
    }
}

/// The work-list length law: the resolved list is exactly as long as
/// the sum, over surviving checks, of the number of single artifacts
/// for per-file checks and the number of artifact groups for per-group
/// checks.
pub proof fn lemma_work_order_length(
    p: ProfileView,
    checks: Seq<CheckView>,
    inc: Seq<Seq<char>>,
    exc: Seq<Seq<char>>,
    base: ContextView,
    config: Seq<(Seq<char>, ConfigView)>,
    ts: Seq<TestableTypeView>,
)
    ensures
        work_order(p, checks, inc, exc, base, config, ts).len() == expected_total_len(
            p,
            checks,
            inc,
            exc,
            ts,
            0,
        ),
{
    lemma_units_from_length(p, checks, inc, exc, base, config, ts, 0);
}

proof fn lemma_units_from_length(
    p: ProfileView,
    checks: Seq<CheckView>,
    inc: Seq<Seq<char>>,
    exc: Seq<Seq<char>>,
    base: ContextView,
    config: Seq<(Seq<char>, ConfigView)>,
    ts: Seq<TestableTypeView>,
    si: int,
)
    ensures
        units_from(p, checks, inc, exc, base, config, ts, si).len() == expected_total_len(
            p,
            checks,
            inc,
            exc,
            ts,
            si,
        ),
    decreases p.section_order.len() - si,
{
    if 0 <= si < p.section_order.len() {
        lemma_units_from_length(p, checks, inc, exc, base, config, ts, si + 1);
        lemma_units_for_section_length(
            p,
            checks,
            inc,
            exc,
            p.section_order[si],
            base,
            config,
            ts,
            0,
        );
    }
}

impl Profile {
    /// Resolve the ordered work list: for each surviving check, in
    /// section-declaration order then placement order, one unit per
    /// applicable artifact — one per single file for a per-file check,
    /// exactly one per group for a per-group check — each unit carrying
    /// a context whose override list is the profile's defaults for that
    /// check followed by the user-supplied overrides.
    ///
    /// A check id placed in the profile but missing from the registry
    /// generates no units.
    pub fn check_order(
        &self,
        checkids: &Vec<String>,
        exclude_checkids: &Vec<String>,
        registry: &Registry,
        context: &Context,
        configuration: &Vec<(String, ConfigValue)>,
        testables: &Vec<TestableType>,
    ) -> (r: Vec<WorkUnit>)
        requires
            registry.wf(),
        ensures
            r.deep_view() == work_order(
                self@,
                registry@.checks,
                checkids.deep_view(),
                exclude_checkids.deep_view(),
                context@,
                configuration.deep_view(),
                testables.deep_view(),
            ),
    {
        let ghost pv = self@;
        let ghost cks = registry@.checks;
        let ghost incv = checkids.deep_view();
        let ghost excv = exclude_checkids.deep_view();
        let ghost basev = context@;
        let ghost cfgv = configuration.deep_view();
        let ghost tsv = testables.deep_view();
        let ghost total = work_order(pv, cks, incv, excv, basev, cfgv, tsv);
        let mut out: Vec<WorkUnit> = Vec::new();
        let mut si: usize = 0;
        while si < self.section_order.len()
            invariant
                registry.wf(),
                pv == self@,
                cks == registry@.checks,
                incv == checkids.deep_view(),
                excv == exclude_checkids.deep_view(),
                basev == context@,
                cfgv == configuration.deep_view(),
                tsv == testables.deep_view(),
                si <= self.section_order@.len(),
                total == out.deep_view() + units_from(pv, cks, incv, excv, basev, cfgv, tsv, si as int),
            decreases self.section_order@.len() - si,
        {
            let section = &self.section_order[si];
            proof {
                assert(pv.section_order[si as int] == section@);
            }
            let mut pli: usize = 0;
            while pli < self.placements.len()
                invariant
                    registry.wf(),
                    pv == self@,
                    cks == registry@.checks,
                    incv == checkids.deep_view(),
                    excv == exclude_checkids.deep_view(),
                    basev == context@,
                    cfgv == configuration.deep_view(),
                    tsv == testables.deep_view(),
                    si < self.section_order@.len(),
                    pv.section_order[si as int] == section@,
                    pli <= self.placements@.len(),
                    total == out.deep_view() + units_for_section(
                        pv,
                        cks,
                        incv,
                        excv,
                        section@,
                        basev,
                        cfgv,
                        tsv,
                        pli as int,
                    ) + units_from(pv, cks, incv, excv, basev, cfgv, tsv, si as int + 1),
                decreases self.placements@.len() - pli,
            {
                let pair = &self.placements[pli];
                proof {
                    assert(pv.placements[pli as int] == (pair.0@, pair.1@));
                }
                if str_eq(pair.0.as_str(), section.as_str()) {
                    let id = &pair.1;
                    let keep = !vec_contains_str(&self.exclusions, id.as_str()) && (checkids.len()
                        == 0 || vec_contains_str(checkids, id.as_str())) && !vec_contains_str(
                        exclude_checkids,
                        id.as_str(),
                    );
                    if keep {
                        match registry.get_check(id.as_str()) {
                            None => {
                                proof {
                                    assert(!survives(pv, cks, incv, excv, pair.1@));
                                }
                            },
                            Some(check) => {
                                let ghost checkv = check@;
                                proof {
                                    assert(survives(pv, cks, incv, excv, pair.1@));
                                    assert(check_named(cks, pair.1@) == checkv);
                                }
                                let applicability = check.applicability;
                                let defaults = self.defaults_for(id.as_str());
                                let ghost uctx = unit_context(
                                    basev,
                                    cfgv,
                                    pv_defaults_of(pv, pair.1@),
                                );
                                let mut t: usize = 0;
                                while t < testables.len()
                                    invariant
                                        pv == self@,
                                        incv == checkids.deep_view(),
                                        excv == exclude_checkids.deep_view(),
                                        basev == context@,
                                        cfgv == configuration.deep_view(),
                                        tsv == testables.deep_view(),
                                        t <= testables@.len(),
                                        si < self.section_order@.len(),
                                        pv.section_order[si as int] == section@,
                                        pli < self.placements@.len(),
                                        pv.placements[pli as int] == (section@, id@),
                                        checkv.applicability == applicability,
                                        checkv.id == id@,
                                        defaults.deep_view() == pv_defaults_of(pv, id@),
                                        uctx == unit_context(basev, cfgv, pv_defaults_of(pv, id@)),
                                        total == out.deep_view() + units_for_check(
                                            section@,
                                            checkv,
                                            tsv,
                                            uctx,
                                            t as int,
                                        ) + units_for_section(
                                            pv,
                                            cks,
                                            incv,
                                            excv,
                                            section@,
                                            basev,
                                            cfgv,
                                            tsv,
                                            pli as int + 1,
                                        ) + units_from(
                                            pv,
                                            cks,
                                            incv,
                                            excv,
                                            basev,
                                            cfgv,
                                            tsv,
                                            si as int + 1,
                                        ),
                                    decreases testables@.len() - t,
                                {
                                    let applicable = match &testables[t] {
                                        TestableType::Single(_) => applicability
                                            == Applicability::CheckOne,
                                        TestableType::Collection(_) => applicability
                                            == Applicability::CheckAll,
                                    };
                                    if applicable {
                                        let mut unit_ovs = clone_overrides(&defaults);
                                        let mut base_ovs = clone_overrides(&context.overrides);
                                        unit_ovs.append(&mut base_ovs);
                                        let unit_ctx = Context {
                                            skip_network: context.skip_network,
                                            network_timeout: context.network_timeout,
                                            configuration: clone_configuration(configuration),
                                            check_metadata: context.check_metadata.clone(),
                                            full_lists: context.full_lists,
                                            overrides: unit_ovs,
                                        };
                                        proof {
                                            assert(unit_ctx@ =~= uctx);
                                        }
                                        let ghost pre = out.deep_view();
                                        out.push(
                                            WorkUnit {
                                                section: section.clone(),
                                                testable: t,
                                                check_id: id.clone(),
                                                context: unit_ctx,
                                            },
                                        );
                                        proof {
                                            let u = WorkUnitView {
                                                section: section@,
                                                testable: t as int,
                                                check_id: checkv.id,
                                                context: uctx,
                                            };
                                            assert(out.deep_view() =~= pre.push(u));
                                            assert(applies(checkv.applicability, tsv[t as int]));
                                            assert(units_for_check(section@, checkv, tsv, uctx, t as int)
                                                =~= seq![u] + units_for_check(
                                                section@,
                                                checkv,
                                                tsv,
                                                uctx,
                                                t as int + 1,
                                            ));
                                            assert(pre + (seq![u] + units_for_check(
                                                section@,
                                                checkv,
                                                tsv,
                                                uctx,
                                                t as int + 1,
                                            )) =~= out.deep_view() + units_for_check(
                                                section@,
                                                checkv,
                                                tsv,
                                                uctx,
                                                t as int + 1,
                                            ));
                                        }
                                    } else {
                                        proof {
                                            assert(!applies(checkv.applicability, tsv[t as int]));
                                        }
                                    }
                                    t += 1;
                                }
                                proof {
                                    assert(units_for_check(
                                        section@,
                                        checkv,
                                        tsv,
                                        uctx,
                                        tsv.len() as int,
                                    ) =~= Seq::<WorkUnitView>::empty());
                                    assert(out.deep_view() + Seq::<WorkUnitView>::empty()
                                        =~= out.deep_view());
                                }
                            },
                        }
                    } else {
                        proof {
                            assert(!survives(pv, cks, incv, excv, pair.1@));
                        }
                    }
                }
                pli += 1;
            }
            proof {
                assert(units_for_section(
                    pv,
                    cks,
                    incv,
                    excv,
                    section@,
                    basev,
                    cfgv,
                    tsv,
                    pv.placements.len() as int,
                ) =~= Seq::<WorkUnitView>::empty());
                assert(out.deep_view() + Seq::<WorkUnitView>::empty() =~= out.deep_view());
            }
            si += 1;
        }
        proof {
            assert(units_from(pv, cks, incv, excv, basev, cfgv, tsv, pv.section_order.len() as int)
                =~= Seq::<WorkUnitView>::empty());
            assert(total =~= out.deep_view());
        }
        out
    }
}

} // verus!
