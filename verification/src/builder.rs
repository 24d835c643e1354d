//! The profile composer: a builder that records composition operations
//! (profile inclusion, sections, checks, exclusions, default overrides)
//! and finalizes them into a registered profile.

use vstd::prelude::*;
use vstd::string::StringExecFns;
use crate::check::{Check, CheckView};
use crate::profile::{
    include_conflict, include_views, lemma_include_views, lemma_minus_ids_membership,
    lemma_minus_ids_unique, lemma_names_union, lemma_only_new_membership, placed,
    placements_minus_ids, placements_only_new, pv_has_id, pv_wf, Profile, ProfileView,
};
use crate::registry::{has_profile, profile_named, upsert_check, Registry};
use crate::status::{clone_overrides, Override, OverrideView};

verus! {

/// One recorded builder operation.
pub enum BuilderOp {
    /// Merge the named, already registered profile into this one.
    IncludeProfile(String),
    /// Open (or reopen) a named section.
    AddSection(String),
    /// Register a check and append its id to the open section.
    AddCheck(Check),
    /// Remove a check id from whatever section holds it.
    ExcludeCheck(String),
    /// Attach default severity overrides to a check id.
    WithOverrides(String, Vec<Override>),
}

/// The mathematical shape of a [`BuilderOp`].
pub ghost enum BuilderOpView {
    IncludeProfile(Seq<char>),
    AddSection(Seq<char>),
    AddCheck(CheckView),
    ExcludeCheck(Seq<char>),
    WithOverrides(Seq<char>, Seq<OverrideView>),
}

impl View for BuilderOp {
    type V = BuilderOpView;

    open spec fn view(&self) -> BuilderOpView {
        match self {
            BuilderOp::IncludeProfile(n) => BuilderOpView::IncludeProfile(n@),
            BuilderOp::AddSection(n) => BuilderOpView::AddSection(n@),
            BuilderOp::AddCheck(c) => BuilderOpView::AddCheck(c@),
            BuilderOp::ExcludeCheck(id) => BuilderOpView::ExcludeCheck(id@),
            BuilderOp::WithOverrides(id, ovs) => BuilderOpView::WithOverrides(
                id@,
                ovs.deep_view(),
            ),
        }
    }
}

impl DeepView for BuilderOp {
    type V = BuilderOpView;

    open spec fn deep_view(&self) -> BuilderOpView {
        self.view()
    }
}

/// The profile under composition together with the currently open
/// section.
#[verifier::ext_equal]
pub ghost struct ComposeState {
    pub profile: ProfileView,
    pub current: Option<Seq<char>>,
}

/// The empty profile.
pub open spec fn empty_profile_view() -> ProfileView {
    ProfileView {
        section_order: Seq::empty(),
        placements: Seq::empty(),
        exclusions: Seq::empty(),
        defaults: Seq::empty(),
    }
}

/// Composition starts from an empty profile with no open section.
pub open spec fn initial_state() -> ComposeState {
    ComposeState { profile: empty_profile_view(), current: None }
}

/// The effect of one builder operation on the composition state, given
/// the already registered profiles. `Err` means composition fails: an
/// unresolvable inclusion, a section-placement conflict, a check added
/// with no open section, or a duplicate check id.
pub open spec fn apply_op_view(
    st: ComposeState,
    op: BuilderOpView,
    profiles: Seq<(Seq<char>, ProfileView)>,
) -> Result<ComposeState, ()> {
    match op {
        BuilderOpView::IncludeProfile(n) => {
            if !has_profile(profiles, n) {
                Err(())
            } else if include_conflict(st.profile, profile_named(profiles, n)) {
                Err(())
            } else {
                Ok(
                    ComposeState {
                        profile: include_views(st.profile, profile_named(profiles, n)),
                        ..st
                    },
                )
            }
        },
        BuilderOpView::AddSection(n) => Ok(
            ComposeState {
                profile: ProfileView {
                    section_order: if st.profile.section_order.contains(n) {
                        st.profile.section_order
                    } else {
                        st.profile.section_order.push(n)
                    },
                    ..st.profile
                },
                current: Some(n),
            },
        ),
        BuilderOpView::AddCheck(c) => match st.current {
            None => Err(()),
            Some(nm) => {
                if pv_has_id(st.profile, c.id) {
                    Err(())
                } else {
                    Ok(
                        ComposeState {
                            profile: ProfileView {
                                placements: st.profile.placements.push((nm, c.id)),
                                ..st.profile
                            },
                            ..st
                        },
                    )
                }
            },
        },
        BuilderOpView::ExcludeCheck(id) => Ok(
            ComposeState {
                profile: ProfileView {
                    placements: placements_minus_ids(st.profile.placements, seq![id]),
                    exclusions: if st.profile.exclusions.contains(id) {
                        st.profile.exclusions
                    } else {
                        st.profile.exclusions.push(id)
                    },
                    ..st.profile
                },
                ..st
            },
        ),
        BuilderOpView::WithOverrides(id, ovs) => Ok(
            ComposeState {
                profile: ProfileView {
                    defaults: st.profile.defaults.push((id, ovs)),
                    ..st.profile
                },
                ..st
            },
        ),
    }
}

/// Replaying the recorded operations from position `i` on.
pub open spec fn replay_from(
    ops: Seq<BuilderOpView>,
    i: int,
    st: ComposeState,
    profiles: Seq<(Seq<char>, ProfileView)>,
) -> Result<ComposeState, ()>
    decreases ops.len() - i,
{
    if i < 0 || i >= ops.len() {
        Ok(st)
    } else {
        match apply_op_view(st, ops[i], profiles) {
            Ok(st2) => replay_from(ops, i + 1, st2, profiles),
            Err(e) => Err(e),
        }
    }
}

/// The composition state a builder's recorded operations produce, given
/// the registered profiles; `Err` when composition fails.
pub open spec fn replay(ops: Seq<BuilderOpView>, profiles: Seq<(Seq<char>, ProfileView)>) -> Result<
    ComposeState,
    (),
> {
    replay_from(ops, 0, initial_state(), profiles)
}

/// The checks recorded by `AddCheck` operations from `i` on, in order.
pub open spec fn added_checks_from(ops: Seq<BuilderOpView>, i: int) -> Seq<CheckView>
    decreases ops.len() - i,
{
    if i < 0 || i >= ops.len() {
        Seq::empty()
    } else {
        match ops[i] {
            BuilderOpView::AddCheck(c) => seq![c] + added_checks_from(ops, i + 1),
            _ => added_checks_from(ops, i + 1),
        }
    }
}

/// The checks a builder's operations register, in order.
pub open spec fn added_checks(ops: Seq<BuilderOpView>) -> Seq<CheckView> {
    added_checks_from(ops, 0)
}

/// The checks after registering all of `added` from position `i` on,
/// in order: each replaces the entry with its id or is appended.
pub open spec fn upsert_checks(cs: Seq<CheckView>, added: Seq<CheckView>, i: int) -> Seq<
    CheckView,
>
    decreases added.len() - i,
{
    if i < 0 || i >= added.len() {
        cs
    } else {
        upsert_checks(upsert_check(cs, added[i]), added, i + 1)
    }
}

/// An operation that never fails during replay and never places a new
/// check id: opening a section, excluding a check, or attaching
/// default overrides.
pub open spec fn benign_op(op: BuilderOpView) -> bool {
    match op {
        BuilderOpView::AddSection(_) => true,
        BuilderOpView::ExcludeCheck(_) => true,
        BuilderOpView::WithOverrides(_, _) => true,
        _ => false,
    }
}

/// Ids placed by the merge of a profile into the empty one all come
/// from that profile.
proof fn lemma_fresh_include_ids(src: ProfileView, id: Seq<char>)
    requires
        !pv_has_id(src, id),
    ensures
        !pv_has_id(include_views(empty_profile_view(), src), id),
{
    let dst = empty_profile_view();
    let merged = dst.placements + placements_only_new(src.placements, dst.placements);
    lemma_minus_ids_membership(merged, src.exclusions, 0);
    lemma_only_new_membership(src.placements, dst.placements, 0);
    let out = include_views(dst, src).placements;
    if placed(out, id) {
        let a = choose|a: int| 0 <= a < out.len() && (#[trigger] out[a]).1 == id;
        let k = choose|k: int|
            0 <= k < merged.len() && merged[k] == out[a] && !src.exclusions.contains(
                merged[k].1,
            );
        let extra = placements_only_new(src.placements, dst.placements);
        assert(merged[k] == extra[k]);
        let m = choose|m: int|
            0 <= m < src.placements.len() && src.placements[m] == #[trigger] extra[k] && !placed(
                dst.placements,
                src.placements[m].1,
            );
        assert(src.placements[m].1 == id);
    }
}

/// From a state with an open section, replaying a run of benign
/// operations and additions of pairwise distinct, not yet placed
/// check ids succeeds.
proof fn lemma_replay_benign_and_fresh(
    opsv: Seq<BuilderOpView>,
    profs: Seq<(Seq<char>, ProfileView)>,
    k: int,
    st: ComposeState,
)
    requires
        0 <= k <= opsv.len(),
        st.current is Some,
        forall|m: int|
            k <= m < opsv.len() ==> (benign_op(#[trigger] opsv[m]) || (opsv[m]
                matches BuilderOpView::AddCheck(c) && !pv_has_id(st.profile, c.id))),
        forall|a: int, b: int|
            k <= a < b < opsv.len() ==> !((#[trigger] opsv[a]) matches BuilderOpView::AddCheck(ca)
                && (#[trigger] opsv[b]) matches BuilderOpView::AddCheck(cb) && ca.id == cb.id),
    ensures
        replay_from(opsv, k, st, profs) is Ok,
    decreases opsv.len() - k,
{
    reveal_with_fuel(replay_from, 2);
    if k < opsv.len() {
        let st2 = match apply_op_view(st, opsv[k], profs) {
            Ok(st2) => st2,
            Err(_) => st,
        };
        assert(apply_op_view(st, opsv[k], profs) is Ok);
        assert(st2.current is Some);
        assert forall|m: int|
            k + 1 <= m < opsv.len() implies (benign_op(#[trigger] opsv[m]) || (opsv[m]
                matches BuilderOpView::AddCheck(c2) && !pv_has_id(st2.profile, c2.id))) by {
            match opsv[m] {
                BuilderOpView::AddCheck(c2) => {
                    if pv_has_id(st2.profile, c2.id) {
                        match opsv[k] {
                            BuilderOpView::AddCheck(c) => {
                                let a = choose|a: int|
                                    0 <= a < st2.profile.placements.len() && (
                                    #[trigger] st2.profile.placements[a]).1 == c2.id;
                                if a < st.profile.placements.len() {
                                    assert(pv_has_id(st.profile, c2.id));
                                } else {
                                    assert(c.id == c2.id);
                                }
                            },
                            BuilderOpView::ExcludeCheck(x) => {
                                lemma_minus_ids_membership(st.profile.placements, seq![x], 0);
                                let out = st2.profile.placements;
                                let a = choose|a: int|
                                    0 <= a < out.len() && (#[trigger] out[a]).1 == c2.id;
                                let w = choose|w: int|
                                    0 <= w < st.profile.placements.len()
                                        && st.profile.placements[w] == out[a] && !seq![
                                        x,
                                    ].contains(st.profile.placements[w].1);
                                assert(pv_has_id(st.profile, c2.id));
                            },
                            _ => {
                                assert(st2.profile.placements == st.profile.placements);
                            },
                        }
                    }
                },
                _ => {},
            }
        }
        lemma_replay_benign_and_fresh(opsv, profs, k + 1, st2);
    }
}

/// Replaying a bundle's recorded operations succeeds when they start
/// by including a registered `universal` profile, open a section, and
/// then only add pairwise distinct check ids that `universal` does not
/// place, beside benign operations.
pub proof fn lemma_replay_fresh_bundle(
    opsv: Seq<BuilderOpView>,
    profs: Seq<(Seq<char>, ProfileView)>,
)
    requires
        opsv.len() >= 2,
        opsv[0] == BuilderOpView::IncludeProfile("universal"@),
        opsv[1] matches BuilderOpView::AddSection(_),
        has_profile(profs, "universal"@),
        forall|m: int|
            2 <= m < opsv.len() ==> (benign_op(#[trigger] opsv[m]) || (opsv[m]
                matches BuilderOpView::AddCheck(c) && !pv_has_id(
                profile_named(profs, "universal"@),
                c.id,
            ))),
        forall|a: int, b: int|
            2 <= a < b < opsv.len() ==> !((#[trigger] opsv[a]) matches BuilderOpView::AddCheck(ca)
                && (#[trigger] opsv[b]) matches BuilderOpView::AddCheck(cb) && ca.id == cb.id),
    ensures
        replay(opsv, profs) is Ok,
{
    reveal_with_fuel(replay_from, 3);
    let uni = profile_named(profs, "universal"@);
    let st0 = initial_state();
    assert(!include_conflict(st0.profile, uni));
    let st1 = match apply_op_view(st0, opsv[0], profs) {
        Ok(st) => st,
        Err(_) => st0,
    };
    assert(st1.profile == include_views(empty_profile_view(), uni));
    let st2 = match apply_op_view(st1, opsv[1], profs) {
        Ok(st) => st,
        Err(_) => st1,
    };
    assert(st2.current is Some);
    assert(st2.profile.placements == st1.profile.placements);
    assert forall|m: int|
        2 <= m < opsv.len() implies (benign_op(#[trigger] opsv[m]) || (opsv[m]
            matches BuilderOpView::AddCheck(c) && !pv_has_id(st2.profile, c.id))) by {
        match opsv[m] {
            BuilderOpView::AddCheck(c) => {
                if !benign_op(opsv[m]) {
                    lemma_fresh_include_ids(uni, c.id);
                }
            },
            _ => {},
        }
    }
    lemma_replay_benign_and_fresh(opsv, profs, 2, st2);
}

/// The direct exclusion law: recording an exclusion removes the check
/// id from whatever section holds it — however many inclusions
/// introduced it — and the id no longer survives resolution.
pub proof fn lemma_exclude_check_removes(
    st: ComposeState,
    x: Seq<char>,
    profiles: Seq<(Seq<char>, ProfileView)>,
)
    ensures
        apply_op_view(st, BuilderOpView::ExcludeCheck(x), profiles) matches Ok(st2) && {
            &&& !pv_has_id(st2.profile, x)
            &&& !crate::profile::pv_resolved(st2.profile, x)
        },
{
    let st2 = match apply_op_view(st, BuilderOpView::ExcludeCheck(x), profiles) {
        Ok(st2) => st2,
        Err(_) => st,
    };
    lemma_minus_ids_membership(st.profile.placements, seq![x], 0);
    assert(!pv_has_id(st2.profile, x)) by {
        if pv_has_id(st2.profile, x) {
            let out = placements_minus_ids(st.profile.placements, seq![x]);
            let a = choose|a: int| 0 <= a < out.len() && (#[trigger] out[a]).1 == x;
            let k = choose|k: int|
                0 <= k < st.profile.placements.len() && st.profile.placements[k] == out[a]
                    && !seq![x].contains(st.profile.placements[k].1);
            assert(seq![x][0] == x);
            assert(seq![x].contains(x));
        }
    }
    assert(st2.profile.exclusions.contains(x)) by {
        if st.profile.exclusions.contains(x) {
        } else {
            assert(st2.profile.exclusions[st2.profile.exclusions.len() - 1] == x);
        }
    }
}

/// A builder that assembles a profile from composable declarations and
/// finally registers it.
pub struct ProfileBuilder {
    /// The recorded operations, in call order.
    pub ops: Vec<BuilderOp>,
}

impl ProfileBuilder {
    /// A builder with nothing recorded.
    pub fn new() -> (r: Self)
        ensures
            r.ops.deep_view() == Seq::<BuilderOpView>::empty(),
    {
        let r = ProfileBuilder { ops: Vec::new() };
        proof {
            assert(r.ops.deep_view() =~= Seq::<BuilderOpView>::empty());
        }
        r
    }

    /// Record: merge the named, already registered profile into this
    /// one, inheriting its sections, exclusions and default overrides.
    pub fn include_profile(self, name: &str) -> (r: Self)
        ensures
            r.ops.deep_view() == self.ops.deep_view().push(BuilderOpView::IncludeProfile(name@)),
    {
        let mut ops = self.ops;
        ops.push(BuilderOp::IncludeProfile(String::from_str(name)));
        proof {
            assert(ops.deep_view() =~= self.ops.deep_view().push(
                BuilderOpView::IncludeProfile(name@),
            ));
        }
        ProfileBuilder { ops }
    }

    /// Record: open (or reopen) a named section; checks registered
    /// afterwards append to it.
    pub fn add_section(self, name: &str) -> (r: Self)
        ensures
            r.ops.deep_view() == self.ops.deep_view().push(BuilderOpView::AddSection(name@)),
    {
        let mut ops = self.ops;
        ops.push(BuilderOp::AddSection(String::from_str(name)));
        proof {
            assert(ops.deep_view() =~= self.ops.deep_view().push(BuilderOpView::AddSection(name@)));
        }
        ProfileBuilder { ops }
    }

    /// Record: register the check's metadata and append its id to the
    /// currently open section.
    pub fn add_and_register_check(self, check: Check) -> (r: Self)
        ensures
            r.ops.deep_view() == self.ops.deep_view().push(BuilderOpView::AddCheck(check@)),
    {
        let mut ops = self.ops;
        ops.push(BuilderOp::AddCheck(check));
        proof {
            assert(ops.deep_view() =~= self.ops.deep_view().push(BuilderOpView::AddCheck(check@)));
        }
        ProfileBuilder { ops }
    }

    /// Record: remove the id from whatever section holds it (a no-op if
    /// absent) and keep it excluded, also for later profiles that
    /// include this one.
    pub fn exclude_check(self, id: &str) -> (r: Self)
        ensures
            r.ops.deep_view() == self.ops.deep_view().push(BuilderOpView::ExcludeCheck(id@)),
    {
        let mut ops = self.ops;
        ops.push(BuilderOp::ExcludeCheck(String::from_str(id)));
        proof {
            assert(ops.deep_view() =~= self.ops.deep_view().push(BuilderOpView::ExcludeCheck(id@)));
        }
        ProfileBuilder { ops }
    }

    /// Record: attach default severity overrides to a check id;
    /// repeated calls for one id accumulate.
    pub fn with_overrides(self, check_id: &str, overrides: Vec<Override>) -> (r: Self)
        ensures
            r.ops.deep_view() == self.ops.deep_view().push(
                BuilderOpView::WithOverrides(check_id@, overrides.deep_view()),
            ),
    {
        let ghost ovs_view = overrides.deep_view();
        let mut ops = self.ops;
        ops.push(BuilderOp::WithOverrides(String::from_str(check_id), overrides));
        proof {
            assert(ops.deep_view() =~= self.ops.deep_view().push(
                BuilderOpView::WithOverrides(check_id@, ovs_view),
            ));
        }
        ProfileBuilder { ops }
    }

    /// Finalize the composition and register the result under `name`.
    ///
    /// Fails, leaving the registry unchanged, when the name is already
    /// registered or when replaying the recorded operations fails: an
    /// inclusion names an unknown profile, an inclusion would move a
    /// check id between differently named sections, a check is added
    /// with no open section, or a check id is added twice. On success
    /// the recorded checks are registered and the composed profile is
    /// registered under `name`.
    #[verifier::rlimit(100)]
    pub fn build(self, name: &str, registry: &mut Registry) -> (r: Result<(), String>)
        requires
            old(registry).wf(),
        ensures
            final(registry).wf(),
            match r {
                Ok(_) => {
                    &&& !has_profile(old(registry)@.profiles, name@)
                    &&& replay(self.ops.deep_view(), old(registry)@.profiles) matches Ok(st) && {
                        &&& pv_wf(st.profile)
                        &&& final(registry)@.profiles == old(registry)@.profiles.push(
                            (name@, st.profile),
                        )
                    }
                    &&& final(registry)@.checks == upsert_checks(
                        old(registry)@.checks,
                        added_checks(self.ops.deep_view()),
                        0,
                    )
                },
                Err(_) => {
                    &&& *final(registry) == *old(registry)
                    &&& (has_profile(old(registry)@.profiles, name@) || replay(
                        self.ops.deep_view(),
                        old(registry)@.profiles,
                    ) is Err)
                },
            },
    {
        match registry.get_profile(name) {
            Some(_) => {
                let mut message = String::from_str("a profile is already registered under ");
                message.append(name);
                return Err(message);
            },
            None => {},
        }
        let (profile, to_register) = match replay_exec(&self.ops, registry) {
            Ok(pair) => pair,
            Err(e) => {
                return Err(e);
            },
        };
        register_added(registry, to_register);
        match registry.register_profile(name, profile) {
            Ok(_) => Ok(()),
            Err(e) => {
                proof {
                    assert(false);
                }
                Err(e)
            },
        }
    }
}

/// Replay the recorded operations against an empty profile, resolving
/// inclusions in the registry; on success hand back the composed
/// profile and the checks to register.
fn replay_exec(ops: &Vec<BuilderOp>, registry: &Registry) -> (r: Result<
    (Profile, Vec<Check>),
    String,
>)
    requires
        registry.wf(),
    ensures
        match r {
            Ok(pair) => replay(ops.deep_view(), registry@.profiles) matches Ok(st) && {
                &&& st.profile == pair.0@
                &&& pv_wf(pair.0@)
                &&& pair.1.deep_view() == added_checks(ops.deep_view())
            },
            Err(_) => replay(ops.deep_view(), registry@.profiles) is Err,
        },
{
    let ghost opsv = ops.deep_view();
    let ghost profs = registry@.profiles;
    let mut profile = Profile::new();
    let mut current: Option<String> = None;
    let mut to_register: Vec<Check> = Vec::new();
    let n_ops = ops.len();
    let mut i: usize = 0;
    while i < n_ops
        invariant
            registry.wf(),
            profs == registry@.profiles,
            opsv == ops.deep_view(),
            n_ops == ops@.len(),
            i <= n_ops,
            pv_wf(profile@),
            match current {
                Some(nm) => profile@.section_order.contains(nm@),
                None => true,
            },
            replay(opsv, profs) == replay_from(
                opsv,
                i as int,
                ComposeState { profile: profile@, current: current.deep_view() },
                profs,
            ),
            added_checks(opsv) == to_register.deep_view() + added_checks_from(opsv, i as int),
        decreases n_ops - i,
    {
        let ghost st_pre = ComposeState { profile: profile@, current: current.deep_view() };
        let op = &ops[i];
        proof {
            assert(opsv[i as int] == op.deep_view());
        }
        match op {
            BuilderOp::IncludeProfile(n) => {
                match registry.get_profile(n.as_str()) {
                    None => {
                        let mut message = String::from_str("included profile is not registered: ");
                        message.append(n.as_str());
                        return Err(message);
                    },
                    Some(src) => {
                        let ghost srcv = src@;
                        match profile.apply_include(src) {
                            Err(e) => {
                                return Err(e);
                            },
                            Ok(_) => {
                                proof {
                                    lemma_include_views(st_pre.profile, srcv);
                                    lemma_names_union(
                                        srcv.section_order,
                                        st_pre.profile.section_order,
                                    );
                                    match &current {
                                        Some(nm) => {
                                            assert(profile@.section_order.contains(nm@));
                                        },
                                        None => {},
                                    }
                                    assert(ComposeState {
                                        profile: profile@,
                                        current: current.deep_view(),
                                    } =~= (match apply_op_view(st_pre, opsv[i as int], profs) {
                                        Ok(st2) => st2,
                                        Err(_) => st_pre,
                                    }));
                                }
                            },
                        }
                    },
                }
            },
            BuilderOp::AddSection(n) => {
                profile.apply_add_section(n.as_str());
                current = Some(n.clone());
                proof {
                    assert(profile@.section_order.contains(n@)) by {
                        if st_pre.profile.section_order.contains(n@) {
                            let m = choose|m: int|
                                0 <= m < st_pre.profile.section_order.len()
                                    && st_pre.profile.section_order[m] == n@;
                            assert(profile@.section_order[m] == n@);
                        } else {
                            assert(profile@.section_order[profile@.section_order.len() - 1] == n@);
                        }
                    }
                    if !st_pre.profile.section_order.contains(n@) {
                        assert forall|k: int|
                            0 <= k < profile@.placements.len() implies profile@.section_order
                            .contains((#[trigger] profile@.placements[k]).0) by {
                            let so = st_pre.profile.section_order;
                            let m = choose|m: int|
                                0 <= m < so.len() && so[m] == profile@.placements[k].0;
                            assert(profile@.section_order[m] == so[m]);
                        }
                    }
                    assert(ComposeState { profile: profile@, current: current.deep_view() }
                        =~= (match apply_op_view(st_pre, opsv[i as int], profs) {
                        Ok(st2) => st2,
                        Err(_) => st_pre,
                    }));
                }
            },
            BuilderOp::AddCheck(c) => {
                match &current {
                    None => {
                        let mut message = String::from_str("no open section for check ");
                        message.append(c.id.as_str());
                        return Err(message);
                    },
                    Some(section) => {
                        if !profile.apply_add_check(section.as_str(), c.id.as_str()) {
                            let mut message = String::from_str("check id already present: ");
                            message.append(c.id.as_str());
                            return Err(message);
                        }
                        let ghost pre_reg = to_register.deep_view();
                        to_register.push(c.clone());
                        proof {
                            assert(to_register.deep_view() =~= pre_reg.push(c@));
                            assert(pre_reg + (seq![c@] + added_checks_from(opsv, i as int + 1))
                                =~= to_register.deep_view() + added_checks_from(
                                opsv,
                                i as int + 1,
                            ));
                            assert(ComposeState { profile: profile@, current: current.deep_view() }
                                =~= (match apply_op_view(st_pre, opsv[i as int], profs) {
                                Ok(st2) => st2,
                                Err(_) => st_pre,
                            }));
                        }
                    },
                }
            },
            BuilderOp::ExcludeCheck(id) => {
                profile.apply_exclude(id.as_str());
                proof {
                    lemma_minus_ids_unique(st_pre.profile.placements, seq![id@]);
                    lemma_minus_ids_membership(st_pre.profile.placements, seq![id@], 0);
                    assert forall|k: int|
                        0 <= k < profile@.placements.len() implies profile@.section_order.contains(
                        (#[trigger] profile@.placements[k]).0,
                    ) by {
                        let m = choose|m: int|
                            0 <= m < st_pre.profile.placements.len() && st_pre.profile.placements[m]
                                == profile@.placements[k] && !seq![id@].contains(
                                st_pre.profile.placements[m].1,
                            );
                        assert(st_pre.profile.section_order.contains(
                            st_pre.profile.placements[m].0,
                        ));
                    }
                    assert(ComposeState { profile: profile@, current: current.deep_view() }
                        =~= (match apply_op_view(st_pre, opsv[i as int], profs) {
                        Ok(st2) => st2,
                        Err(_) => st_pre,
                    }));
                }
            },
            BuilderOp::WithOverrides(id, ovs) => {
                let copy = clone_overrides(ovs);
                profile.apply_overrides(id.as_str(), copy);
                proof {
                    assert(ComposeState { profile: profile@, current: current.deep_view() }
                        =~= (match apply_op_view(st_pre, opsv[i as int], profs) {
                        Ok(st2) => st2,
                        Err(_) => st_pre,
                    }));
                }
            },
        }
        i += 1;
    }
    proof {
        assert(added_checks(opsv) =~= to_register.deep_view() + added_checks_from(
            opsv,
            n_ops as int,
        ));
        assert(added_checks(opsv) =~= to_register.deep_view());
    }
    Ok((profile, to_register))
}

/// Register every check in `to_register`, in order: each replaces the
/// registered check with its id or is appended; profiles are untouched.
fn register_added(registry: &mut Registry, to_register: Vec<Check>)
    requires
        old(registry).wf(),
    ensures
        final(registry).wf(),
        final(registry)@.profiles == old(registry)@.profiles,
        final(registry)@.checks == upsert_checks(
            old(registry)@.checks,
            to_register.deep_view(),
            0,
        ),
{
    let ghost added = to_register.deep_view();
    let n_checks = to_register.len();
    let mut k: usize = 0;
    while k < n_checks
        invariant
            n_checks == to_register@.len(),
            k <= n_checks,
            added == to_register.deep_view(),
            registry.wf(),
            registry@.profiles == old(registry)@.profiles,
            upsert_checks(old(registry)@.checks, added, 0) == upsert_checks(
                registry@.checks,
                added,
                k as int,
            ),
        decreases n_checks - k,
    {
        let c = to_register[k].clone();
        proof {
            assert(c@ == added[k as int]);
        }
        registry.register_check(c);
        k += 1;
    }
}

} // verus!
