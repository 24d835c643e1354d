//! The process-wide catalog: check metadata by id, composed profiles by
//! name. Built once during setup, then read-only for the rest of the
//! run.

use vstd::prelude::*;
use vstd::string::StringExecFns;
use crate::check::{Check, CheckView};
use crate::profile::{pv_wf, Profile, ProfileView};
use crate::strutil::str_eq;

verus! {

/// Whether some check in `cs` has the given id.
pub open spec fn has_check(cs: Seq<CheckView>, id: Seq<char>) -> bool {
    exists|i: int| 0 <= i < cs.len() && (#[trigger] cs[i]).id == id
}

/// The check with the given id (meaningful when present and ids are
/// unique).
pub open spec fn check_named(cs: Seq<CheckView>, id: Seq<char>) -> CheckView {
    cs[choose|i: int| 0 <= i < cs.len() && (#[trigger] cs[i]).id == id]
}

/// Whether some profile in `ps` is registered under the given name.
pub open spec fn has_profile(ps: Seq<(Seq<char>, ProfileView)>, name: Seq<char>) -> bool {
    exists|i: int| 0 <= i < ps.len() && (#[trigger] ps[i]).0 == name
}

/// The profile registered under the given name (meaningful when present
/// and names are unique).
pub open spec fn profile_named(ps: Seq<(Seq<char>, ProfileView)>, name: Seq<char>) -> ProfileView {
    ps[choose|i: int| 0 <= i < ps.len() && (#[trigger] ps[i]).0 == name].1
}

/// The checks after registering `c`: the entry with `c`'s id is
/// replaced, or `c` is appended when its id is new.
pub open spec fn upsert_check(cs: Seq<CheckView>, c: CheckView) -> Seq<CheckView> {
    if has_check(cs, c.id) {
        cs.update(choose|i: int| 0 <= i < cs.len() && (#[trigger] cs[i]).id == c.id, c)
    } else {
        cs.push(c)
    }
}

/// With unique ids, the check at `j` is the check named by its id.
pub proof fn lemma_check_named_at(cs: Seq<CheckView>, j: int)
    requires
        forall|a: int, b: int| 0 <= a < b < cs.len() ==> (#[trigger] cs[a]).id != (#[trigger] cs[b]).id,
        0 <= j < cs.len(),
    ensures
        check_named(cs, cs[j].id) == cs[j],
{
    let id = cs[j].id;
    let k = choose|i: int| 0 <= i < cs.len() && (#[trigger] cs[i]).id == id;
    if k != j {
        if k < j {
            assert(cs[k].id != cs[j].id);
        } else {
            assert(cs[j].id != cs[k].id);
        }
    }
}

/// With unique names, the entry at `j` is the profile named by its
/// name.
pub proof fn lemma_profile_named_at(ps: Seq<(Seq<char>, ProfileView)>, j: int)
    requires
        forall|a: int, b: int| 0 <= a < b < ps.len() ==> (#[trigger] ps[a]).0 != (#[trigger] ps[b]).0,
        0 <= j < ps.len(),
    ensures
        profile_named(ps, ps[j].0) == ps[j].1,
{
    let name = ps[j].0;
    let k = choose|i: int| 0 <= i < ps.len() && (#[trigger] ps[i]).0 == name;
    if k != j {
        if k < j {
            assert(ps[k].0 != ps[j].0);
        } else {
            assert(ps[j].0 != ps[k].0);
        }
    }
}

/// The process-wide catalog mapping check ids to check metadata and
/// profile names to composed profiles.
pub struct Registry {
    /// The registered checks; ids are unique.
    pub checks: Vec<Check>,
    /// The registered profiles; names are unique.
    pub profiles: Vec<(String, Profile)>,
}

/// The mathematical shape of a [`Registry`].
#[verifier::ext_equal]
pub ghost struct RegistryView {
    pub checks: Seq<CheckView>,
    pub profiles: Seq<(Seq<char>, ProfileView)>,
}

impl View for Registry {
    type V = RegistryView;

    open spec fn view(&self) -> RegistryView {
        RegistryView { checks: self.checks.deep_view(), profiles: self.profiles.deep_view() }
    }
}

impl Registry {
    /// Well-formedness: unique check ids, unique profile names, and
    /// every stored profile well formed.
    pub open spec fn wf(&self) -> bool {
        &&& forall|a: int, b: int|
            0 <= a < b < self@.checks.len() ==> (#[trigger] self@.checks[a]).id != (
            #[trigger] self@.checks[b]).id
        &&& forall|a: int, b: int|
            0 <= a < b < self@.profiles.len() ==> (#[trigger] self@.profiles[a]).0 != (
            #[trigger] self@.profiles[b]).0
        &&& forall|a: int| 0 <= a < self@.profiles.len() ==> pv_wf((#[trigger] self@.profiles[a]).1)
    }

    /// An empty registry.
    pub fn new() -> (r: Self)
        ensures
            r.wf(),
            r@.checks == Seq::<CheckView>::empty(),
            r@.profiles == Seq::<(Seq<char>, ProfileView)>::empty(),
    {
        let r = Registry { checks: Vec::new(), profiles: Vec::new() };
        proof {
            assert(r@.checks =~= Seq::<CheckView>::empty());
            assert(r@.profiles =~= Seq::<(Seq<char>, ProfileView)>::empty());
        }
        r
    }

    /// The registered check with the given id, if any.
    pub fn get_check(&self, id: &str) -> (r: Option<&Check>)
        requires
            self.wf(),
        ensures
            match r {
                Some(c) => has_check(self@.checks, id@) && c@ == check_named(self@.checks, id@)
                    && c@.id == id@,
                None => !has_check(self@.checks, id@),
            },
    {
        let mut i: usize = 0;
        while i < self.checks.len()
            invariant
                self.wf(),
                i <= self.checks@.len(),
                forall|k: int| 0 <= k < i ==> (#[trigger] self@.checks[k]).id != id@,
            decreases self.checks@.len() - i,
        {
            if str_eq(self.checks[i].id.as_str(), id) {
                proof {
                    assert(self@.checks[i as int].id == id@);
                    lemma_check_named_at(self@.checks, i as int);
                }
                return Some(&self.checks[i]);
            }
            i += 1;
        }
        proof {
            if has_check(self@.checks, id@) {
                let k = choose|k: int|
                    0 <= k < self@.checks.len() && (#[trigger] self@.checks[k]).id == id@;
                assert(self@.checks[k].id != id@);
            }
        }
        None
    }

    /// Whether the registered check with this id is experimental; false
    /// for an unknown id. Used to classify results in reports.
    pub fn is_experimental(&self, check_id: &str) -> (r: bool)
        requires
            self.wf(),
        ensures
            r == (has_check(self@.checks, check_id@) && check_named(
                self@.checks,
                check_id@,
            ).experimental),
    {
        match self.get_check(check_id) {
            Some(c) => c.experimental,
            None => false,
        }
    }

    /// Register (or replace) a check under its id.
    pub fn register_check(&mut self, check: Check)
        requires
            old(self).wf(),
        ensures
            final(self).wf(),
            final(self)@.profiles == old(self)@.profiles,
            final(self)@.checks == upsert_check(old(self)@.checks, check@),
            has_check(final(self)@.checks, check@.id),
            check_named(final(self)@.checks, check@.id) == check@,
            forall|id: Seq<char>|
                id != check@.id ==> (has_check(final(self)@.checks, id) <==> has_check(
                    old(self)@.checks,
                    id,
                )),
            forall|id: Seq<char>|
                id != check@.id && has_check(old(self)@.checks, id) ==> check_named(
                    final(self)@.checks,
                    id,
                ) == check_named(old(self)@.checks, id),
    {
        let ghost pre = self@.checks;
        let mut i: usize = 0;
        while i < self.checks.len()
            invariant
                self.wf(),
                i <= self.checks@.len(),
                *self == *old(self),
                self@.checks == pre,
                forall|k: int| 0 <= k < i ==> (#[trigger] self@.checks[k]).id != check@.id,
            decreases self.checks@.len() - i,
        {
            if str_eq(self.checks[i].id.as_str(), check.id.as_str()) {
                proof {
                    assert(pre[i as int].id == check@.id);
                }
                self.checks[i] = check;
                proof {
                    assert(self@.profiles == old(self)@.profiles);
                    assert(self@.checks =~= pre.update(i as int, check@));
                    assert(self@.checks == upsert_check(pre, check@)) by {
                        assert(has_check(pre, check@.id)) by {
                            assert(pre[i as int].id == check@.id);
                        }
                        let k = choose|k: int|
                            0 <= k < pre.len() && (#[trigger] pre[k]).id == check@.id;
                        if k != i as int {
                            if k < i as int {
                                assert(pre[k].id != pre[i as int].id);
                            } else {
                                assert(pre[i as int].id != pre[k].id);
                            }
                        }
                    }
                    assert forall|a: int, b: int|
                        0 <= a < b < self@.checks.len() implies (#[trigger] self@.checks[a]).id
                        != (#[trigger] self@.checks[b]).id by {
                        assert(pre[a].id != pre[b].id);
                    }
                    assert forall|id: Seq<char>| id != check@.id implies (has_check(
                        self@.checks,
                        id,
                    ) <==> has_check(pre, id)) by {
                        if has_check(self@.checks, id) {
                            let k = choose|k: int|
                                0 <= k < self@.checks.len() && (#[trigger] self@.checks[k]).id
                                    == id;
                            assert(pre[k].id == id);
                        }
                        if has_check(pre, id) {
                            let k = choose|k: int|
                                0 <= k < pre.len() && (#[trigger] pre[k]).id == id;
                            assert(self@.checks[k].id == id);
                        }
                    }
                    assert forall|id: Seq<char>|
                        id != check@.id && has_check(pre, id) implies check_named(
                        self@.checks,
                        id,
                    ) == check_named(pre, id) by {
                        let k = choose|k: int| 0 <= k < pre.len() && (#[trigger] pre[k]).id == id;
                        assert(self@.checks[k].id == id);
                        lemma_check_named_at(pre, k);
                        lemma_check_named_at(self@.checks, k);
                    }
                    lemma_check_named_at(self@.checks, i as int);
                }
                return ;
            }
            i += 1;
        }
        self.checks.push(check);
        proof {
            assert(self@.profiles == old(self)@.profiles);
            assert(self@.checks =~= pre.push(check@));
            assert(!has_check(pre, check@.id)) by {
                if has_check(pre, check@.id) {
                    let k = choose|k: int|
                        0 <= k < pre.len() && (#[trigger] pre[k]).id == check@.id;
                    assert(pre[k].id != check@.id);
                }
            }
            assert forall|a: int, b: int|
                0 <= a < b < self@.checks.len() implies (#[trigger] self@.checks[a]).id != (
            #[trigger] self@.checks[b]).id by {
                if b < pre.len() {
                    assert(pre[a].id != pre[b].id);
                } else {
                    assert(pre[a].id != check@.id);
                }
            }
            lemma_check_named_at(self@.checks, pre.len() as int);
            assert forall|id: Seq<char>| id != check@.id implies (has_check(self@.checks, id)
                <==> has_check(pre, id)) by {
                if has_check(self@.checks, id) {
                    let k = choose|k: int|
                        0 <= k < self@.checks.len() && (#[trigger] self@.checks[k]).id == id;
                    assert(pre[k].id == id);
                }
                if has_check(pre, id) {
                    let k = choose|k: int| 0 <= k < pre.len() && (#[trigger] pre[k]).id == id;
                    assert(self@.checks[k].id == id);
                }
            }
            assert forall|id: Seq<char>|
                id != check@.id && has_check(pre, id) implies check_named(self@.checks, id)
                == check_named(pre, id) by {
                let k = choose|k: int| 0 <= k < pre.len() && (#[trigger] pre[k]).id == id;
                assert(self@.checks[k].id == id);
                lemma_check_named_at(pre, k);
                lemma_check_named_at(self@.checks, k);
            }
        }
    }

    /// Register a profile under a name; fails when the name is already
    /// registered.
    pub fn register_profile(&mut self, name: &str, profile: Profile) -> (r: Result<(), String>)
        requires
            old(self).wf(),
            pv_wf(profile@),
        ensures
            final(self).wf(),
            match r {
                Ok(_) => !has_profile(old(self)@.profiles, name@) && final(self)@ == (RegistryView {
                    profiles: old(self)@.profiles.push((name@, profile@)),
                    ..old(self)@
                }),
                Err(_) => has_profile(old(self)@.profiles, name@) && *final(self) == *old(self),
            },
    {
        let mut i: usize = 0;
        while i < self.profiles.len()
            invariant
                self.wf(),
                i <= self.profiles@.len(),
                forall|k: int| 0 <= k < i ==> (#[trigger] self@.profiles[k]).0 != name@,
            decreases self.profiles@.len() - i,
        {
            if str_eq(self.profiles[i].0.as_str(), name) {
                proof {
                    assert(self@.profiles[i as int].0 == name@);
                }
                let mut message = String::from_str("a profile is already registered under ");
                message.append(name);
                return Err(message);
            }
            i += 1;
        }
        proof {
            if has_profile(self@.profiles, name@) {
                let k = choose|k: int|
                    0 <= k < self@.profiles.len() && (#[trigger] self@.profiles[k]).0 == name@;
                assert(self@.profiles[k].0 != name@);
            }
        }
        let ghost pre = self@.profiles;
        self.profiles.push((String::from_str(name), profile));
        proof {
            assert(self@.profiles =~= pre.push((name@, profile@)));
            assert(self@ =~= (RegistryView { profiles: pre.push((name@, profile@)), ..old(self)@ }));
        }
        Ok(())
    }

    /// The profile registered under the given name, if any.
    pub fn get_profile(&self, name: &str) -> (r: Option<&Profile>)
        requires
            self.wf(),
        ensures
            match r {
                Some(p) => has_profile(self@.profiles, name@) && p@ == profile_named(
                    self@.profiles,
                    name@,
                ) && pv_wf(p@),
                None => !has_profile(self@.profiles, name@),
            },
    {
        let mut i: usize = 0;
        while i < self.profiles.len()
            invariant
                self.wf(),
                i <= self.profiles@.len(),
                forall|k: int| 0 <= k < i ==> (#[trigger] self@.profiles[k]).0 != name@,
            decreases self.profiles@.len() - i,
        {
            if str_eq(self.profiles[i].0.as_str(), name) {
                proof {
                    assert(self@.profiles[i as int].0 == name@);
                    lemma_profile_named_at(self@.profiles, i as int);
                }
                return Some(&self.profiles[i].1);
            }
            i += 1;
        }
        proof {
            if has_profile(self@.profiles, name@) {
                let k = choose|k: int|
                    0 <= k < self@.profiles.len() && (#[trigger] self@.profiles[k]).0 == name@;
                assert(self@.profiles[k].0 != name@);
            }
        }
        None
    }
}

/// A rule bundle: one registration entry point that receives the
/// mutable registry and registers whatever checks and profiles it
/// defines. A failure to register is reported, not fatal to the run.
pub trait Plugin {
    /// Register this bundle's checks and profiles.
    fn register(&self, cr: &mut Registry) -> (r: Result<(), String>)
        requires
            old(cr).wf(),
        ensures
            final(cr).wf(),
    ;
}

} // verus!
