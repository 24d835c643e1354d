//! The per-invocation run context handed to each unit of work, and the
//! shared memoization cache for expensive external lookups.

use vstd::prelude::*;
use vstd::string::StringExecFns;
use crate::config::{cv_view, ConfigValue, ConfigView};
use crate::status::{Override, OverrideView};
use crate::strutil::str_eq;

verus! {

/// The per-invocation configuration bundle a check receives.
///
/// A context is specialized once per scheduled unit of work: the
/// override list is replaced by the overrides applicable to that unit's
/// check. The memoization cache is shared per run and is handed to the
/// execution phase separately, beside the work list.
pub struct Context {
    /// Checks that need the network must report `Skip` instead of
    /// attempting the call when this is set.
    pub skip_network: bool,
    /// Timeout for network access, in seconds, if any.
    pub network_timeout: Option<u64>,
    /// The opaque configuration object, forwarded as-is; each check
    /// reads only the keys it recognizes.
    pub configuration: Vec<(String, ConfigValue)>,
    /// Free-form check-specific metadata.
    pub check_metadata: ConfigValue,
    /// Whether list-style messages are rendered in full.
    pub full_lists: bool,
    /// The override list consulted for the check about to run.
    pub overrides: Vec<Override>,
}

/// The mathematical shape of a [`Context`].
#[verifier::ext_equal]
pub ghost struct ContextView {
    pub skip_network: bool,
    pub network_timeout: Option<u64>,
    pub configuration: Seq<(Seq<char>, ConfigView)>,
    pub check_metadata: ConfigView,
    pub full_lists: bool,
    pub overrides: Seq<OverrideView>,
}

impl View for Context {
    type V = ContextView;

    open spec fn view(&self) -> ContextView {
        ContextView {
            skip_network: self.skip_network,
            network_timeout: self.network_timeout,
            configuration: self.configuration.deep_view(),
            check_metadata: cv_view(self.check_metadata),
            full_lists: self.full_lists,
            overrides: self.overrides.deep_view(),
        }
    }
}

impl Context {
    /// A context with the given flags, an empty configuration, no
    /// metadata and no overrides.
    pub fn new(skip_network: bool, network_timeout: Option<u64>, full_lists: bool) -> (r: Self)
        ensures
            r@ == (ContextView {
                skip_network,
                network_timeout,
                configuration: Seq::<(Seq<char>, ConfigView)>::empty(),
                check_metadata: ConfigView::Null,
                full_lists,
                overrides: Seq::<OverrideView>::empty(),
            }),
    {
        let r = Context {
            skip_network,
            network_timeout,
            configuration: Vec::new(),
            check_metadata: ConfigValue::Null,
            full_lists,
            overrides: Vec::new(),
        };
        proof {
            assert(r@.configuration =~= Seq::<(Seq<char>, ConfigView)>::empty());
            assert(r@.overrides =~= Seq::<OverrideView>::empty());
        }
        r
    }
}

/// A copy of a configuration object, denoting the same keyed values.
pub fn clone_configuration(v: &Vec<(String, ConfigValue)>) -> (out: Vec<(String, ConfigValue)>)
    ensures
        out.deep_view() == v.deep_view(),
{
    let mut out: Vec<(String, ConfigValue)> = Vec::new();
    let mut i: usize = 0;
    while i < v.len()
        invariant
            i <= v@.len(),
            out@.len() == i,
            forall|k: int| 0 <= k < i ==> out.deep_view()[k] == v.deep_view()[k],
        decreases v@.len() - i,
    {
        let entry = &v[i];
        out.push((entry.0.clone(), entry.1.clone()));
        i += 1;
    }
    proof {
        assert(out.deep_view() =~= v.deep_view());
    }
    out
}

impl Clone for Context {
    /// The copy denotes the same context.
    fn clone(&self) -> (r: Self)
        ensures
            r@ == self@,
    {
        let overrides = self.overrides.clone();
        proof {
            assert(overrides.deep_view() =~= self.overrides.deep_view()) by {
                assert forall|k: int| 0 <= k < self.overrides@.len() implies overrides.deep_view()[
                    k] == self.overrides.deep_view()[k] by {
                    assert(cloned::<Override>(self.overrides[k], overrides[k]));
                }
            }
        }
        Context {
            skip_network: self.skip_network,
            network_timeout: self.network_timeout,
            configuration: clone_configuration(&self.configuration),
            check_metadata: self.check_metadata.clone(),
            full_lists: self.full_lists,
            overrides,
        }
    }
}

/// The abstract value of one cached entry's payload.
pub open spec fn result_view(r: Result<ConfigValue, String>) -> Result<ConfigView, Seq<char>> {
    match r {
        Ok(v) => Ok(cv_view(v)),
        Err(e) => Err(e@),
    }
}

/// The memoization cache: keyed results of expensive external lookups,
/// shared by every unit of work in a run.
pub struct Cache {
    entries: Vec<(String, Result<ConfigValue, String>)>,
}

/// The abstract value of the cache: its keyed entries, in insertion
/// order.
pub type CacheView = Seq<(Seq<char>, Result<ConfigView, Seq<char>>)>;

impl View for Cache {
    type V = CacheView;

    closed spec fn view(&self) -> CacheView {
        Seq::new(
            self.entries@.len(),
            |i: int| (self.entries@[i].0@, result_view(self.entries@[i].1)),
        )
    }
}

/// Whether the cache holds an entry for `key`.
pub open spec fn cache_has(entries: CacheView, key: Seq<char>) -> bool {
    exists|i: int| 0 <= i < entries.len() && (#[trigger] entries[i]).0 == key
}

/// The payload cached for `key` (meaningful when present and keys are
/// unique).
pub open spec fn cache_val(entries: CacheView, key: Seq<char>) -> Result<ConfigView, Seq<char>> {
    entries[choose|i: int| 0 <= i < entries.len() && (#[trigger] entries[i]).0 == key].1
}

/// No key occurs twice.
pub open spec fn cache_keys_unique(entries: CacheView) -> bool {
    forall|i: int, j: int|
        0 <= i < j < entries.len() ==> (#[trigger] entries[i]).0 != (#[trigger] entries[j]).0
}

/// With unique keys, the entry at `j` is the entry for its key.
proof fn lemma_cache_val_at(entries: CacheView, j: int)
    requires
        cache_keys_unique(entries),
        0 <= j < entries.len(),
    ensures
        cache_val(entries, entries[j].0) == entries[j].1,
{
    let key = entries[j].0;
    let k = choose|i: int| 0 <= i < entries.len() && (#[trigger] entries[i]).0 == key;
    if k != j {
        if k < j {
            assert(entries[k].0 != entries[j].0);
        } else {
            assert(entries[j].0 != entries[k].0);
        }
    }
}

/// How one `get_or_compute` call changes the cache: a known key leaves
/// it untouched and hands back the stored payload; an unknown key
/// appends the newly computed payload.
pub open spec fn memo_step(
    pre: CacheView,
    key: Seq<char>,
    post: CacheView,
    result: Result<ConfigView, Seq<char>>,
) -> bool {
    if cache_has(pre, key) {
        post == pre && result == cache_val(pre, key)
    } else {
        post == pre.push((key, result))
    }
}

/// The memoization law: once a key has been asked for, every further
/// request for the same key hands back the same payload and leaves the
/// cache unchanged — the computation behind the first request is never
/// repeated, and this holds whether the first computation succeeded or
/// failed.
pub proof fn lemma_get_or_compute_once(
    pre: CacheView,
    key: Seq<char>,
    mid: CacheView,
    first: Result<ConfigView, Seq<char>>,
    post: CacheView,
    second: Result<ConfigView, Seq<char>>,
)
    requires
        cache_keys_unique(pre),
        memo_step(pre, key, mid, first),
        memo_step(mid, key, post, second),
    ensures
        second == first,
        post == mid,
{
    if cache_has(pre, key) {
        assert(second == cache_val(pre, key));
    } else {
        assert(mid == pre.push((key, first)));
        assert(mid[mid.len() - 1] == (key, first));
        assert(cache_has(mid, key));
        assert(cache_keys_unique(mid)) by {
            assert forall|i: int, j: int| 0 <= i < j < mid.len() implies (#[trigger] mid[i]).0 != (
            #[trigger] mid[j]).0 by {
                if j < mid.len() - 1 {
                    assert(pre[i].0 != pre[j].0);
                } else {
                    assert(mid[i] == pre[i]);
                    if mid[i].0 == key {
                        assert(cache_has(pre, key));
                    }
                }
            }
        }
        lemma_cache_val_at(mid, mid.len() - 1);
    }
}

impl Cache {
    /// Unique keys.
    pub open spec fn wf(&self) -> bool {
        cache_keys_unique(self@)
    }

    /// An empty cache.
    pub fn new() -> (r: Self)
        ensures
            r.wf(),
            r@ == Seq::<(Seq<char>, Result<ConfigView, Seq<char>>)>::empty(),
    {
        let r = Cache { entries: Vec::new() };
        proof {
            assert(r@ =~= Seq::<(Seq<char>, Result<ConfigView, Seq<char>>)>::empty());
        }
        r
    }

    /// Look the key up; on a miss, run `compute` once, cache its
    /// result, and hand it back. A hit hands back the stored payload —
    /// also when the stored payload is an error, so a failed lookup is
    /// not retried within a run.
    pub fn get_or_compute<F: FnOnce() -> Result<ConfigValue, String>>(
        &mut self,
        key: &str,
        compute: F,
    ) -> (r: Result<ConfigValue, String>)
        requires
            old(self).wf(),
            call_requires(compute, ()),
        ensures
            final(self).wf(),
            memo_step(old(self)@, key@, final(self)@, result_view(r)),
            !cache_has(old(self)@, key@) ==> exists|rv: Result<ConfigValue, String>|
                call_ensures(compute, (), rv) && result_view(r) == result_view(rv),
    {
        let ghost pre = self@;
        let mut i: usize = 0;
        while i < self.entries.len()
            invariant
                self.wf(),
                *self == *old(self),
                pre == self@,
                i <= self.entries@.len(),
                forall|k: int| 0 <= k < i ==> (#[trigger] self@[k]).0 != key@,
            decreases self.entries@.len() - i,
        {
            if str_eq(self.entries[i].0.as_str(), key) {
                proof {
                    assert(self@[i as int].0 == key@);
                    lemma_cache_val_at(self@, i as int);
                }
                let stored = &self.entries[i].1;
                let copy: Result<ConfigValue, String> = match stored {
                    Ok(v) => Ok(v.clone()),
                    Err(e) => Err(e.clone()),
                };
                proof {
                    assert(result_view(copy) == self@[i as int].1);
                }
                return copy;
            }
            i += 1;
        }
        proof {
            if cache_has(pre, key@) {
                let k = choose|k: int| 0 <= k < pre.len() && (#[trigger] pre[k]).0 == key@;
                assert(pre[k].0 != key@);
            }
        }
        let computed = compute();
        let copy: Result<ConfigValue, String> = match &computed {
            Ok(v) => Ok(v.clone()),
            Err(e) => Err(e.clone()),
        };
        proof {
            assert(result_view(copy) == result_view(computed));
        }
        self.entries.push((String::from_str(key), computed));
        proof {
            assert(self@ =~= pre.push((key@, result_view(computed))));
            assert forall|a: int, b: int| 0 <= a < b < self@.len() implies (#[trigger] self@[a]).0
                != (#[trigger] self@[b]).0 by {
                if b < self@.len() - 1 {
                    assert(pre[a].0 != pre[b].0);
                } else {
                    assert(self@[a] == pre[a]);
                    if self@[a].0 == key@ {
                        assert(cache_has(pre, key@));
                    }
                }
            }
        }
        copy
    }
}

} // verus!
