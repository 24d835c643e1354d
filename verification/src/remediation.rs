//! The remediation pass planner: the strictly sequential post-pass
//! that applies automated fixes groups fixable failures by file, runs
//! each file's fixes in run order, and persists the file once when any
//! fix reported a mutation.
//!
//! Loading and saving the files, and running the fix functions
//! themselves, is the surrounding application's business; this module
//! decides which results are fixed, in what grouping and order, records
//! the outcomes, and decides whether a file must be persisted.

use vstd::prelude::*;
use vstd::string::StringExecFns;
use crate::check::{severities_of, CheckResult, CheckResultView, FixResult, FixResultView};
use crate::registry::{check_named, has_check, Registry};
use crate::status::{worst_of, StatusCode};
use crate::strutil::str_eq;

verus! {

/// Whether result `i` takes part in the remediation pass: its
/// aggregate severity is at least `Fail`, its check defines a
/// remediation, and it has a concrete backing file.
pub open spec fn fix_eligible(
    rs: Seq<CheckResultView>,
    checks: Seq<crate::check::CheckView>,
    i: int,
) -> bool {
    &&& worst_of(severities_of(rs[i].subresults)).spec_rank() >= StatusCode::Fail.spec_rank()
    &&& rs[i].filename is Some
    &&& has_check(checks, rs[i].check_id)
    &&& check_named(checks, rs[i].check_id).hotfix
}

/// The distinct backing files of the eligible results among the first
/// `i`, in first-occurrence order.
pub open spec fn fix_files_upto(
    rs: Seq<CheckResultView>,
    checks: Seq<crate::check::CheckView>,
    i: int,
) -> Seq<Seq<char>>
    decreases i,
{
    if i <= 0 {
        Seq::empty()
    } else {
        let prev = fix_files_upto(rs, checks, i - 1);
        if fix_eligible(rs, checks, i - 1) {
            let f = rs[i - 1].filename.unwrap();
            if prev.contains(f) {
                prev
            } else {
                prev.push(f)
            }
        } else {
            prev
        }
    }
}

/// The indices (from `i` on) of the eligible results backed by
/// `fname`, in run order.
pub open spec fn fix_indices_from(
    rs: Seq<CheckResultView>,
    checks: Seq<crate::check::CheckView>,
    fname: Seq<char>,
    i: int,
) -> Seq<int>
    decreases rs.len() - i,
{
    if i < 0 || i >= rs.len() {
        Seq::empty()
    } else if fix_eligible(rs, checks, i) && rs[i].filename == Some(fname) {
        seq![i] + fix_indices_from(rs, checks, fname, i + 1)
    } else {
        fix_indices_from(rs, checks, fname, i + 1)
    }
}

/// One file's queued remediations: the backing file and the indices of
/// the results whose fixes run against it, in run order.
pub struct FixGroup {
    pub filename: String,
    pub indices: Vec<usize>,
}

/// The mathematical shape of a [`FixGroup`].
pub ghost struct FixGroupView {
    pub filename: Seq<char>,
    pub indices: Seq<int>,
}

impl View for FixGroup {
    type V = FixGroupView;

    open spec fn view(&self) -> FixGroupView {
        FixGroupView {
            filename: self.filename@,
            indices: Seq::new(self.indices@.len(), |k: int| self.indices@[k] as int),
        }
    }
}

impl DeepView for FixGroup {
    type V = FixGroupView;

    open spec fn deep_view(&self) -> FixGroupView {
        self.view()
    }
}

/// Plan the remediation pass over collected results: when remediation
/// was requested, group the eligible results by backing file — files in
/// first-occurrence order, each group's results in run order.
pub fn plan_fixes(results: &Vec<CheckResult>, registry: &Registry, hotfix_enabled: bool) -> (r:
    Vec<FixGroup>)
    requires
        registry.wf(),
    ensures
        !hotfix_enabled ==> r.deep_view() == Seq::<FixGroupView>::empty(),
        hotfix_enabled ==> {
            &&& r.deep_view().len() == fix_files_upto(
                results.deep_view(),
                registry@.checks,
                results.deep_view().len() as int,
            ).len()
            &&& forall|g: int|
                0 <= g < r.deep_view().len() ==> (#[trigger] r.deep_view()[g]).filename
                    == fix_files_upto(
                    results.deep_view(),
                    registry@.checks,
                    results.deep_view().len() as int,
                )[g] && r.deep_view()[g].indices == fix_indices_from(
                    results.deep_view(),
                    registry@.checks,
                    r.deep_view()[g].filename,
                    0,
                )
        },
{
    let mut out: Vec<FixGroup> = Vec::new();
    if !hotfix_enabled {
        proof {
            assert(out.deep_view() =~= Seq::<FixGroupView>::empty());
        }
        return out;
    }
    let ghost rs = results.deep_view();
    let ghost cks = registry@.checks;
    let mut files: Vec<String> = Vec::new();
    let mut i: usize = 0;
    while i < results.len()
        invariant
            registry.wf(),
            i <= results@.len(),
            rs == results.deep_view(),
            cks == registry@.checks,
            files.deep_view() == fix_files_upto(rs, cks, i as int),
        decreases results@.len() - i,
    {
        if is_fix_eligible(results, registry, i) {
            let fname = match &results[i].filename {
                Some(f) => f.clone(),
                None => {
                    proof {
                        assert(false);
                    }
                    String::new()
                },
            };
            if !crate::strutil::vec_contains_str(&files, fname.as_str()) {
                let ghost pre = files.deep_view();
                files.push(fname);
                proof {
                    assert(files.deep_view() =~= pre.push(rs[i as int].filename.unwrap()));
                }
            }
        }
        i += 1;
    }
    let mut g: usize = 0;
    while g < files.len()
        invariant
            registry.wf(),
            g <= files@.len(),
            rs == results.deep_view(),
            cks == registry@.checks,
            files.deep_view() == fix_files_upto(rs, cks, rs.len() as int),
            out.deep_view().len() == g,
            forall|k: int|
                0 <= k < g ==> (#[trigger] out.deep_view()[k]).filename == files.deep_view()[k]
                    && out.deep_view()[k].indices == fix_indices_from(
                    rs,
                    cks,
                    files.deep_view()[k],
                    0,
                ),
        decreases files@.len() - g,
    {
        let fname = &files[g];
        let mut indices: Vec<usize> = Vec::new();
        let mut i2: usize = 0;
        while i2 < results.len()
            invariant
                registry.wf(),
                i2 <= results@.len(),
                rs == results.deep_view(),
                cks == registry@.checks,
                fix_indices_from(rs, cks, fname@, 0) == Seq::new(
                    indices@.len(),
                    |k: int| indices@[k] as int,
                ) + fix_indices_from(rs, cks, fname@, i2 as int),
            decreases results@.len() - i2,
        {
            let ghost pre = Seq::new(indices@.len(), |k: int| indices@[k] as int);
            let eligible_here = is_fix_eligible(results, registry, i2);
            let name_matches = match &results[i2].filename {
                Some(f) => str_eq(f.as_str(), fname.as_str()),
                None => false,
            };
            if eligible_here && name_matches {
                proof {
                    assert(rs[i2 as int].filename == Some(fname@));
                }
                indices.push(i2);
                proof {
                    assert(Seq::new(indices@.len(), |k: int| indices@[k] as int) =~= pre.push(
                        i2 as int,
                    ));
                    assert(pre + (seq![i2 as int] + fix_indices_from(rs, cks, fname@, i2 as int
                        + 1)) =~= Seq::new(indices@.len(), |k: int| indices@[k] as int)
                        + fix_indices_from(rs, cks, fname@, i2 as int + 1));
                }
            } else {
                proof {
                    if rs[i2 as int].filename == Some(fname@) {
                        assert(name_matches == true || !eligible_here);
                    }
                }
            }
            i2 += 1;
        }
        proof {
            assert(Seq::new(indices@.len(), |k: int| indices@[k] as int) + fix_indices_from(
                rs,
                cks,
                fname@,
                rs.len() as int,
            ) =~= Seq::new(indices@.len(), |k: int| indices@[k] as int));
        }
        let ghost pre_out = out.deep_view();
        out.push(FixGroup { filename: fname.clone(), indices });
        proof {
            assert(out.deep_view().len() == pre_out.len() + 1);
            assert forall|k: int| 0 <= k < out.deep_view().len() implies (
            #[trigger] out.deep_view()[k]).filename == files.deep_view()[k] && out.deep_view()[
                k].indices == fix_indices_from(rs, cks, files.deep_view()[k], 0) by {
                if k < pre_out.len() {
                    assert(out.deep_view()[k] == pre_out[k]);
                } else {
                    assert(out.deep_view()[k].filename == fname@);
                    assert(out.deep_view()[k].indices =~= fix_indices_from(rs, cks, fname@, 0));
                }
            }
        }
        g += 1;
    }
    out
}

/// Whether result `i` takes part in remediation, as [`fix_eligible`]
/// describes it.
fn is_fix_eligible(results: &Vec<CheckResult>, registry: &Registry, i: usize) -> (r: bool)
    requires
        registry.wf(),
        i < results@.len(),
    ensures
        r == fix_eligible(results.deep_view(), registry@.checks, i as int),
{
    let cr = &results[i];
    let worst = cr.worst_status();
    if worst.rank() < StatusCode::Fail.rank() {
        return false;
    }
    let has_file = match &cr.filename {
        Some(_) => true,
        None => false,
    };
    if !has_file {
        return false;
    }
    match registry.get_check(cr.check_id.as_str()) {
        Some(c) => c.hotfix,
        None => false,
    }
}

/// The recorded outcome for one fix attempt: `Fixed` on success,
/// `FixError` carrying the failure text otherwise.
pub open spec fn fix_outcome_view(outcome: Result<bool, String>) -> FixResultView {
    match outcome {
        Ok(_) => FixResultView::Fixed,
        Err(e) => FixResultView::FixError(e@),
    }
}

/// Record the outcomes of one file's fixes on their originating
/// results, in order, and fold whether any fix reported a mutation —
/// when this hands back `true`, the caller must persist the file, once.
/// A failed fix is recorded and does not stop the remaining fixes.
pub fn record_fix_results(
    results: &mut Vec<CheckResult>,
    indices: &Vec<usize>,
    outcomes: &Vec<Result<bool, String>>,
) -> (modified: bool)
    requires
        indices@.len() == outcomes@.len(),
        forall|j: int| 0 <= j < indices@.len() ==> #[trigger] indices@[j] < old(results)@.len(),
        forall|a: int, b: int|
            0 <= a < b < indices@.len() ==> indices@[a] != indices@[b],
    ensures
        final(results)@.len() == old(results)@.len(),
        forall|j: int|
            0 <= j < indices@.len() ==> final(results).deep_view()[#[trigger] indices@[j] as int]
                == (CheckResultView {
                hotfix_result: Some(fix_outcome_view(outcomes@[j])),
                ..old(results).deep_view()[indices@[j] as int]
            }),
        forall|k: int|
            0 <= k < old(results)@.len() && (forall|j: int|
                0 <= j < indices@.len() ==> #[trigger] indices@[j] != k)
                ==> final(results).deep_view()[k] == old(results).deep_view()[k],
        modified == (exists|j: int|
            0 <= j < outcomes@.len() && (#[trigger] outcomes@[j]) matches Ok(true)),
{
    let mut modified = false;
    let mut j: usize = 0;
    while j < indices.len()
        invariant
            indices@.len() == outcomes@.len(),
            j <= indices@.len(),
            results@.len() == old(results)@.len(),
            forall|jj: int| 0 <= jj < indices@.len() ==> #[trigger] indices@[jj] < results@.len(),
            forall|a: int, b: int|
                0 <= a < b < indices@.len() ==> indices@[a] != indices@[b],
            forall|jj: int|
                0 <= jj < j ==> results.deep_view()[#[trigger] indices@[jj] as int]
                    == (CheckResultView {
                    hotfix_result: Some(fix_outcome_view(outcomes@[jj])),
                    ..old(results).deep_view()[indices@[jj] as int]
                }),
            forall|k: int|
                0 <= k < old(results)@.len() && (forall|jj: int|
                    0 <= jj < j ==> #[trigger] indices@[jj] != k) ==> results.deep_view()[k]
                    == old(results).deep_view()[k],
            modified == (exists|jj: int|
                0 <= jj < j && (#[trigger] outcomes@[jj]) matches Ok(true)),
        decreases indices@.len() - j,
    {
        let idx = indices[j];
        let mut cr = results[idx].clone();
        let fixed: FixResult = match &outcomes[j] {
            Ok(_) => FixResult::Fixed,
            Err(e) => FixResult::FixError(e.clone()),
        };
        cr.hotfix_result = Some(fixed);
        let ghost pre = results.deep_view();
        results[idx] = cr;
        proof {
            assert(results.deep_view() =~= pre.update(
                idx as int,
                (CheckResultView {
                    hotfix_result: Some(fix_outcome_view(outcomes@[j as int])),
                    ..old(results).deep_view()[idx as int]
                }),
            ));
        }
        match &outcomes[j] {
            Ok(b) => {
                if *b {
                    modified = true;
                }
            },
            Err(_) => {},
        }
        j += 1;
    }
    modified
}

} // verus!
