//! Check metadata and per-execution results.
//!
//! A check's evaluation function and its optional remediation function
//! are implemented outside this crate; the engine tracks their metadata
//! (identity, applicability, whether a remediation exists) and owns the
//! results they produce.

use vstd::prelude::*;
use vstd::string::StringExecFns;
use crate::status::{
    overridden_status_view, worst_of, CheckError, Override, Status, StatusCode, StatusView,
};
use crate::context::Context;

verus! {

/// Whether a check runs once per individual artifact or once per
/// artifact group.
#[derive(Debug, Clone, Copy, PartialEq, Eq, Structural)]
pub enum Applicability {
    /// One unit of work per single artifact.
    CheckOne,
    /// Exactly one unit of work per artifact group.
    CheckAll,
}

/// A named, described validation rule. Immutable after registration.
pub struct Check {
    /// The check identifier, unique within a registry.
    pub id: String,
    /// A short human-readable title.
    pub title: String,
    /// Why the check exists.
    pub rationale: String,
    /// Where the check was proposed.
    pub proposal: String,
    /// Whether the check runs per artifact or per artifact group.
    pub applicability: Applicability,
    /// Whether an automated remediation exists for this check.
    pub hotfix: bool,
    /// Whether the check is still experimental.
    pub experimental: bool,
}

/// The mathematical shape of a [`Check`].
pub ghost struct CheckView {
    pub id: Seq<char>,
    pub title: Seq<char>,
    pub rationale: Seq<char>,
    pub proposal: Seq<char>,
    pub applicability: Applicability,
    pub hotfix: bool,
    pub experimental: bool,
}

impl View for Check {
    type V = CheckView;

    open spec fn view(&self) -> CheckView {
        CheckView {
            id: self.id@,
            title: self.title@,
            rationale: self.rationale@,
            proposal: self.proposal@,
            applicability: self.applicability,
            hotfix: self.hotfix,
            experimental: self.experimental,
        }
    }
}

impl DeepView for Check {
    type V = CheckView;

    open spec fn deep_view(&self) -> CheckView {
        self.view()
    }
}

impl Check {
    /// A new check with the given metadata, no remediation and no
    /// experimental flag.
    pub fn new(id: &str, title: &str, rationale: &str, proposal: &str, applicability: Applicability) -> (r: Self)
        ensures
            r@ == (CheckView {
                id: id@,
                title: title@,
                rationale: rationale@,
                proposal: proposal@,
                applicability,
                hotfix: false,
                experimental: false,
            }),
    {
        Check {
            id: String::from_str(id),
            title: String::from_str(title),
            rationale: String::from_str(rationale),
            proposal: String::from_str(proposal),
            applicability,
            hotfix: false,
            experimental: false,
        }
    }

    /// The same check, marked as having an automated remediation.
    pub fn with_hotfix(self) -> (r: Self)
        ensures
            r@ == (CheckView { hotfix: true, ..self@ }),
    {
        Check { hotfix: true, ..self }
    }

    /// The same check, marked experimental.
    pub fn as_experimental(self) -> (r: Self)
        ensures
            r@ == (CheckView { experimental: true, ..self@ }),
    {
        Check { experimental: true, ..self }
    }
}

impl Clone for Check {
    /// The copy denotes the same check.
    fn clone(&self) -> (r: Self)
        ensures
            r@ == self@,
    {
        Check {
            id: self.id.clone(),
            title: self.title.clone(),
            rationale: self.rationale.clone(),
            proposal: self.proposal.clone(),
            applicability: self.applicability,
            hotfix: self.hotfix,
            experimental: self.experimental,
        }
    }
}

/// The recorded outcome of one remediation attempt.
pub enum FixResult {
    /// The remediation function ran successfully.
    Fixed,
    /// The remediation function failed; the text describes the failure.
    FixError(String),
}

/// The mathematical shape of a [`FixResult`].
pub ghost enum FixResultView {
    Fixed,
    FixError(Seq<char>),
}

impl View for FixResult {
    type V = FixResultView;

    open spec fn view(&self) -> FixResultView {
        match self {
            FixResult::Fixed => FixResultView::Fixed,
            FixResult::FixError(e) => FixResultView::FixError(e@),
        }
    }
}

impl DeepView for FixResult {
    type V = FixResultView;

    open spec fn deep_view(&self) -> FixResultView {
        self.view()
    }
}

impl Clone for FixResult {
    /// The copy denotes the same outcome.
    fn clone(&self) -> (r: Self)
        ensures
            r@ == self@,
    {
        match self {
            FixResult::Fixed => FixResult::Fixed,
            FixResult::FixError(e) => FixResult::FixError(e.clone()),
        }
    }
}

/// The aggregate of all subresults produced by one execution of one
/// check against one artifact.
pub struct CheckResult {
    /// The identifier of the check that ran.
    pub check_id: String,
    /// The name of the section the check belongs to, if known.
    pub section: Option<String>,
    /// The backing file, absent for collection-level results.
    pub filename: Option<String>,
    /// Evaluation time in microseconds, measured by the caller.
    pub time_micros: u64,
    /// The ordered subresults of the evaluation.
    pub subresults: Vec<Status>,
    /// The outcome of the remediation pass, if one ran for this result.
    pub hotfix_result: Option<FixResult>,
}

/// The mathematical shape of a [`CheckResult`].
pub ghost struct CheckResultView {
    pub check_id: Seq<char>,
    pub section: Option<Seq<char>>,
    pub filename: Option<Seq<char>>,
    pub time_micros: u64,
    pub subresults: Seq<StatusView>,
    pub hotfix_result: Option<FixResultView>,
}

impl View for CheckResult {
    type V = CheckResultView;

    open spec fn view(&self) -> CheckResultView {
        CheckResultView {
            check_id: self.check_id@,
            section: self.section.deep_view(),
            filename: self.filename.deep_view(),
            time_micros: self.time_micros,
            subresults: self.subresults.deep_view(),
            hotfix_result: self.hotfix_result.deep_view(),
        }
    }
}

impl DeepView for CheckResult {
    type V = CheckResultView;

    open spec fn deep_view(&self) -> CheckResultView {
        self.view()
    }
}

/// The severities of a sequence of subresults, in order.
pub open spec fn severities_of(subresults: Seq<StatusView>) -> Seq<StatusCode> {
    subresults.map_values(|s: StatusView| s.severity)
}

impl CheckResult {
    /// The aggregate severity of this result: the maximum severity among
    /// its subresults, or `Pass` if it has none.
    pub fn worst_status(&self) -> (r: StatusCode)
        ensures
            r == worst_of(severities_of(self@.subresults)),
    {
        if self.subresults.len() == 0 {
            return StatusCode::Pass;
        }
        let ghost sevs = severities_of(self@.subresults);
        let mut acc = self.subresults[0].severity;
        let mut i: usize = 1;
        while i < self.subresults.len()
            invariant
                1 <= i <= self.subresults@.len(),
                sevs == severities_of(self@.subresults),
                sevs.len() == self.subresults@.len(),
                forall|k: int| 0 <= k < sevs.len() ==> sevs[k] == self.subresults@[k]@.severity,
                worst_of(sevs) == crate::status::worst_of_with(sevs, i as int, acc),
            decreases self.subresults@.len() - i,
        {
            acc = crate::status::max_severity(acc, self.subresults[i].severity);
            i += 1;
        }
        acc
    }

    /// Whether this result's aggregate severity is `Error`.
    pub fn is_error(&self) -> (r: bool)
        ensures
            r == (worst_of(severities_of(self@.subresults)) == StatusCode::Error),
    {
        let w = self.worst_status();
        match w {
            StatusCode::Error => true,
            _ => false,
        }
    }
}

impl Clone for CheckResult {
    /// The copy denotes the same result.
    fn clone(&self) -> (r: Self)
        ensures
            r@ == self@,
    {
        let subresults = self.subresults.clone();
        proof {
            assert(subresults.deep_view() =~= self.subresults.deep_view()) by {
                assert forall|i: int| 0 <= i < self.subresults@.len() implies subresults.deep_view()[i]
                    == self.subresults.deep_view()[i] by {
                    assert(cloned::<Status>(self.subresults[i], subresults[i]));
                }
            }
        }
        CheckResult {
            check_id: self.check_id.clone(),
            section: self.section.clone(),
            filename: self.filename.clone(),
            time_micros: self.time_micros,
            subresults,
            hotfix_result: self.hotfix_result.clone(),
        }
    }
}

/// What a check implementation hands back: its subresults, or an early
/// return (an error, or an intentional skip).
pub type CheckFnResult = Result<Vec<Status>, CheckError>;

/// The subresults an outcome records for an evaluation's result: the
/// returned subresults with the unit's override list applied to each;
/// an early error becomes a single `Error` subresult and an early skip
/// a single `Skip` subresult, treated the same way.
pub open spec fn outcome_subresults(eval: CheckFnResult, ovs: Seq<Override>) -> Seq<StatusView> {
    match eval {
        Ok(sts) => Seq::new(
            sts.deep_view().len(),
            |i: int| overridden_status_view(sts.deep_view()[i], ovs),
        ),
        Err(CheckError::Error(e)) => seq![
            overridden_status_view(
                StatusView {
                    message: Some(e@),
                    severity: StatusCode::Error,
                    code: None,
                    metadata: None,
                },
                ovs,
            ),
        ],
        Err(CheckError::Skip { code, message }) => seq![
            overridden_status_view(
                StatusView {
                    message: Some(message@),
                    severity: StatusCode::Skip,
                    code: Some(code@),
                    metadata: None,
                },
                ovs,
            ),
        ],
    }
}

impl Check {
    /// Wrap one evaluation's result into the outcome recorded for this
    /// check against one artifact: apply the unit's override list to
    /// each subresult, turn an early error into a single `Error`
    /// subresult and an early skip into a single `Skip` subresult.
    ///
    /// The evaluation function itself runs outside this crate; the
    /// caller measures its elapsed time and hands both in.
    pub fn outcome(
        &self,
        section: &str,
        filename: Option<String>,
        eval: CheckFnResult,
        context: &Context,
        time_micros: u64,
    ) -> (r: CheckResult)
        ensures
            r@.check_id == self@.id,
            r@.section == Some(section@),
            r@.filename == filename.deep_view(),
            r@.time_micros == time_micros,
            r@.hotfix_result is None,
            r@.subresults == outcome_subresults(eval, context.overrides@),
    {
        let ghost ovsg = context.overrides@;
        let subresults: Vec<Status> = match eval {
            Ok(sts) => {
                let mut out: Vec<Status> = Vec::new();
                let mut i: usize = 0;
                while i < sts.len()
                    invariant
                        i <= sts@.len(),
                        out@.len() == i,
                        ovsg == context.overrides@,
                        forall|k: int|
                            0 <= k < i ==> out.deep_view()[k] == overridden_status_view(
                                sts.deep_view()[k],
                                ovsg,
                            ),
                    decreases sts@.len() - i,
                {
                    let mut s = sts[i].clone();
                    proof {
                        assert(s@ == sts.deep_view()[i as int]);
                    }
                    s.process_override(context.overrides.as_slice());
                    let ghost pre = out.deep_view();
                    out.push(s);
                    proof {
                        assert(out.deep_view() =~= pre.push(
                            overridden_status_view(sts.deep_view()[i as int], ovsg),
                        ));
                    }
                    i += 1;
                }
                proof {
                    assert(out.deep_view() =~= outcome_subresults(eval, ovsg));
                }
                out
            },
            Err(CheckError::Error(e)) => {
                let mut s = Status {
                    message: Some(e),
                    severity: StatusCode::Error,
                    code: None,
                    metadata: None,
                };
                s.process_override(context.overrides.as_slice());
                let mut out: Vec<Status> = Vec::new();
                out.push(s);
                proof {
                    assert(out.deep_view() =~= outcome_subresults(eval, ovsg));
                }
                out
            },
            Err(CheckError::Skip { code, message }) => {
                let mut s = Status {
                    message: Some(message),
                    severity: StatusCode::Skip,
                    code: Some(code),
                    metadata: None,
                };
                s.process_override(context.overrides.as_slice());
                let mut out: Vec<Status> = Vec::new();
                out.push(s);
                proof {
                    assert(out.deep_view() =~= outcome_subresults(eval, ovsg));
                }
                out
            },
        };
        CheckResult {
            check_id: self.id.clone(),
            section: Some(String::from_str(section)),
            filename,
            time_micros,
            subresults,
            hotfix_result: None,
        }
    }
}

} // verus!
