//! The severity model: severity codes, per-rule subresults, severity
//! overrides and early-return conditions for checks.

use vstd::prelude::*;
use vstd::string::StringExecFns;
use crate::config::{cv_view, ConfigValue, ConfigView};
use crate::strutil::string_eq;

verus! {

/// A severity level for a single check subresult.
///
/// The six levels are totally ordered, from least to most severe:
/// `Skip < Pass < Info < Warn < Fail < Error`. `Error` means the check
/// could not complete its evaluation at all, as opposed to `Fail`, a
/// substantive rule violation, and `Skip`, a check that legitimately did
/// not apply.
#[derive(Debug, Clone, Copy, PartialEq, Eq, Structural, Hash)]
pub enum StatusCode {
    Skip,
    Pass,
    Info,
    Warn,
    Fail,
    Error,
}

impl StatusCode {
    /// Position of this severity in the total order.
    pub open spec fn spec_rank(self) -> u8 {
        match self {
            StatusCode::Skip => 0u8,
            StatusCode::Pass => 1u8,
            StatusCode::Info => 2u8,
            StatusCode::Warn => 3u8,
            StatusCode::Fail => 4u8,
            StatusCode::Error => 5u8,
        }
    }

    /// Position of this severity in the total order.
    #[verifier::when_used_as_spec(spec_rank)]
    pub fn rank(self) -> (r: u8)
        ensures
            r == self.spec_rank(),
    {
        match self {
            StatusCode::Skip => 0u8,
            StatusCode::Pass => 1u8,
            StatusCode::Info => 2u8,
            StatusCode::Warn => 3u8,
            StatusCode::Fail => 4u8,
            StatusCode::Error => 5u8,
        }
    }

    /// The upper-case name of this severity.
    pub open spec fn name_chars(self) -> Seq<char> {
        match self {
            StatusCode::Skip => "SKIP"@,
            StatusCode::Pass => "PASS"@,
            StatusCode::Info => "INFO"@,
            StatusCode::Warn => "WARN"@,
            StatusCode::Fail => "FAIL"@,
            StatusCode::Error => "ERROR"@,
        }
    }

    /// The upper-case name of this severity, for reports.
    pub fn as_str(self) -> (r: &'static str)
        ensures
            r@ == self.name_chars(),
    {
        match self {
            StatusCode::Skip => "SKIP",
            StatusCode::Pass => "PASS",
            StatusCode::Info => "INFO",
            StatusCode::Warn => "WARN",
            StatusCode::Fail => "FAIL",
            StatusCode::Error => "ERROR",
        }
    }

    /// All status codes, in the order they are offered to a user choosing
    /// a minimum reported severity.
    pub fn all() -> (r: Vec<StatusCode>)
        ensures
            r@ == seq![
                StatusCode::Skip,
                StatusCode::Info,
                StatusCode::Pass,
                StatusCode::Warn,
                StatusCode::Fail,
                StatusCode::Error,
            ],
    {
        let mut r: Vec<StatusCode> = Vec::new();
        r.push(StatusCode::Skip);
        r.push(StatusCode::Info);
        r.push(StatusCode::Pass);
        r.push(StatusCode::Warn);
        r.push(StatusCode::Fail);
        r.push(StatusCode::Error);
        proof {
            assert(r@ =~= seq![
                StatusCode::Skip,
                StatusCode::Info,
                StatusCode::Pass,
                StatusCode::Warn,
                StatusCode::Fail,
                StatusCode::Error,
            ]);
        }
        r
    }

    /// The status code denoted by an upper-case severity name, if any.
    pub open spec fn spec_from_string(s: Seq<char>) -> Option<StatusCode> {
        if s == "SKIP"@ {
            Some(StatusCode::Skip)
        } else if s == "INFO"@ {
            Some(StatusCode::Info)
        } else if s == "PASS"@ {
            Some(StatusCode::Pass)
        } else if s == "WARN"@ {
            Some(StatusCode::Warn)
        } else if s == "FAIL"@ {
            Some(StatusCode::Fail)
        } else if s == "ERROR"@ {
            Some(StatusCode::Error)
        } else {
            None
        }
    }

    /// Convert an upper-case severity name to a status code.
    ///
    /// This is used when the status code comes from an external source,
    /// such as a configuration file.
    pub fn from_string(s: &str) -> (r: Option<StatusCode>)
        ensures
            r == StatusCode::spec_from_string(s@),
    {
        if crate::strutil::str_eq(s, "SKIP") {
            Some(StatusCode::Skip)
        } else if crate::strutil::str_eq(s, "INFO") {
            Some(StatusCode::Info)
        } else if crate::strutil::str_eq(s, "PASS") {
            Some(StatusCode::Pass)
        } else if crate::strutil::str_eq(s, "WARN") {
            Some(StatusCode::Warn)
        } else if crate::strutil::str_eq(s, "FAIL") {
            Some(StatusCode::Fail)
        } else if crate::strutil::str_eq(s, "ERROR") {
            Some(StatusCode::Error)
        } else {
            None
        }
    }
}

impl PartialOrd for StatusCode {
    /// Severities compare by their position in the total order.
    fn partial_cmp(&self, other: &Self) -> (r: Option<core::cmp::Ordering>) {
        let a = self.rank();
        let b = other.rank();
        if a < b {
            Some(core::cmp::Ordering::Less)
        } else if a == b {
            Some(core::cmp::Ordering::Equal)
        } else {
            Some(core::cmp::Ordering::Greater)
        }
    }
}

impl vstd::std_specs::cmp::PartialOrdSpecImpl for StatusCode {
    open spec fn obeys_partial_cmp_spec() -> bool {
        true
    }

    open spec fn partial_cmp_spec(&self, other: &Self) -> Option<core::cmp::Ordering> {
        if self.spec_rank() < other.spec_rank() {
            Some(core::cmp::Ordering::Less)
        } else if self.spec_rank() == other.spec_rank() {
            Some(core::cmp::Ordering::Equal)
        } else {
            Some(core::cmp::Ordering::Greater)
        }
    }
}

/// The more severe of two status codes; the left one on a tie.
pub open spec fn max_code(a: StatusCode, b: StatusCode) -> StatusCode {
    if a.spec_rank() >= b.spec_rank() {
        a
    } else {
        b
    }
}

/// The more severe of two status codes.
pub fn max_severity(a: StatusCode, b: StatusCode) -> (r: StatusCode)
    ensures
        r == max_code(a, b),
{
    if a.rank() >= b.rank() {
        a
    } else {
        b
    }
}

/// Left fold of [`max_code`] over `sevs` from position `i` on, starting
/// from `acc`.
pub open spec fn worst_of_with(sevs: Seq<StatusCode>, i: int, acc: StatusCode) -> StatusCode
    decreases sevs.len() - i,
{
    if i < 0 || i >= sevs.len() {
        acc
    } else {
        worst_of_with(sevs, i + 1, max_code(acc, sevs[i]))
    }
}

/// The aggregate severity of a list of severities: the maximum severity
/// present, or `Pass` for an empty list.
pub open spec fn worst_of(sevs: Seq<StatusCode>) -> StatusCode {
    if sevs.len() == 0 {
        StatusCode::Pass
    } else {
        worst_of_with(sevs, 1, sevs[0])
    }
}

proof fn lemma_worst_of_with_max(sevs: Seq<StatusCode>, i: int, acc: StatusCode)
    requires
        0 <= i <= sevs.len(),
    ensures
        worst_of_with(sevs, i, acc).spec_rank() >= acc.spec_rank(),
        forall|k: int|
            i <= k < sevs.len() ==> worst_of_with(sevs, i, acc).spec_rank() >= (
            #[trigger] sevs[k]).spec_rank(),
        worst_of_with(sevs, i, acc) == acc || exists|k: int|
            i <= k < sevs.len() && worst_of_with(sevs, i, acc) == sevs[k],
    decreases sevs.len() - i,
{
    if i < sevs.len() {
        lemma_worst_of_with_max(sevs, i + 1, max_code(acc, sevs[i]));
    }
}

/// The aggregation law: the aggregate severity of an empty list is
/// `Pass`, and the aggregate severity of a non-empty list is the maximum
/// severity present in it.
pub proof fn lemma_worst_of_is_max(sevs: Seq<StatusCode>)
    ensures
        sevs.len() == 0 ==> worst_of(sevs) == StatusCode::Pass,
        sevs.len() > 0 ==> sevs.contains(worst_of(sevs)),
        forall|k: int|
            0 <= k < sevs.len() ==> worst_of(sevs).spec_rank() >= (#[trigger] sevs[k]).spec_rank(),
{
    if sevs.len() > 0 {
        lemma_worst_of_with_max(sevs, 1, sevs[0]);
        assert(sevs.contains(worst_of(sevs))) by {
            let w = worst_of(sevs);
            if w == sevs[0] {
                assert(0 <= 0 < sevs.len() && sevs[0] == w);
            } else {
                let k = choose|k: int|
                    1 <= k < sevs.len() && worst_of_with(sevs, 1, sevs[0]) == #[trigger] sevs[k];
                assert(sevs[k] == w);
            }
        }
    }
}

/// A severity override: when a subresult's code equals `code`, its
/// severity is replaced by `status` and `reason` is appended to its
/// message.
pub struct Override {
    pub code: String,
    pub status: StatusCode,
    pub reason: String,
}

/// The mathematical shape of an [`Override`].
pub ghost struct OverrideView {
    pub code: Seq<char>,
    pub status: StatusCode,
    pub reason: Seq<char>,
}

impl View for Override {
    type V = OverrideView;

    open spec fn view(&self) -> OverrideView {
        OverrideView { code: self.code@, status: self.status, reason: self.reason@ }
    }
}

impl DeepView for Override {
    type V = OverrideView;

    open spec fn deep_view(&self) -> OverrideView {
        self.view()
    }
}

impl Override {
    /// A new override mapping subresults coded `code` to severity
    /// `status`, for the given human-readable reason.
    pub fn new(code: &str, status: StatusCode, reason: &str) -> (r: Self)
        ensures
            r@ == (OverrideView { code: code@, status, reason: reason@ }),
    {
        Override { code: String::from_str(code), status, reason: String::from_str(reason) }
    }
}

impl Clone for Override {
    /// The copy denotes the same override.
    fn clone(&self) -> (r: Self)
        ensures
            r@ == self@,
    {
        Override { code: self.code.clone(), status: self.status, reason: self.reason.clone() }
    }
}

/// A status message from a check: one subresult.
///
/// A check may return several failures and warnings; all its subresults
/// are then wrapped into one [`crate::check::CheckResult`].
pub struct Status {
    /// A message explaining the status.
    pub message: Option<String>,
    /// The severity of the status.
    pub severity: StatusCode,
    /// A code identifying the status.
    pub code: Option<String>,
    /// Additional structured metadata passed through to reporters.
    pub metadata: Option<ConfigValue>,
}

/// The mathematical shape of a [`Status`].
pub ghost struct StatusView {
    pub message: Option<Seq<char>>,
    pub severity: StatusCode,
    pub code: Option<Seq<char>>,
    pub metadata: Option<ConfigView>,
}

impl View for Status {
    type V = StatusView;

    open spec fn view(&self) -> StatusView {
        StatusView {
            message: self.message.deep_view(),
            severity: self.severity,
            code: self.code.deep_view(),
            metadata: match self.metadata {
                Some(m) => Some(cv_view(m)),
                None => None,
            },
        }
    }
}

impl DeepView for Status {
    type V = StatusView;

    open spec fn deep_view(&self) -> StatusView {
        self.view()
    }
}

impl Clone for Status {
    /// The copy denotes the same subresult.
    fn clone(&self) -> (r: Self)
        ensures
            r@ == self@,
    {
        Status {
            message: self.message.clone(),
            severity: self.severity,
            code: self.code.clone(),
            metadata: self.metadata.clone(),
        }
    }
}

impl Status {
    /// A subresult with severity `Pass` and no message or code.
    pub fn pass() -> (r: Self)
        ensures
            r@ == (StatusView {
                message: None,
                severity: StatusCode::Pass,
                code: None,
                metadata: None,
            }),
    {
        Status { message: None, severity: StatusCode::Pass, code: None, metadata: None }
    }

    /// A subresult with severity `Fail`.
    pub fn fail(code: &str, message: &str) -> (r: Self)
        ensures
            r@ == (StatusView {
                message: Some(message@),
                severity: StatusCode::Fail,
                code: Some(code@),
                metadata: None,
            }),
    {
        Status {
            message: Some(String::from_str(message)),
            severity: StatusCode::Fail,
            code: Some(String::from_str(code)),
            metadata: None,
        }
    }

    /// A subresult with severity `Warn`.
    pub fn warn(code: &str, message: &str) -> (r: Self)
        ensures
            r@ == (StatusView {
                message: Some(message@),
                severity: StatusCode::Warn,
                code: Some(code@),
                metadata: None,
            }),
    {
        Status {
            message: Some(String::from_str(message)),
            severity: StatusCode::Warn,
            code: Some(String::from_str(code)),
            metadata: None,
        }
    }

    /// A subresult with severity `Skip`.
    pub fn skip(code: &str, message: &str) -> (r: Self)
        ensures
            r@ == (StatusView {
                message: Some(message@),
                severity: StatusCode::Skip,
                code: Some(code@),
                metadata: None,
            }),
    {
        Status {
            message: Some(String::from_str(message)),
            severity: StatusCode::Skip,
            code: Some(String::from_str(code)),
            metadata: None,
        }
    }

    /// A subresult with severity `Info`.
    pub fn info(code: &str, message: &str) -> (r: Self)
        ensures
            r@ == (StatusView {
                message: Some(message@),
                severity: StatusCode::Info,
                code: Some(code@),
                metadata: None,
            }),
    {
        Status {
            message: Some(String::from_str(message)),
            severity: StatusCode::Info,
            code: Some(String::from_str(code)),
            metadata: None,
        }
    }

    /// A subresult with severity `Error`; the code is optional.
    pub fn error(code: Option<&str>, message: &str) -> (r: Self)
        ensures
            r@ == (StatusView {
                message: Some(message@),
                severity: StatusCode::Error,
                code: code.deep_view(),
                metadata: None,
            }),
    {
        Status {
            message: Some(String::from_str(message)),
            severity: StatusCode::Error,
            code: match code {
                Some(c) => Some(String::from_str(c)),
                None => None,
            },
            metadata: None,
        }
    }
}

/// The first override in `ovs`, from position `i` on, whose code equals
/// `code`; `None` when the subresult carries no code at all.
pub open spec fn first_override_match_from(
    code: Option<Seq<char>>,
    ovs: Seq<Override>,
    i: int,
) -> Option<OverrideView>
    decreases ovs.len() - i,
{
    if i < 0 || i >= ovs.len() {
        None
    } else if code matches Some(c) && ovs[i]@.code == c {
        Some(ovs[i]@)
    } else {
        first_override_match_from(code, ovs, i + 1)
    }
}

/// The first override in `ovs` whose code matches the subresult code.
pub open spec fn first_override_match(code: Option<Seq<char>>, ovs: Seq<Override>) -> Option<
    OverrideView,
> {
    first_override_match_from(code, ovs, 0)
}

/// The message of a subresult after an override with the given reason has
/// been applied to it.
pub open spec fn overridden_message(old_message: Option<Seq<char>>, reason: Seq<char>) -> Seq<
    char,
> {
    (match old_message {
        Some(m) => m,
        None => "No original message"@,
    }) + " (Overridden: "@ + reason + ")"@
}

/// A subresult after an override list has been applied to it: the
/// first override whose code matches replaces the severity and appends
/// its reason to the message; without a match the subresult is
/// untouched.
pub open spec fn overridden_status_view(sv: StatusView, ovs: Seq<Override>) -> StatusView {
    match first_override_match(sv.code, ovs) {
        None => sv,
        Some(o) => StatusView {
            severity: o.status,
            message: Some(overridden_message(sv.message, o.reason)),
            ..sv
        },
    }
}

impl Status {
    /// Apply an override list to this subresult.
    ///
    /// Overrides come from the profile and from the user's configuration;
    /// they remap the severity of a subresult by its code. The list is
    /// scanned in order and the first entry whose code equals the
    /// subresult's code wins; without a match the subresult is left
    /// untouched. On a match the severity is replaced and the override's
    /// reason is appended to the message.
    pub fn process_override(&mut self, overrides: &[Override])
        ensures
            final(self).code == old(self).code,
            final(self).metadata == old(self).metadata,
            match first_override_match(old(self)@.code, overrides@) {
                None => *final(self) == *old(self),
                Some(o) => {
                    &&& final(self).severity == o.status
                    &&& final(self)@.message == Some(
                        overridden_message(old(self)@.message, o.reason),
                    )
                },
            },
            final(self)@ == overridden_status_view(old(self)@, overrides@),
    {
        let ghost code_view = self@.code;
        let mut i: usize = 0;
        let n = overrides.len();
        while i < n
            invariant
                n == overrides@.len(),
                i <= n,
                code_view == self@.code,
                first_override_match_from(code_view, overrides@, 0)
                    == first_override_match_from(code_view, overrides@, i as int),
                *self == *old(self),
            decreases n - i,
        {
            let matched = match &self.code {
                Some(c) => string_eq(c, &overrides[i].code),
                None => false,
            };
            if matched {
                let reason = overrides[i].reason.clone();
                let status = overrides[i].status;
                let mut message: String = match &self.message {
                    Some(m) => m.clone(),
                    None => String::from_str("No original message"),
                };
                message.append(" (Overridden: ");
                message.append(reason.as_str());
                message.append(")");
                proof {
                    assert(message@ =~= overridden_message(old(self)@.message, overrides@[
                        i as int]@.reason));
                }
                self.severity = status;
                self.message = Some(message);
                return ;
            }
            i += 1;
        }
    }
}

/// A copy of an override list, denoting the same overrides.
pub fn clone_overrides(v: &Vec<Override>) -> (out: Vec<Override>)
    ensures
        out.deep_view() == v.deep_view(),
{
    let out = v.clone();
    proof {
        assert(out.deep_view() =~= v.deep_view()) by {
            assert forall|k: int| 0 <= k < v@.len() implies out.deep_view()[k]
                == v.deep_view()[k] by {
                assert(cloned::<Override>(v[k], out[k]));
            }
        }
    }
    out
}

/// The result of an early return from a check implementation: either a
/// genuine error, or an intentional skip with a code and a message.
pub enum CheckError {
    /// An error occurred; the text describes it.
    Error(String),
    /// The check was skipped because some precondition was not met.
    Skip {
        /// Code identifying the skip reason.
        code: String,
        /// Message explaining the skip to the user.
        message: String,
    },
}

impl CheckError {
    /// An early return that skips the check with the given code and
    /// message, for example when a table the check needs is absent.
    pub fn skip(code: &str, message: &str) -> (r: Self)
        ensures
            r matches CheckError::Skip { code: c, message: m } && c@ == code@ && m@ == message@,
    {
        CheckError::Skip { code: String::from_str(code), message: String::from_str(message) }
    }
}

} // verus!
