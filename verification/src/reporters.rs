//! The collected results of a check run, and the reporting interface.
//!
//! Rendering reports is the surrounding application's business; this
//! module owns the result collection itself: aggregate severity,
//! per-severity summary, and the grouping reporters consume.

use vstd::prelude::*;
use vstd::string::StringExecFns;
use crate::check::{severities_of, CheckResult, CheckResultView};
use crate::status::{max_severity, worst_of, worst_of_with, StatusCode};
use crate::strutil::str_eq;

verus! {

/// The aggregate severities of each result, in order.
pub open spec fn outcome_worsts(rs: Seq<CheckResultView>) -> Seq<StatusCode> {
    Seq::new(rs.len(), |i: int| worst_of(severities_of(rs[i].subresults)))
}

/// How many subresults in `subs`, from `j` on, carry severity `sc`.
pub open spec fn count_in(subs: Seq<crate::status::StatusView>, sc: StatusCode, j: int) -> int
    decreases subs.len() - j,
{
    if j < 0 || j >= subs.len() {
        0
    } else if subs[j].severity == sc {
        1 + count_in(subs, sc, j + 1)
    } else {
        count_in(subs, sc, j + 1)
    }
}

/// How many subresults across the results from `i` on carry severity
/// `sc`.
pub open spec fn sev_count(rs: Seq<CheckResultView>, sc: StatusCode, i: int) -> int
    decreases rs.len() - i,
{
    if i < 0 || i >= rs.len() {
        0
    } else {
        count_in(rs[i].subresults, sc, 0) + sev_count(rs, sc, i + 1)
    }
}

/// The total number of subresults across the results from `i` on.
pub open spec fn total_subresults(rs: Seq<CheckResultView>, i: int) -> int
    decreases rs.len() - i,
{
    if i < 0 || i >= rs.len() {
        0
    } else {
        rs[i].subresults.len() + total_subresults(rs, i + 1)
    }
}

proof fn lemma_count_in_bounds(subs: Seq<crate::status::StatusView>, sc: StatusCode, j: int)
    requires
        0 <= j <= subs.len(),
    ensures
        0 <= count_in(subs, sc, j) <= subs.len() - j,
    decreases subs.len() - j,
{
    if j < subs.len() {
        lemma_count_in_bounds(subs, sc, j + 1);
    }
}

proof fn lemma_sev_count_bounds(rs: Seq<CheckResultView>, sc: StatusCode, i: int)
    requires
        0 <= i <= rs.len(),
    ensures
        0 <= sev_count(rs, sc, i) <= total_subresults(rs, i),
    decreases rs.len() - i,
{
    if i < rs.len() {
        lemma_sev_count_bounds(rs, sc, i + 1);
        lemma_count_in_bounds(rs[i].subresults, sc, 0);
    }
}

/// Append a `(severity, count)` pair when the count is positive.
pub open spec fn push_counted(s: Seq<(StatusCode, u64)>, sc: StatusCode, c: int) -> Seq<
    (StatusCode, u64),
> {
    if c > 0 {
        s.push((sc, c as u64))
    } else {
        s
    }
}

/// The per-severity summary of a result collection: for each severity
/// present among the subresults, in rank order, how often it occurs.
pub open spec fn summary_of(rs: Seq<CheckResultView>) -> Seq<(StatusCode, u64)> {
    push_counted(
        push_counted(
            push_counted(
                push_counted(
                    push_counted(
                        push_counted(
                            Seq::empty(),
                            StatusCode::Skip,
                            sev_count(rs, StatusCode::Skip, 0),
                        ),
                        StatusCode::Pass,
                        sev_count(rs, StatusCode::Pass, 0),
                    ),
                    StatusCode::Info,
                    sev_count(rs, StatusCode::Info, 0),
                ),
                StatusCode::Warn,
                sev_count(rs, StatusCode::Warn, 0),
            ),
            StatusCode::Fail,
            sev_count(rs, StatusCode::Fail, 0),
        ),
        StatusCode::Error,
        sev_count(rs, StatusCode::Error, 0),
    )
}

/// The file a result is grouped under for reporting: its backing file,
/// or `All fonts` for collection-level results.
pub open spec fn file_key(rv: CheckResultView) -> Seq<char> {
    match rv.filename {
        Some(f) => f,
        None => "All fonts"@,
    }
}

/// The section a result is grouped under for reporting.
pub open spec fn section_key(rv: CheckResultView) -> Seq<char> {
    match rv.section {
        Some(s) => s,
        None => "No section"@,
    }
}

/// The distinct file keys of the first `i` results, in first-occurrence
/// order.
pub open spec fn file_keys_upto(rs: Seq<CheckResultView>, i: int) -> Seq<Seq<char>>
    decreases i,
{
    if i <= 0 {
        Seq::empty()
    } else {
        let prev = file_keys_upto(rs, i - 1);
        if prev.contains(file_key(rs[i - 1])) {
            prev
        } else {
            prev.push(file_key(rs[i - 1]))
        }
    }
}

/// The results (from `i` on) grouped under the given file key, in
/// order.
pub open spec fn with_file_key_from(rs: Seq<CheckResultView>, key: Seq<char>, i: int) -> Seq<
    CheckResultView,
>
    decreases rs.len() - i,
{
    if i < 0 || i >= rs.len() {
        Seq::empty()
    } else if file_key(rs[i]) == key {
        seq![rs[i]] + with_file_key_from(rs, key, i + 1)
    } else {
        with_file_key_from(rs, key, i + 1)
    }
}

/// The distinct section keys of the first `i` results, in
/// first-occurrence order.
pub open spec fn section_keys_upto(rs: Seq<CheckResultView>, i: int) -> Seq<Seq<char>>
    decreases i,
{
    if i <= 0 {
        Seq::empty()
    } else {
        let prev = section_keys_upto(rs, i - 1);
        if prev.contains(section_key(rs[i - 1])) {
            prev
        } else {
            prev.push(section_key(rs[i - 1]))
        }
    }
}

/// The results (from `i` on) grouped under the given section key, in
/// order.
pub open spec fn with_section_key_from(rs: Seq<CheckResultView>, key: Seq<char>, i: int) -> Seq<
    CheckResultView,
>
    decreases rs.len() - i,
{
    if i < 0 || i >= rs.len() {
        Seq::empty()
    } else if section_key(rs[i]) == key {
        seq![rs[i]] + with_section_key_from(rs, key, i + 1)
    } else {
        with_section_key_from(rs, key, i + 1)
    }
}

/// Results grouped by file and then by section, for reporting.
pub type OrganisedResults = Vec<(String, Vec<(String, Vec<CheckResult>)>)>;

/// The results of all checks in a run.
pub struct RunResults {
    results: Vec<CheckResult>,
}

impl View for RunResults {
    type V = Seq<CheckResultView>;

    closed spec fn view(&self) -> Seq<CheckResultView> {
        self.results.deep_view()
    }
}

impl RunResults {
    /// Wrap collected results, in order.
    pub fn new(results: Vec<CheckResult>) -> (r: RunResults)
        ensures
            r@ == results.deep_view(),
    {
        RunResults { results }
    }
}

impl From<Vec<CheckResult>> for RunResults {
    /// Wrap collected results, in order.
    fn from(results: Vec<CheckResult>) -> (r: RunResults) {
        RunResults { results }
    }
}

impl vstd::std_specs::convert::FromSpecImpl<Vec<CheckResult>> for RunResults {
    closed spec fn obeys_from_spec() -> bool {
        true
    }

    closed spec fn from_spec(results: Vec<CheckResult>) -> RunResults {
        RunResults { results }
    }
}

/// The file key of one result, as [`file_key`] describes it.
fn file_key_of(cr: &CheckResult) -> (r: String)
    ensures
        r@ == file_key(cr@),
{
    match &cr.filename {
        Some(f) => f.clone(),
        None => String::from_str("All fonts"),
    }
}

/// The section key of one result, as [`section_key`] describes it.
fn section_key_of(cr: &CheckResult) -> (r: String)
    ensures
        r@ == section_key(cr@),
{
    match &cr.section {
        Some(s) => s.clone(),
        None => String::from_str("No section"),
    }
}

impl RunResults {
    /// The collected results, in execution-report order.
    pub fn iter(&self) -> (r: &Vec<CheckResult>)
        ensures
            r.deep_view() == self@,
    {
        &self.results
    }

    /// The collected results, for in-place amendment (the remediation
    /// pass records its outcomes this way).
    pub fn iter_mut(&mut self) -> (r: &mut Vec<CheckResult>)
        ensures
            r.deep_view() == old(self)@,
            final(self)@ == final(r).deep_view(),
    {
        &mut self.results
    }

    /// The number of collected results.
    pub fn len(&self) -> (r: usize)
        ensures
            r == self@.len(),
    {
        self.results.len()
    }

    /// The run's overall outcome: the most severe aggregate severity of
    /// any result, or `Pass` when there are no results. Callers compare
    /// this against their error threshold to decide the exit status.
    pub fn worst_status(&self) -> (r: StatusCode)
        ensures
            r == worst_of(outcome_worsts(self@)),
    {
        if self.results.len() == 0 {
            return StatusCode::Pass;
        }
        let ghost ws = outcome_worsts(self@);
        let mut acc = self.results[0].worst_status();
        let mut i: usize = 1;
        while i < self.results.len()
            invariant
                1 <= i <= self.results@.len(),
                ws == outcome_worsts(self@),
                ws.len() == self.results@.len(),
                forall|k: int|
                    0 <= k < ws.len() ==> ws[k] == worst_of(
                        severities_of(self@[k].subresults),
                    ),
                worst_of(ws) == worst_of_with(ws, i as int, acc),
            decreases self.results@.len() - i,
        {
            let w = self.results[i].worst_status();
            acc = max_severity(acc, w);
            i += 1;
        }
        acc
    }

    /// A summary of the results: how often each severity occurs among
    /// all subresults, in rank order, omitting severities that do not
    /// occur.
    pub fn summary(&self) -> (r: Vec<(StatusCode, u64)>)
        requires
            total_subresults(self@, 0) <= u64::MAX,
        ensures
            r@ == summary_of(self@),
    {
        let mut out: Vec<(StatusCode, u64)> = Vec::new();
        let ghost ranked = seq![
            StatusCode::Skip,
            StatusCode::Pass,
            StatusCode::Info,
            StatusCode::Warn,
            StatusCode::Fail,
            StatusCode::Error,
        ];
        let ordered = [
            StatusCode::Skip,
            StatusCode::Pass,
            StatusCode::Info,
            StatusCode::Warn,
            StatusCode::Fail,
            StatusCode::Error,
        ];
        let mut k: usize = 0;
        while k < 6
            invariant
                k <= 6,
                total_subresults(self@, 0) <= u64::MAX,
                ordered@ =~= ranked,
                out@ == spec_summary_prefix(self@, ranked, k as int),
            decreases 6 - k,
        {
            let sc = ordered[k];
            let c = self.count_severity(sc);
            if c > 0 {
                out.push((sc, c));
            }
            proof {
                assert(out@ =~= spec_summary_prefix(self@, ranked, k as int + 1));
            }
            k += 1;
        }
        proof {
            reveal_with_fuel(spec_summary_prefix, 7);
            assert(summary_of(self@) =~= spec_summary_prefix(self@, ranked, 6));
        }
        out
    }

    /// How often `sc` occurs among all subresults.
    fn count_severity(&self, sc: StatusCode) -> (r: u64)
        requires
            total_subresults(self@, 0) <= u64::MAX,
        ensures
            r == sev_count(self@, sc, 0),
    {
        proof {
            lemma_sev_count_bounds(self@, sc, 0);
        }
        let mut acc: u64 = 0;
        let mut i: usize = 0;
        while i < self.results.len()
            invariant
                i <= self.results@.len(),
                total_subresults(self@, 0) <= u64::MAX,
                sev_count(self@, sc, 0) == acc + sev_count(self@, sc, i as int),
                acc <= sev_count(self@, sc, 0),
            decreases self.results@.len() - i,
        {
            proof {
                lemma_sev_count_bounds(self@, sc, i as int + 1);
                lemma_count_in_bounds(self@[i as int].subresults, sc, 0);
                lemma_sev_count_bounds(self@, sc, 0);
            }
            let subs = &self.results[i].subresults;
            let mut c2: usize = 0;
            let mut j: usize = 0;
            while j < subs.len()
                invariant
                    j <= subs@.len(),
                    c2 <= j,
                    subs.deep_view() == self@[i as int].subresults,
                    count_in(self@[i as int].subresults, sc, 0) == c2 + count_in(
                        self@[i as int].subresults,
                        sc,
                        j as int,
                    ),
                decreases subs@.len() - j,
            {
                proof {
                    lemma_count_in_bounds(self@[i as int].subresults, sc, j as int + 1);
                }
                let matches_sc = match (subs[j].severity, sc) {
                    (StatusCode::Skip, StatusCode::Skip) => true,
                    (StatusCode::Pass, StatusCode::Pass) => true,
                    (StatusCode::Info, StatusCode::Info) => true,
                    (StatusCode::Warn, StatusCode::Warn) => true,
                    (StatusCode::Fail, StatusCode::Fail) => true,
                    (StatusCode::Error, StatusCode::Error) => true,
                    _ => false,
                };
                if matches_sc {
                    c2 += 1;
                }
                j += 1;
            }
            acc = acc + (c2 as u64);
            i += 1;
        }
        acc
    }

    /// Organize the results by file and then by section: one entry per
    /// distinct file key in first-occurrence order, within it one entry
    /// per distinct section key in first-occurrence order, each listing
    /// its results in run order.
    pub fn organize(&self) -> (r: OrganisedResults)
        ensures
            r.deep_view().len() == file_keys_upto(self@, self@.len() as int).len(),
            forall|g: int|
                0 <= g < r.deep_view().len() ==> (#[trigger] r.deep_view()[g]).0 == file_keys_upto(
                    self@,
                    self@.len() as int,
                )[g] && sections_match(
                    r.deep_view()[g].1,
                    with_file_key_from(self@, r.deep_view()[g].0, 0),
                ),
    {
        let ghost rs = self@;
        let mut fkeys: Vec<String> = Vec::new();
        let mut i: usize = 0;
        while i < self.results.len()
            invariant
                i <= self.results@.len(),
                rs == self@,
                fkeys.deep_view() == file_keys_upto(rs, i as int),
            decreases self.results@.len() - i,
        {
            let key = file_key_of(&self.results[i]);
            if !crate::strutil::vec_contains_str(&fkeys, key.as_str()) {
                let ghost pre = fkeys.deep_view();
                fkeys.push(key);
                proof {
                    assert(fkeys.deep_view() =~= pre.push(file_key(rs[i as int])));
                }
            }
            i += 1;
        }
        let mut out: OrganisedResults = Vec::new();
        let mut g: usize = 0;
        while g < fkeys.len()
            invariant
                g <= fkeys@.len(),
                rs == self@,
                fkeys.deep_view() == file_keys_upto(rs, rs.len() as int),
                out.deep_view().len() == g,
                forall|k: int|
                    0 <= k < g ==> (#[trigger] out.deep_view()[k]).0 == fkeys.deep_view()[k]
                        && sections_match(
                        out.deep_view()[k].1,
                        with_file_key_from(rs, fkeys.deep_view()[k], 0),
                    ),
            decreases fkeys@.len() - g,
        {
            let fkey = &fkeys[g];
            let sub = self.results_with_file_key(fkey.as_str());
            let sections = organize_sections(&sub);
            let ghost pre_out = out.deep_view();
            out.push((fkey.clone(), sections));
            proof {
                assert(out.deep_view().len() == pre_out.len() + 1);
                assert forall|k: int| 0 <= k < out.deep_view().len() implies (
                #[trigger] out.deep_view()[k]).0 == fkeys.deep_view()[k] && sections_match(
                    out.deep_view()[k].1,
                    with_file_key_from(rs, fkeys.deep_view()[k], 0),
                ) by {
                    if k < pre_out.len() {
                        assert(out.deep_view()[k] == pre_out[k]);
                    } else {
                        assert(out.deep_view()[k].0 == fkey@);
                    }
                }
            }
            g += 1;
        }
        out
    }

    /// The results grouped under one file key, in run order.
    fn results_with_file_key(&self, key: &str) -> (r: Vec<CheckResult>)
        ensures
            r.deep_view() == with_file_key_from(self@, key@, 0),
    {
        let ghost rs = self@;
        let mut out: Vec<CheckResult> = Vec::new();
        let mut i: usize = 0;
        while i < self.results.len()
            invariant
                i <= self.results@.len(),
                rs == self@,
                with_file_key_from(rs, key@, 0) == out.deep_view() + with_file_key_from(
                    rs,
                    key@,
                    i as int,
                ),
            decreases self.results@.len() - i,
        {
            let fk = file_key_of(&self.results[i]);
            let ghost pre = out.deep_view();
            if str_eq(fk.as_str(), key) {
                out.push(self.results[i].clone());
                proof {
                    assert(out.deep_view() =~= pre.push(rs[i as int]));
                    assert(pre + (seq![rs[i as int]] + with_file_key_from(rs, key@, i as int + 1))
                        =~= out.deep_view() + with_file_key_from(rs, key@, i as int + 1));
                }
            }
            i += 1;
        }
        proof {
            assert(out.deep_view() + with_file_key_from(rs, key@, rs.len() as int)
                =~= out.deep_view());
        }
        out
    }
}

/// The summary entries for the first `k` severities of the rank order.
pub open spec fn spec_summary_prefix(
    rs: Seq<CheckResultView>,
    ranked: Seq<StatusCode>,
    k: int,
) -> Seq<(StatusCode, u64)>
    decreases k,
{
    if k <= 0 {
        Seq::empty()
    } else {
        push_counted(spec_summary_prefix(rs, ranked, k - 1), ranked[k - 1], sev_count(rs, ranked[k
            - 1], 0))
    }
}

/// Whether `sections` is exactly `sub` grouped by section key.
pub open spec fn sections_match(
    sections: Seq<(Seq<char>, Seq<CheckResultView>)>,
    sub: Seq<CheckResultView>,
) -> bool {
    &&& sections.len() == section_keys_upto(sub, sub.len() as int).len()
    &&& forall|h: int|
        0 <= h < sections.len() ==> (#[trigger] sections[h]).0 == section_keys_upto(
            sub,
            sub.len() as int,
        )[h] && sections[h].1 == with_section_key_from(sub, sections[h].0, 0)
}

/// Group one file's results by section key.
fn organize_sections(sub: &Vec<CheckResult>) -> (r: Vec<(String, Vec<CheckResult>)>)
    ensures
        sections_match(r.deep_view(), sub.deep_view()),
{
    let ghost rs = sub.deep_view();
    let mut skeys: Vec<String> = Vec::new();
    let mut i: usize = 0;
    while i < sub.len()
        invariant
            i <= sub@.len(),
            rs == sub.deep_view(),
            skeys.deep_view() == section_keys_upto(rs, i as int),
        decreases sub@.len() - i,
    {
        let key = section_key_of(&sub[i]);
        if !crate::strutil::vec_contains_str(&skeys, key.as_str()) {
            let ghost pre = skeys.deep_view();
            skeys.push(key);
            proof {
                assert(skeys.deep_view() =~= pre.push(section_key(rs[i as int])));
            }
        }
        i += 1;
    }
    let mut out: Vec<(String, Vec<CheckResult>)> = Vec::new();
    let mut h: usize = 0;
    while h < skeys.len()
        invariant
            h <= skeys@.len(),
            rs == sub.deep_view(),
            skeys.deep_view() == section_keys_upto(rs, rs.len() as int),
            out.deep_view().len() == h,
            forall|k: int|
                0 <= k < h ==> (#[trigger] out.deep_view()[k]).0 == skeys.deep_view()[k]
                    && out.deep_view()[k].1 == with_section_key_from(rs, skeys.deep_view()[k], 0),
        decreases skeys@.len() - h,
    {
        let skey = &skeys[h];
        let mut files: Vec<CheckResult> = Vec::new();
        let mut i2: usize = 0;
        while i2 < sub.len()
            invariant
                i2 <= sub@.len(),
                rs == sub.deep_view(),
                with_section_key_from(rs, skey@, 0) == files.deep_view() + with_section_key_from(
                    rs,
                    skey@,
                    i2 as int,
                ),
            decreases sub@.len() - i2,
        {
            let sk = section_key_of(&sub[i2]);
            let ghost pre = files.deep_view();
            if str_eq(sk.as_str(), skey.as_str()) {
                files.push(sub[i2].clone());
                proof {
                    assert(files.deep_view() =~= pre.push(rs[i2 as int]));
                    assert(pre + (seq![rs[i2 as int]] + with_section_key_from(
                        rs,
                        skey@,
                        i2 as int + 1,
                    )) =~= files.deep_view() + with_section_key_from(rs, skey@, i2 as int + 1));
                }
            }
            i2 += 1;
        }
        proof {
            assert(files.deep_view() + with_section_key_from(rs, skey@, rs.len() as int)
                =~= files.deep_view());
        }
        let ghost pre_out = out.deep_view();
        out.push((skey.clone(), files));
        proof {
            assert(out.deep_view() =~= pre_out.push((
                skey@,
                with_section_key_from(rs, skey@, 0),
            )));
        }
        h += 1;
    }
    out
}

/// A renderer of run results. Implementations live with the
/// application: rendering and writing reports is input/output.
pub trait Reporter {
    /// Render the collected results.
    fn report(&self, results: &RunResults);
}

/// The comma-separated-values report target: remembers where the
/// report goes; the application writes it.
pub struct CsvReporter {
    pub filename: String,
}

impl CsvReporter {
    /// A reporter writing to the given file.
    pub fn new(filename: &str) -> (r: Self)
        ensures
            r.filename@ == filename@,
    {
        CsvReporter { filename: String::from_str(filename) }
    }
}

} // verus!
