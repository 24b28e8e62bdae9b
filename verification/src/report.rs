//! Run reports: what a command did to each dataset, and what failed.

use vstd::prelude::*;
use vstd::string::*;
use crate::order::{stable_order, SortKey};
use crate::order;
use crate::paths::{path_key, PathKey};
use crate::paths;
use crate::text::{
    chars_of, parse_i64, push_decimal, push_signed, rfind_char, str_before, str_eq,
    string_of, strip_suffix,
};
use crate::text;

verus! {

/// How the items of one dataset fared.
#[derive(Debug)]
pub struct DatasetReportSummary {
    pub dataset: String,
    pub items_scanned: u64,
    pub succeeded: u64,
    pub failed: u64,
    pub skipped: u64,
}

impl Clone for DatasetReportSummary {
    fn clone(&self) -> (r: Self)
        ensures
            r == *self,
    {
        DatasetReportSummary {
            dataset: self.dataset.clone(),
            items_scanned: self.items_scanned,
            succeeded: self.succeeded,
            failed: self.failed,
            skipped: self.skipped,
        }
    }
}

impl DatasetReportSummary {
    /// A dataset of which nothing has been counted yet.
    pub fn new(dataset: &str) -> (r: Self)
        ensures
            r.dataset@ == dataset@,
            r.items_scanned == 0,
            r.succeeded == 0,
            r.failed == 0,
            r.skipped == 0,
    {
        DatasetReportSummary {
            dataset: dataset.to_owned(),
            items_scanned: 0,
            succeeded: 0,
            failed: 0,
            skipped: 0,
        }
    }
}

/// One thing that went wrong.
#[derive(Debug)]
pub struct FailureEntry {
    pub dataset: String,
    pub phase: String,
    pub rel_path: Option<String>,
    pub source_path: Option<String>,
    pub output_path: Option<String>,
    pub error_message: String,
    pub suggested_recovery: Option<String>,
}

/// What a `FailureEntry` says.
#[verifier::ext_equal]
pub struct FailureView {
    pub dataset: Seq<char>,
    pub phase: Seq<char>,
    pub rel_path: Option<Seq<char>>,
    pub source_path: Option<Seq<char>>,
    pub output_path: Option<Seq<char>>,
    pub error_message: Seq<char>,
    pub suggested_recovery: Option<Seq<char>>,
}

pub open spec fn opt(o: Option<String>) -> Option<Seq<char>> {
    match o {
        Some(s) => Some(s@),
        None => None,
    }
}

impl View for FailureEntry {
    type V = FailureView;

    open spec fn view(&self) -> FailureView {
        FailureView {
            dataset: self.dataset@,
            phase: self.phase@,
            rel_path: opt(self.rel_path),
            source_path: opt(self.source_path),
            output_path: opt(self.output_path),
            error_message: self.error_message@,
            suggested_recovery: opt(self.suggested_recovery),
        }
    }
}

pub open spec fn failure_views(v: Seq<FailureEntry>) -> Seq<FailureView> {
    Seq::new(v.len(), |i: int| v[i]@)
}

/// Pushing a failure pushes what it says.
pub broadcast proof fn lemma_failure_views_push(v: Seq<FailureEntry>, f: FailureEntry)
    ensures
        #[trigger] failure_views(v.push(f)) == failure_views(v).push(f@),
{
    assert(failure_views(v.push(f)) =~= failure_views(v).push(f@));
}

/// A copy of an optional string.
pub fn copy_option(o: &Option<String>) -> (r: Option<String>)
    ensures
        r == *o,
{
    match o {
        Some(s) => Some(s.clone()),
        None => None,
    }
}

/// An optional string of its own from an optional text.
pub fn own_option(o: Option<&str>) -> (r: Option<String>)
    ensures
        match o {
            Some(s) => opt(r) == Some(s@),
            None => r is None,
        },
{
    match o {
        Some(s) => Some(s.to_owned()),
        None => None,
    }
}

pub open spec fn opt_text(o: Option<&str>) -> Option<Seq<char>> {
    match o {
        Some(s) => Some(s@),
        None => None,
    }
}

/// A failure with all that is known of it.
pub fn failure(
    dataset: &str,
    phase: &str,
    rel_path: Option<&str>,
    source_path: Option<&str>,
    output_path: Option<&str>,
    error_message: String,
    suggested_recovery: Option<String>,
) -> (r: FailureEntry)
    ensures
        r@ == (FailureView {
            dataset: dataset@,
            phase: phase@,
            rel_path: opt_text(rel_path),
            source_path: opt_text(source_path),
            output_path: opt_text(output_path),
            error_message: error_message@,
            suggested_recovery: opt(suggested_recovery),
        }),
{
    FailureEntry {
        dataset: dataset.to_owned(),
        phase: phase.to_owned(),
        rel_path: own_option(rel_path),
        source_path: own_option(source_path),
        output_path: own_option(output_path),
        error_message,
        suggested_recovery,
    }
}

impl Clone for FailureEntry {
    fn clone(&self) -> (r: Self)
        ensures
            r == *self,
    {
        FailureEntry {
            dataset: self.dataset.clone(),
            phase: self.phase.clone(),
            rel_path: copy_option(&self.rel_path),
            source_path: copy_option(&self.source_path),
            output_path: copy_option(&self.output_path),
            error_message: self.error_message.clone(),
            suggested_recovery: copy_option(&self.suggested_recovery),
        }
    }
}

/// How one step of a pipeline went.
#[derive(Debug)]
pub struct StepRunSummary {
    pub step: String,
    pub status: String,
    pub report_path: Option<String>,
    pub message: Option<String>,
}

/// What a `StepRunSummary` says.
#[verifier::ext_equal]
pub struct StepView {
    pub step: Seq<char>,
    pub status: Seq<char>,
    pub report_path: Option<Seq<char>>,
    pub message: Option<Seq<char>>,
}

impl View for StepRunSummary {
    type V = StepView;

    open spec fn view(&self) -> StepView {
        StepView {
            step: self.step@,
            status: self.status@,
            report_path: opt(self.report_path),
            message: opt(self.message),
        }
    }
}

impl Clone for StepRunSummary {
    fn clone(&self) -> (r: Self)
        ensures
            r == *self,
    {
        StepRunSummary {
            step: self.step.clone(),
            status: self.status.clone(),
            report_path: copy_option(&self.report_path),
            message: copy_option(&self.message),
        }
    }
}

/// A setting that a command ran with.
#[derive(Debug)]
pub struct ReportArg {
    pub name: String,
    pub value: String,
}

impl Clone for ReportArg {
    fn clone(&self) -> (r: Self)
        ensures
            r == *self,
    {
        ReportArg { name: self.name.clone(), value: self.value.clone() }
    }
}

/// A setting with its value.
pub fn report_arg(name: &str, value: &str) -> (r: ReportArg)
    ensures
        r.name@ == name@,
        r.value@ == value@,
{
    ReportArg { name: name.to_owned(), value: value.to_owned() }
}

/// The record of one run of a command.
#[derive(Debug)]
pub struct RunReport {
    pub command: String,
    pub cli_version: String,
    pub report_nonce: u128,
    pub started_at_unix: i64,
    pub finished_at_unix: Option<i64>,
    /// How long the run took, in whole seconds.
    pub duration_seconds: Option<i64>,
    pub args: Vec<ReportArg>,
    pub totals_items_scanned: u64,
    pub totals_succeeded: u64,
    pub totals_failed: u64,
    pub totals_skipped: u64,
    pub datasets: Vec<DatasetReportSummary>,
    pub failures: Vec<FailureEntry>,
    pub step_runs: Vec<StepRunSummary>,
}

/// A report of a run that has just started.
pub fn report_new(
    command: &str,
    cli_version: &str,
    report_nonce: u128,
    started_at_unix: i64,
    args: Vec<ReportArg>,
) -> (r: RunReport)
    ensures
        r.command@ == command@,
        r.cli_version@ == cli_version@,
        r.report_nonce == report_nonce,
        r.started_at_unix == started_at_unix,
        r.finished_at_unix is None,
        r.duration_seconds is None,
        r.args == args,
        r.totals_items_scanned == 0,
        r.totals_succeeded == 0,
        r.totals_failed == 0,
        r.totals_skipped == 0,
        r.datasets@.len() == 0,
        r.failures@.len() == 0,
        r.step_runs@.len() == 0,
{
    RunReport {
        command: command.to_owned(),
        cli_version: cli_version.to_owned(),
        report_nonce,
        started_at_unix,
        finished_at_unix: None,
        duration_seconds: None,
        args,
        totals_items_scanned: 0,
        totals_succeeded: 0,
        totals_failed: 0,
        totals_skipped: 0,
        datasets: Vec::new(),
        failures: Vec::new(),
        step_runs: Vec::new(),
    }
}

/// The sums of the four counts over all datasets: scanned, succeeded, failed and
/// skipped.
pub open spec fn totals(d: Seq<DatasetReportSummary>) -> (int, int, int, int)
    decreases d.len(),
{
    if d.len() == 0 {
        (0, 0, 0, 0)
    } else {
        let t = totals(d.drop_last());
        (
            t.0 + d.last().items_scanned,
            t.1 + d.last().succeeded,
            t.2 + d.last().failed,
            t.3 + d.last().skipped,
        )
    }
}

/// Whether each of the sums of counts can be held.
pub open spec fn totals_fit(d: Seq<DatasetReportSummary>) -> bool {
    let t = totals(d);
    t.0 <= u64::MAX && t.1 <= u64::MAX && t.2 <= u64::MAX && t.3 <= u64::MAX
}

proof fn lemma_totals_mono(d: Seq<DatasetReportSummary>, i: int)
    requires
        0 <= i <= d.len(),
    ensures
        0 <= totals(d.take(i)).0 <= totals(d).0,
        0 <= totals(d.take(i)).1 <= totals(d).1,
        0 <= totals(d.take(i)).2 <= totals(d).2,
        0 <= totals(d.take(i)).3 <= totals(d).3,
    decreases d.len(), i,
{
    if i == d.len() {
        assert(d.take(i) =~= d);
        if i > 0 {
            lemma_totals_mono(d.drop_last(), i - 1);
        }
    } else {
        lemma_totals_mono(d.drop_last(), i);
        assert(d.drop_last().take(i) =~= d.take(i));
    }
}

/// Opens a report again that was closed to be written, with what it has counted.
pub fn report_reopen(report: &mut RunReport)
    ensures
        *final(report) == (RunReport {
            finished_at_unix: None,
            duration_seconds: None,
            ..*old(report)
        }),
{
    report.finished_at_unix = None;
    report.duration_seconds = None;
}

/// Whether a report is written after `done` items: after every `flush_every` of them, which
/// are one at least.
pub fn flush_due(done: usize, flush_every: usize) -> (r: bool)
    ensures
        r == (done > 0 && done as int % (if flush_every >= 1 {
            flush_every as int
        } else {
            1
        }) == 0),
{
    let every: usize = if flush_every >= 1 {
        flush_every
    } else {
        1
    };
    done > 0 && done % every == 0
}

/// Closes a report: stamps it with the time and sums up its datasets.
pub fn report_finalize(report: &mut RunReport, finished: i64)
    requires
        i64::MIN <= finished - old(report).started_at_unix <= i64::MAX,
        totals_fit(old(report).datasets@),
    ensures
        final(report).finished_at_unix == Some(finished),
        final(report).duration_seconds == Some((finished - old(report).started_at_unix) as i64),
        (
            final(report).totals_items_scanned as int,
            final(report).totals_succeeded as int,
            final(report).totals_failed as int,
            final(report).totals_skipped as int,
        ) == totals(old(report).datasets@),
        final(report).command == old(report).command,
        final(report).cli_version == old(report).cli_version,
        final(report).report_nonce == old(report).report_nonce,
        final(report).started_at_unix == old(report).started_at_unix,
        final(report).args == old(report).args,
        final(report).datasets == old(report).datasets,
        final(report).failures == old(report).failures,
        final(report).step_runs == old(report).step_runs,
{
    let mut scanned: u64 = 0;
    let mut succeeded: u64 = 0;
    let mut failed: u64 = 0;
    let mut skipped: u64 = 0;
    let mut i: usize = 0;
    let ghost d = report.datasets@;
    assert(d.take(0) =~= Seq::<DatasetReportSummary>::empty());
    while i < report.datasets.len()
        invariant
            i <= d.len(),
            d == report.datasets@,
            totals_fit(d),
            (scanned as int, succeeded as int, failed as int, skipped as int) == totals(
                d.take(i as int),
            ),
        decreases d.len() - i,
    {
        proof {
            lemma_totals_mono(d, i + 1);
            assert(d.take(i + 1).drop_last() =~= d.take(i as int));
        }
        scanned += report.datasets[i].items_scanned;
        succeeded += report.datasets[i].succeeded;
        failed += report.datasets[i].failed;
        skipped += report.datasets[i].skipped;
        i += 1;
    }
    assert(d.take(d.len() as int) =~= d);
    report.finished_at_unix = Some(finished);
    report.duration_seconds = Some(finished - report.started_at_unix);
    report.totals_items_scanned = scanned;
    report.totals_succeeded = succeeded;
    report.totals_failed = failed;
    report.totals_skipped = skipped;
}

/// The summaries of the datasets other than `name`.
pub open spec fn others(d: Seq<DatasetReportSummary>, name: Seq<char>) -> Seq<DatasetReportSummary>
    decreases d.len(),
{
    if d.len() == 0 {
        d
    } else if d.last().dataset@ == name {
        others(d.drop_last(), name)
    } else {
        others(d.drop_last(), name).push(d.last())
    }
}

/// The summaries of a report while the dataset of `ds` is still being worked on:
/// what it says of the others, then `ds`.
pub fn preview_datasets(
    datasets: &Vec<DatasetReportSummary>,
    ds: &DatasetReportSummary,
) -> (r: Vec<DatasetReportSummary>)
    ensures
        r@ == others(datasets@, ds.dataset@).push(*ds),
{
    let mut out: Vec<DatasetReportSummary> = Vec::new();
    let mut i: usize = 0;
    assert(datasets@.take(0) =~= Seq::<DatasetReportSummary>::empty());
    while i < datasets.len()
        invariant
            i <= datasets@.len(),
            out@ == others(datasets@.take(i as int), ds.dataset@),
        decreases datasets@.len() - i,
    {
        assert(datasets@.take(i + 1).drop_last() =~= datasets@.take(i as int));
        if !str_eq(datasets[i].dataset.as_str(), ds.dataset.as_str()) {
            out.push(datasets[i].clone());
        }
        i += 1;
    }
    assert(datasets@.take(datasets@.len() as int) =~= datasets@);
    out.push(ds.clone());
    out
}

/// A copy of a list of failures.
pub fn copy_failures(v: &Vec<FailureEntry>) -> (r: Vec<FailureEntry>)
    ensures
        r@ == v@,
{
    let mut out: Vec<FailureEntry> = Vec::new();
    let mut i: usize = 0;
    while i < v.len()
        invariant
            i <= v@.len(),
            out@ == v@.take(i as int),
        decreases v@.len() - i,
    {
        out.push(v[i].clone());
        i += 1;
        assert(v@.take(i as int) =~= v@.take(i - 1).push(v@[i - 1]));
    }
    assert(v@.take(v@.len() as int) =~= v@);
    out
}

fn copy_args(v: &Vec<ReportArg>) -> (r: Vec<ReportArg>)
    ensures
        r@ == v@,
{
    let mut out: Vec<ReportArg> = Vec::new();
    let mut i: usize = 0;
    while i < v.len()
        invariant
            i <= v@.len(),
            out@ == v@.take(i as int),
        decreases v@.len() - i,
    {
        out.push(v[i].clone());
        i += 1;
        assert(v@.take(i as int) =~= v@.take(i - 1).push(v@[i - 1]));
    }
    assert(v@.take(v@.len() as int) =~= v@);
    out
}

fn copy_steps(v: &Vec<StepRunSummary>) -> (r: Vec<StepRunSummary>)
    ensures
        r@ == v@,
{
    let mut out: Vec<StepRunSummary> = Vec::new();
    let mut i: usize = 0;
    while i < v.len()
        invariant
            i <= v@.len(),
            out@ == v@.take(i as int),
        decreases v@.len() - i,
    {
        out.push(v[i].clone());
        i += 1;
        assert(v@.take(i as int) =~= v@.take(i - 1).push(v@[i - 1]));
    }
    assert(v@.take(v@.len() as int) =~= v@);
    out
}

/// The report as it is written while the dataset of `ds` is being worked on.
pub fn preview_report(
    report: &RunReport,
    ds: &DatasetReportSummary,
    finished: i64,
) -> (r: RunReport)
    requires
        i64::MIN <= finished - report.started_at_unix <= i64::MAX,
        totals_fit(others(report.datasets@, ds.dataset@).push(*ds)),
    ensures
        r.command == report.command,
        r.cli_version == report.cli_version,
        r.report_nonce == report.report_nonce,
        r.started_at_unix == report.started_at_unix,
        r.args@ == report.args@,
        r.failures@ == report.failures@,
        r.step_runs@ == report.step_runs@,
        r.datasets@ == others(report.datasets@, ds.dataset@).push(*ds),
        r.finished_at_unix == Some(finished),
        r.duration_seconds == Some((finished - report.started_at_unix) as i64),
        (
            r.totals_items_scanned as int,
            r.totals_succeeded as int,
            r.totals_failed as int,
            r.totals_skipped as int,
        ) == totals(r.datasets@),
{
    let mut out = RunReport {
        command: report.command.clone(),
        cli_version: report.cli_version.clone(),
        report_nonce: report.report_nonce,
        started_at_unix: report.started_at_unix,
        finished_at_unix: report.finished_at_unix,
        duration_seconds: report.duration_seconds,
        args: copy_args(&report.args),
        totals_items_scanned: report.totals_items_scanned,
        totals_succeeded: report.totals_succeeded,
        totals_failed: report.totals_failed,
        totals_skipped: report.totals_skipped,
        datasets: preview_datasets(&report.datasets, ds),
        failures: copy_failures(&report.failures),
        step_runs: copy_steps(&report.step_runs),
    };
    report_finalize(&mut out, finished);
    out
}

/// `a - b`, or zero where `b` is larger.
pub open spec fn minus(a: u64, b: u64) -> u64 {
    if a >= b {
        (a - b) as u64
    } else {
        0
    }
}

/// Adds failures to a report and to the count of their dataset, and counts the
/// rest of what was scanned as done.
pub fn count_failures(
    report: &mut RunReport,
    ds: &mut DatasetReportSummary,
    found: Vec<FailureEntry>,
)
    requires
        old(ds).failed + found@.len() <= u64::MAX,
    ensures
        *final(report) == (RunReport { failures: final(report).failures, ..*old(report) }),
        final(report).failures@ == old(report).failures@ + found@,
        *final(ds) == (DatasetReportSummary {
            failed: (old(ds).failed + found@.len()) as u64,
            succeeded: minus(old(ds).items_scanned, (old(ds).failed + found@.len()) as u64),
            ..*old(ds)
        }),
{
    let mut found = found;
    ds.failed = ds.failed + found.len() as u64;
    ds.succeeded = if ds.items_scanned >= ds.failed {
        ds.items_scanned - ds.failed
    } else {
        0
    };
    report.failures.append(&mut found);
}

/// How a command ends.
pub open spec fn verdict_text(command: Seq<char>, failed: u64) -> Seq<char> {
    "["@ + command + "] failures detected: "@ + text::decimal(failed as nat)
}

/// How a command ends: it fails if anything failed.
pub fn run_verdict(command: &str, totals_failed: u64) -> (r: Result<(), String>)
    ensures
        match r {
            Ok(_) => totals_failed == 0,
            Err(e) => totals_failed > 0 && e@ == verdict_text(command@, totals_failed),
        },
{
    if totals_failed == 0 {
        return Ok(());
    }
    let mut m = "[".to_owned();
    m.append(command);
    m.append("] failures detected: ");
    push_decimal(&mut m, totals_failed as u128);
    Err(m)
}

/// The command name as it stands in file names: letters, digits, `-` and `_`
/// stay, anything else becomes `-`.
pub open spec fn safe_char(c: char) -> char {
    if ('a' <= c <= 'z') || ('A' <= c <= 'Z') || ('0' <= c <= '9') || c == '-' || c == '_' {
        c
    } else {
        '-'
    }
}

pub open spec fn sanitized(s: Seq<char>) -> Seq<char> {
    Seq::new(s.len(), |i: int| safe_char(s[i]))
}

/// The command name as it stands in file names.
pub fn sanitize_command_name(s: &str) -> (r: String)
    ensures
        r@ == sanitized(s@),
{
    let v = chars_of(s);
    let mut out = String::new();
    let mut i: usize = 0;
    while i < v.len()
        invariant
            i <= v@.len(),
            v@ == s@,
            out@ == sanitized(s@).take(i as int),
        decreases v@.len() - i,
    {
        let c = v[i];
        let keep = ('a' <= c && c <= 'z') || ('A' <= c && c <= 'Z') || ('0' <= c && c <= '9') || c
            == '-' || c == '_';
        out.push(
            if keep {
                c
            } else {
                '-'
            },
        );
        i += 1;
        assert(sanitized(s@).take(i as int) =~= sanitized(s@).take(i - 1).push(safe_char(s@[i - 1])));
    }
    assert(sanitized(s@).take(s@.len() as int) =~= sanitized(s@));
    out
}

/// Where a command stands in the usual order of work.
pub open spec fn flow_rank(cmd: Seq<char>) -> int {
    if cmd == "all"@ {
        0
    } else if cmd == "download"@ {
        1
    } else if cmd == "verify_download"@ || cmd == "validate-download"@ || cmd == "verify-download"@ {
        2
    } else if cmd == "check"@ {
        3
    } else if cmd == "convert"@ {
        4
    } else if cmd == "verify"@ || cmd == "verify_convert"@ || cmd == "verify-convert"@ {
        5
    } else if cmd == "verify_schema"@ || cmd == "verify-schema"@ {
        6
    } else if cmd == "index"@ {
        7
    } else if cmd == "extract"@ {
        8
    } else if cmd == "verify-index"@ || cmd == "verify_index"@ {
        9
    } else if cmd == "repair_convert"@ || cmd == "repair-convert"@ || cmd == "repair"@ {
        10
    } else {
        100
    }
}

/// Where a command stands in the usual order of work.
pub fn command_flow_rank(cmd: &str) -> (r: usize)
    ensures
        r == flow_rank(cmd@),
{
    if str_eq(cmd, "all") {
        0
    } else if str_eq(cmd, "download") {
        1
    } else if str_eq(cmd, "verify_download") || str_eq(cmd, "validate-download") || str_eq(
        cmd,
        "verify-download",
    ) {
        2
    } else if str_eq(cmd, "check") {
        3
    } else if str_eq(cmd, "convert") {
        4
    } else if str_eq(cmd, "verify") || str_eq(cmd, "verify_convert") || str_eq(
        cmd,
        "verify-convert",
    ) {
        5
    } else if str_eq(cmd, "verify_schema") || str_eq(cmd, "verify-schema") {
        6
    } else if str_eq(cmd, "index") {
        7
    } else if str_eq(cmd, "extract") {
        8
    } else if str_eq(cmd, "verify-index") || str_eq(cmd, "verify_index") {
        9
    } else if str_eq(cmd, "repair_convert") || str_eq(cmd, "repair-convert") || str_eq(
        cmd,
        "repair",
    ) {
        10
    } else {
        100
    }
}

/// One name for the names under which a command is known.
pub open spec fn canonical_name(s: Seq<char>) -> Seq<char> {
    if s == "verify_convert"@ || s == "verify-convert"@ || s == "verify"@ {
        "verify"@
    } else if s == "verify_download"@ || s == "verify-download"@ || s == "validate-download"@ {
        "verify_download"@
    } else if s == "verify_schema"@ || s == "verify-schema"@ {
        "verify_schema"@
    } else if s == "verify_index"@ || s == "verify-index"@ {
        "verify-index"@
    } else {
        s
    }
}

/// One name for the names under which a command is known.
pub fn canonical_command_name(s: &str) -> (r: String)
    ensures
        r@ == canonical_name(s@),
{
    if str_eq(s, "verify_convert") || str_eq(s, "verify-convert") || str_eq(s, "verify") {
        "verify".to_owned()
    } else if str_eq(s, "verify_download") || str_eq(s, "verify-download") || str_eq(
        s,
        "validate-download",
    ) {
        "verify_download".to_owned()
    } else if str_eq(s, "verify_schema") || str_eq(s, "verify-schema") {
        "verify_schema".to_owned()
    } else if str_eq(s, "verify_index") || str_eq(s, "verify-index") {
        "verify-index".to_owned()
    } else {
        s.to_owned()
    }
}

/// The canonical name of a command is its own canonical name.
pub proof fn law_canonical_name_idempotent(s: Seq<char>)
    ensures
        canonical_name(canonical_name(s)) == canonical_name(s),
{
    reveal_strlit("verify");
    reveal_strlit("verify_convert");
    reveal_strlit("verify-convert");
    reveal_strlit("verify_download");
    reveal_strlit("verify-download");
    reveal_strlit("validate-download");
    reveal_strlit("verify_schema");
    reveal_strlit("verify-schema");
    reveal_strlit("verify_index");
    reveal_strlit("verify-index");
    assert("verify"@.len() == 6);
    assert("verify_convert"@.len() == 14 && "verify-convert"@.len() == 14);
    assert("verify_download"@.len() == 15 && "verify-download"@.len() == 15);
    assert("validate-download"@.len() == 17);
    assert("verify_schema"@.len() == 13 && "verify-schema"@.len() == 13);
    assert("verify-index"@.len() == 12 && "verify_index"@.len() == 12);
}

/// The name of the file that a report is written to.
pub open spec fn report_name(command: Seq<char>, started: int, nonce: nat) -> Seq<char> {
    if nonce == 0 {
        sanitized(command) + "-"@ + text::signed_decimal(started) + ".json"@
    } else {
        sanitized(command) + "-"@ + text::signed_decimal(started) + "-"@ + text::decimal(nonce)
            + ".json"@
    }
}

/// The name of the file that a report is written to.
pub fn report_file_name(command: &str, started_at_unix: i64, report_nonce: u128) -> (r: String)
    ensures
        r@ == report_name(command@, started_at_unix as int, report_nonce as nat),
{
    let mut out = sanitize_command_name(command);
    out.append("-");
    push_signed(&mut out, started_at_unix);
    if report_nonce != 0 {
        out.append("-");
        push_decimal(&mut out, report_nonce);
    }
    out.append(".json");
    out
}

/// Whether position `i` is that of the last `-` in `s`.
pub open spec fn last_dash(s: Seq<char>, i: int) -> bool {
    0 <= i < s.len() && s[i] == '-' && forall|j: int| i < j < s.len() ==> #[trigger] s[j] != '-'
}

/// The command and the number that the name of a report file tells: what stands
/// before the last dash and what stands behind it.
pub open spec fn name_parts(name: Seq<char>) -> Option<(Seq<char>, int)> {
    match text::without_suffix(name, ".json"@) {
        None => None,
        Some(stem) => if exists|i: int| last_dash(stem, i) {
            let i = choose|i: int| last_dash(stem, i);
            match text::signed_of(stem.skip(i + 1)) {
                Some(n) => if i > 0 {
                    Some((stem.take(i), n))
                } else {
                    None
                },
                None => None,
            }
        } else {
            None
        },
    }
}

/// The command and the number that the name of a report file tells.
pub fn parse_report_filename(name: &str) -> (r: Option<(String, i64)>)
    ensures
        match r {
            Some((cmd, ts)) => name_parts(name@) == Some((cmd@, ts as int)),
            None => name_parts(name@) is None,
        },
{
    let stem = match strip_suffix(name, ".json") {
        Some(s) => s,
        None => {
            return None;
        },
    };
    let v = chars_of(stem.as_str());
    let n: usize = v.len();
    match rfind_char(&v, '-') {
        Some(i) => {
            proof {
                assert(last_dash(v@, i as int));
                let k = choose|k: int| last_dash(v@, k);
                assert(last_dash(v@, k));
                assert(k == i);
            }
            let number = string_of(&v, i + 1, n);
            assert(v@.subrange(i + 1, v@.len() as int) =~= v@.skip(i + 1));
            match parse_i64(number.as_str()) {
                Some(ts) => {
                    if i == 0 {
                        return None;
                    }
                    let cmd = string_of(&v, 0, i);
                    assert(v@.subrange(0, i as int) =~= v@.take(i as int));
                    Some((cmd, ts))
                },
                None => None,
            }
        },
        None => {
            proof {
                assert forall|i: int| !last_dash(v@, i) by {
                    if last_dash(v@, i) {
                        assert(v@.contains('-'));
                    }
                }
            }
            None
        },
    }
}

proof fn lemma_no_dash_in_digits(s: Seq<char>, from: int)
    requires
        0 <= from < s.len(),
        text::is_decimal(s.skip(from)),
    ensures
        forall|j: int| from <= j < s.len() ==> #[trigger] s[j] != '-',
{
    assert forall|j: int| from <= j < s.len() implies #[trigger] s[j] != '-' by {
        assert(text::is_digit(s.skip(from)[j - from]));
    }
}

/// The file name of a report tells the command it was written for and, without
/// a nonce, when the run started; with a nonce it tells that, and the start
/// stands with the command.
pub proof fn law_report_name_round_trip(command: Seq<char>, started: int, nonce: nat)
    requires
        command.len() > 0,
        0 <= started <= i64::MAX,
        nonce <= i64::MAX,
    ensures
        nonce == 0 ==> name_parts(report_name(command, started, nonce)) == Some(
            (sanitized(command), started),
        ),
        nonce != 0 ==> name_parts(report_name(command, started, nonce)) == Some(
            (sanitized(command) + "-"@ + text::decimal(started as nat), nonce as int),
        ),
{
    reveal_strlit("-");
    reveal_strlit(".json");
    let name = report_name(command, started, nonce);
    let number = if nonce == 0 { started as nat } else { nonce };
    let cmd = if nonce == 0 {
        sanitized(command)
    } else {
        sanitized(command) + "-"@ + text::decimal(started as nat)
    };
    let digits = text::decimal(number);
    text::law_decimal_round_trip(number);
    let stem = cmd + "-"@ + digits;
    assert(name =~= stem + ".json"@);
    assert(name.skip(name.len() - 5) =~= ".json"@);
    assert(text::without_suffix(name, ".json"@) == Some(stem)) by {
        assert(name.take(name.len() - 5) =~= stem);
    }
    let i = cmd.len() as int;
    assert(stem[i] == '-');
    assert(stem.skip(i + 1) =~= digits);
    lemma_no_dash_in_digits(stem, i + 1);
    assert(last_dash(stem, i));
    let k = choose|k: int| last_dash(stem, k);
    assert(last_dash(stem, k));
    assert(k == i);
    assert(stem.take(i) =~= cmd);
    assert(digits[0] != '-' && digits[0] != '+') by {
        assert(text::is_digit(digits[0]));
    }
    assert(text::signed_of(digits) == Some(number as int));
}

/// A report as it was found on disk.
pub struct ReportRecord {
    pub source_kind: String,
    pub path: String,
    pub timestamp: i64,
    pub report: RunReport,
}

/// Whether a record is of the command asked for, where one is.
pub open spec fn of_command(rec: ReportRecord, command: Option<Seq<char>>) -> bool {
    match command {
        Some(c) => rec.report.command@ == c,
        None => true,
    }
}

/// Whether record `i` is the newest of its command among those that `command`
/// selects; of several with one timestamp, the first.
pub open spec fn is_newest(recs: Seq<ReportRecord>, command: Option<Seq<char>>, i: int) -> bool {
    forall|j: int|
        0 <= j < recs.len() && of_command(#[trigger] recs[j], command) && recs[j].report.command@
            == recs[i].report.command@ ==> recs[j].timestamp < recs[i].timestamp || (
        recs[j].timestamp == recs[i].timestamp && j >= i)
}

/// Whether record `i` is listed.
pub open spec fn is_listed(
    recs: Seq<ReportRecord>,
    command: Option<Seq<char>>,
    latest: bool,
    i: int,
) -> bool {
    of_command(recs[i], command) && (latest ==> is_newest(recs, command, i))
}

/// What records are sorted by when they are listed: the order of work, newest
/// first, then path, then command.
pub struct ListingKey {
    pub rank: usize,
    pub timestamp: i64,
    pub path: PathKey,
    pub command: String,
}

impl SortKey for ListingKey {
    open spec fn before(self, other: Self) -> bool {
        if self.rank != other.rank {
            self.rank < other.rank
        } else if self.timestamp != other.timestamp {
            self.timestamp > other.timestamp
        } else if paths::list_lt(self.path@, other.path@) {
            true
        } else if paths::list_lt(other.path@, self.path@) {
            false
        } else {
            text::text_lt(self.command@, other.command@)
        }
    }

    proof fn lemma_asymmetric(a: Self, b: Self) {
        if a.rank == b.rank && a.timestamp == b.timestamp {
            if paths::list_lt(a.path@, b.path@) {
                paths::lemma_list_lt_asymmetric(a.path@, b.path@);
            } else if !paths::list_lt(b.path@, a.path@) {
                text::lemma_text_lt_asymmetric(a.command@, b.command@);
            }
        }
    }

    proof fn lemma_not_before_transitive(a: Self, b: Self, c: Self) {
        if a.rank == b.rank && b.rank == c.rank && a.timestamp == b.timestamp && b.timestamp
            == c.timestamp {
            paths::lemma_list_not_lt_transitive(a.path@, b.path@, c.path@);
            if !paths::list_lt(c.path@, a.path@) {
                paths::lemma_list_not_lt_transitive(b.path@, c.path@, a.path@);
                paths::lemma_list_not_lt_transitive(c.path@, a.path@, b.path@);
                text::lemma_text_not_lt_transitive(a.command@, b.command@, c.command@);
            }
        }
    }

    fn is_before(&self, other: &Self) -> (r: bool) {
        if self.rank != other.rank {
            return self.rank < other.rank;
        }
        if self.timestamp != other.timestamp {
            return self.timestamp > other.timestamp;
        }
        if self.path.comes_before(&other.path) {
            return true;
        }
        if other.path.comes_before(&self.path) {
            return false;
        }
        str_before(self.command.as_str(), other.command.as_str())
    }
}

/// Whether record `a` is listed ahead of record `b`.
pub open spec fn listed_ahead(recs: Seq<ReportRecord>, latest: bool, a: int, b: int) -> bool {
    let x = recs[a];
    let y = recs[b];
    let rx = flow_rank(x.report.command@);
    let ry = flow_rank(y.report.command@);
    if rx != ry {
        rx < ry
    } else if x.timestamp != y.timestamp {
        x.timestamp > y.timestamp
    } else if paths::path_lt(x.path@, y.path@) {
        true
    } else if paths::path_lt(y.path@, x.path@) {
        false
    } else if latest && text::text_lt(x.report.command@, y.report.command@) {
        true
    } else if latest && text::text_lt(y.report.command@, x.report.command@) {
        false
    } else {
        a < b
    }
}

fn selected_by(rec: &ReportRecord, command: &Option<String>) -> (r: bool)
    ensures
        r == of_command(*rec, opt(*command)),
{
    match command {
        Some(c) => str_eq(rec.report.command.as_str(), c.as_str()),
        None => true,
    }
}

fn newest(recs: &Vec<ReportRecord>, command: &Option<String>, i: usize) -> (r: bool)
    requires
        i < recs@.len(),
    ensures
        r == is_newest(recs@, opt(*command), i as int),
{
    let mut j: usize = 0;
    while j < recs.len()
        invariant
            i < recs@.len(),
            j <= recs@.len(),
            forall|k: int|
                0 <= k < j && of_command(#[trigger] recs@[k], opt(*command))
                    && recs@[k].report.command@ == recs@[i as int].report.command@ ==> recs@[k].timestamp
                    < recs@[i as int].timestamp || (recs@[k].timestamp == recs@[i as int].timestamp
                    && k >= i),
        decreases recs@.len() - j,
    {
        if selected_by(&recs[j], command) && str_eq(
            recs[j].report.command.as_str(),
            recs[i].report.command.as_str(),
        ) {
            let older = recs[j].timestamp < recs[i].timestamp || (recs[j].timestamp
                == recs[i].timestamp && j >= i);
            if !older {
                assert(of_command(recs@[j as int], opt(*command)));
                return false;
            }
        }
        j += 1;
    }
    true
}

/// Which records are listed, in the order in which they are listed.
pub fn report_listing(
    recs: &Vec<ReportRecord>,
    command: &Option<String>,
    latest: bool,
) -> (r: Vec<usize>)
    ensures
        r@.no_duplicates(),
        forall|i: int| 0 <= i < r@.len() ==> #[trigger] r@[i] < recs@.len(),
        forall|k: usize| #[trigger]
            r@.contains(k) <==> k < recs@.len() && is_listed(recs@, opt(*command), latest, k as int),
        forall|i: int, j: int|
            0 <= i < j < r@.len() ==> listed_ahead(
                recs@,
                latest,
                #[trigger] r@[i] as int,
                #[trigger] r@[j] as int,
            ),
{
    let mut picked: Vec<usize> = Vec::new();
    let mut keys: Vec<ListingKey> = Vec::new();
    let mut i: usize = 0;
    while i < recs.len()
        invariant
            i <= recs@.len(),
            picked@.len() == keys@.len(),
            forall|k: int|
                0 <= k < picked@.len() ==> #[trigger] picked@[k] < i && is_listed(
                    recs@,
                    opt(*command),
                    latest,
                    picked@[k] as int,
                ),
            forall|k: int, l: int| 0 <= k < l < picked@.len() ==> picked@[k] < picked@[l],
            forall|k: int|
                0 <= k < i && is_listed(recs@, opt(*command), latest, k)
                    ==> #[trigger] picked@.contains(k as usize),
            forall|k: int|
                0 <= k < picked@.len() ==> ({
                    let key = #[trigger] keys@[k];
                    let rec = recs@[picked@[k] as int];
                    &&& key.rank == flow_rank(rec.report.command@)
                    &&& key.timestamp == rec.timestamp
                    &&& key.path@ == paths::sort_texts(rec.path@)
                    &&& key.command@ == (if latest { rec.report.command@ } else { Seq::empty() })
                }),
        decreases recs@.len() - i,
    {
        let ghost p0 = picked@;
        if selected_by(&recs[i], command) && (!latest || newest(recs, command, i)) {
            let cmd = recs[i].report.command.as_str();
            let key = ListingKey {
                rank: command_flow_rank(cmd),
                timestamp: recs[i].timestamp,
                path: path_key(recs[i].path.as_str()),
                command: if latest {
                    cmd.to_owned()
                } else {
                    String::new()
                },
            };
            picked.push(i);
            keys.push(key);
            proof {
                assert(picked@[picked@.len() - 1] == i);
                assert forall|k: int|
                    0 <= k < i + 1 && is_listed(
                        recs@,
                        opt(*command),
                        latest,
                        k,
                    ) implies #[trigger] picked@.contains(k as usize) by {
                    if k < i {
                        assert(p0.contains(k as usize));
                        let m = choose|m: int| 0 <= m < p0.len() && p0[m] == k as usize;
                        assert(picked@[m] == k as usize);
                    }
                }
            }
        }
        i += 1;
    }
    let order = stable_order(&keys);
    let mut out: Vec<usize> = Vec::new();
    let mut j: usize = 0;
    while j < order.len()
        invariant
            j <= order@.len(),
            order@.len() == picked@.len(),
            forall|k: int| 0 <= k < order@.len() ==> #[trigger] order@[k] < picked@.len(),
            out@ == Seq::new(j as nat, |k: int| picked@[order@[k] as int]),
        decreases order@.len() - j,
    {
        out.push(picked[order[j]]);
        j += 1;
        assert(out@ =~= Seq::new(j as nat, |k: int| picked@[order@[k] as int]));
    }
    proof {
        lemma_order_is_onto(order@);
        assert forall|k: usize| #[trigger]
            out@.contains(k) <==> k < recs@.len() && is_listed(
                recs@,
                opt(*command),
                latest,
                k as int,
            ) by {
            if out@.contains(k) {
                let m = choose|m: int| 0 <= m < out@.len() && out@[m] == k;
                assert(picked@[order@[m] as int] == k);
            }
            if k < recs@.len() && is_listed(recs@, opt(*command), latest, k as int) {
                assert(picked@.contains((k as int) as usize));
                let m = choose|m: int| 0 <= m < picked@.len() && picked@[m] == k;
                assert(order@.contains(m as usize));
                let n = choose|n: int| 0 <= n < order@.len() && order@[n] == m as usize;
                assert(out@[n] == k);
            }
        }
        assert forall|a: int, b: int| 0 <= a < b < out@.len() implies listed_ahead(
            recs@,
            latest,
            #[trigger] out@[a] as int,
            #[trigger] out@[b] as int,
        ) by {
            assert(order::ahead(keys@, order@[a], order@[b]));
            let ka = keys@[order@[a] as int];
            let kb = keys@[order@[b] as int];
            assert(out@[a] == picked@[order@[a] as int]);
            assert(out@[b] == picked@[order@[b] as int]);
            if ka.before(kb) {
                if !latest {
                    text::lemma_text_lt_irreflexive(Seq::<char>::empty());
                }
            } else {
                assert(order@[a] < order@[b]);
                assert(picked@[order@[a] as int] < picked@[order@[b] as int]);
            }
        }
        assert forall|a: int, b: int|
            0 <= a < out@.len() && 0 <= b < out@.len() && a != b implies #[trigger] out@[a]
            != #[trigger] out@[b] by {
            let x = order@[a] as int;
            let y = order@[b] as int;
            assert(x != y);
            if x < y {
                assert(picked@[x] < picked@[y]);
            } else {
                assert(picked@[y] < picked@[x]);
            }
        }
    }
    out
}

/// A list of as many different positions as there are holds every position.
proof fn lemma_order_is_onto(order: Seq<usize>)
    requires
        order.no_duplicates(),
        forall|i: int| 0 <= i < order.len() ==> #[trigger] order[i] < order.len(),
    ensures
        forall|k: usize| k < order.len() ==> #[trigger] order.contains(k),
{
    let n = order.len() as int;
    let ints = Seq::new(order.len(), |i: int| order[i] as int);
    assert(ints.no_duplicates());
    ints.unique_seq_to_set();
    let all = vstd::set_lib::set_int_range(0, n);
    vstd::set_lib::lemma_int_range(0, n);
    assert(ints.to_set().subset_of(all)) by {
        assert forall|x: int| ints.to_set().contains(x) implies all.contains(x) by {
            let i = choose|i: int| 0 <= i < ints.len() && ints[i] == x;
            assert(order[i] < order.len());
        }
    }
    vstd::set_lib::lemma_subset_equality(ints.to_set(), all);
    assert forall|k: usize| k < order.len() implies #[trigger] order.contains(k) by {
        assert(all.contains(k as int));
        assert(ints.to_set().contains(k as int));
        let i = choose|i: int| 0 <= i < ints.len() && ints[i] == k as int;
        assert(order[i] == k);
    }
}

/// The totals of a run are the sums over its datasets, each number for itself.
pub proof fn law_totals_add_up(d: Seq<DatasetReportSummary>, x: DatasetReportSummary)
    ensures
        totals(Seq::empty()) == (0int, 0int, 0int, 0int),
        totals(d.push(x)).0 == totals(d).0 + x.items_scanned,
        totals(d.push(x)).1 == totals(d).1 + x.succeeded,
        totals(d.push(x)).2 == totals(d).2 + x.failed,
        totals(d.push(x)).3 == totals(d).3 + x.skipped,
{
    assert(d.push(x).drop_last() =~= d);
}

/// The other datasets are all but those of one name, in their order.
pub proof fn law_other_datasets(
    d: Seq<DatasetReportSummary>,
    x: DatasetReportSummary,
    name: Seq<char>,
)
    ensures
        others(Seq::empty(), name).len() == 0,
        x.dataset@ == name ==> others(d.push(x), name) == others(d, name),
        x.dataset@ != name ==> others(d.push(x), name) == others(d, name).push(x),
{
    assert(d.push(x).drop_last() =~= d);
}

/// A number is lessened by another as far as it goes, and not below zero.
pub proof fn law_lessened(a: u64, b: u64)
    ensures
        minus(a, b) + (if a >= b { b } else { a }) == a,
{
}

/// A command stands in a file name as it is as far as it has ASCII letters and digits,
/// dashes and underscores; a dash stands for every other character.
pub proof fn law_names_are_safe(s: Seq<char>, i: int)
    requires
        0 <= i < s.len(),
    ensures
        sanitized(s).len() == s.len(),
        "abcdefghijklmnopqrstuvwxyzABCDEFGHIJKLMNOPQRSTUVWXYZ0123456789-_"@.contains(s[i])
            ==> sanitized(s)[i] == s[i],
        !"abcdefghijklmnopqrstuvwxyzABCDEFGHIJKLMNOPQRSTUVWXYZ0123456789-_"@.contains(s[i])
            ==> sanitized(s)[i] == '-',
        sanitized(sanitized(s)) == sanitized(s),
{
    reveal_strlit("abcdefghijklmnopqrstuvwxyzABCDEFGHIJKLMNOPQRSTUVWXYZ0123456789-_");
    let t = "abcdefghijklmnopqrstuvwxyzABCDEFGHIJKLMNOPQRSTUVWXYZ0123456789-_"@;
    let c = s[i];
    assert(sanitized(sanitized(s)) =~= sanitized(s));
    if 'a' <= c <= 'z' {
        assert(t[c as int - 97] == c);
    } else if 'A' <= c <= 'Z' {
        assert(t[c as int - 65 + 26] == c);
    } else if '0' <= c <= '9' {
        assert(t[c as int - 48 + 52] == c);
    } else if c == '-' {
        assert(t[62] == c);
    } else if c == '_' {
        assert(t[63] == c);
    } else {
        assert forall|k: int| 0 <= k < t.len() implies #[trigger] t[k] != c by {
            lemma_safe_alphabet(k);
        }
    }
}

proof fn lemma_safe_alphabet(k: int)
    requires
        0 <= k < 64,
    ensures
        ({
            let c = "abcdefghijklmnopqrstuvwxyzABCDEFGHIJKLMNOPQRSTUVWXYZ0123456789-_"@[k];
            ('a' <= c <= 'z') || ('A' <= c <= 'Z') || ('0' <= c <= '9') || c == '-' || c == '_'
        }),
{
    reveal_strlit("abcdefghijklmnopqrstuvwxyzABCDEFGHIJKLMNOPQRSTUVWXYZ0123456789-_");
}

/// The steps in the order in which a snapshot goes through them.
pub open spec fn steps_in_order() -> Seq<Seq<char>> {
    seq![
        "all"@,
        "download"@,
        "verify_download"@,
        "check"@,
        "convert"@,
        "verify"@,
        "verify_schema"@,
        "index"@,
        "extract"@,
        "verify-index"@,
        "repair"@,
    ]
}

/// Reports are ranked by the order of the steps, the names of one step alike, and
/// those of no step behind all.
pub proof fn law_steps_are_ranked(cmd: Seq<char>, i: int, j: int)
    requires
        0 <= i < j < 11,
    ensures
        flow_rank(steps_in_order()[i]) < flow_rank(steps_in_order()[j]),
        flow_rank(canonical_name(cmd)) == flow_rank(cmd),
        flow_rank("repair_convert"@) == flow_rank("repair"@),
        flow_rank("repair-convert"@) == flow_rank("repair"@),
        steps_in_order()[0] == "all"@ && steps_in_order()[1] == "download"@ && steps_in_order()[2]
            == "verify_download"@ && steps_in_order()[3] == "check"@ && steps_in_order()[4]
            == "convert"@ && steps_in_order()[5] == "verify"@ && steps_in_order()[6]
            == "verify_schema"@ && steps_in_order()[7] == "index"@ && steps_in_order()[8]
            == "extract"@ && steps_in_order()[9] == "verify-index"@ && steps_in_order()[10]
            == "repair"@,
        !steps_in_order().contains(canonical_name(cmd)) && cmd != "repair_convert"@ && cmd
            != "repair-convert"@ ==> flow_rank(cmd) > flow_rank("repair"@),
{
    let s = steps_in_order();
    lemma_ranks();
    assert(s[0] == "all"@ && s[1] == "download"@ && s[2] == "verify_download"@ && s[3] == "check"@);
    assert(s[4] == "convert"@ && s[5] == "verify"@ && s[6] == "verify_schema"@ && s[7] == "index"@);
    assert(s[8] == "extract"@ && s[9] == "verify-index"@ && s[10] == "repair"@);
    assert(flow_rank(s[i]) == i && flow_rank(s[j]) == j);
}

proof fn lemma_ranks()
    ensures
        flow_rank("all"@) == 0,
        flow_rank("download"@) == 1,
        flow_rank("verify_download"@) == 2,
        flow_rank("check"@) == 3,
        flow_rank("convert"@) == 4,
        flow_rank("verify"@) == 5,
        flow_rank("verify_schema"@) == 6,
        flow_rank("index"@) == 7,
        flow_rank("extract"@) == 8,
        flow_rank("verify-index"@) == 9,
        flow_rank("repair"@) == 10,
        flow_rank("repair_convert"@) == 10,
        flow_rank("repair-convert"@) == 10,
        flow_rank("verify-schema"@) == 6,
        flow_rank("verify_index"@) == 9,
        flow_rank("verify_convert"@) == 5,
        flow_rank("verify-convert"@) == 5,
        flow_rank("validate-download"@) == 2,
        flow_rank("verify-download"@) == 2,
{
    reveal_strlit("all");
    reveal_strlit("download");
    reveal_strlit("verify_download");
    reveal_strlit("validate-download");
    reveal_strlit("verify-download");
    reveal_strlit("check");
    reveal_strlit("convert");
    reveal_strlit("verify");
    reveal_strlit("verify_convert");
    reveal_strlit("verify-convert");
    reveal_strlit("verify_schema");
    reveal_strlit("verify-schema");
    reveal_strlit("index");
    reveal_strlit("extract");
    reveal_strlit("verify-index");
    reveal_strlit("verify_index");
    reveal_strlit("repair_convert");
    reveal_strlit("repair-convert");
    reveal_strlit("repair");
    assert("all"@.len() == 3 && "download"@.len() == 8 && "check"@.len() == 5);
    assert("verify_download"@.len() == 15 && "verify-download"@.len() == 15);
    assert("validate-download"@.len() == 17 && "convert"@.len() == 7 && "convert"@[0] == 'c');
    assert("verify"@.len() == 6 && "verify"@[0] == 'v' && "repair"@.len() == 6 && "repair"@[0] == 'r');
    assert("extract"@.len() == 7 && "extract"@[0] == 'e');
    assert("verify_convert"@.len() == 14 && "verify-convert"@.len() == 14);
    assert("repair_convert"@.len() == 14 && "repair-convert"@.len() == 14);
    assert("verify_convert"@[0] == 'v' && "verify-convert"@[0] == 'v');
    assert("repair_convert"@[0] == 'r' && "repair-convert"@[0] == 'r');
    assert("verify_schema"@.len() == 13 && "verify-schema"@.len() == 13);
    assert("verify_index"@.len() == 12 && "verify-index"@.len() == 12);
    assert("index"@.len() == 5 && "index"@[0] == 'i' && "check"@[0] == 'c');
}

/// The names of one step are one name: those of the verification of a conversion, of a
/// download, of schemas and of an index; every other name is its own.
pub proof fn law_names_of_a_step(s: Seq<char>)
    ensures
        canonical_name("verify"@) == "verify"@,
        canonical_name("verify_convert"@) == "verify"@,
        canonical_name("verify-convert"@) == "verify"@,
        canonical_name("verify_download"@) == "verify_download"@,
        canonical_name("verify-download"@) == "verify_download"@,
        canonical_name("validate-download"@) == "verify_download"@,
        canonical_name("verify_schema"@) == "verify_schema"@,
        canonical_name("verify-schema"@) == "verify_schema"@,
        canonical_name("verify_index"@) == "verify-index"@,
        canonical_name("verify-index"@) == "verify-index"@,
        s != "verify_convert"@ && s != "verify-convert"@ && s != "verify-download"@ && s
            != "validate-download"@ && s != "verify-schema"@ && s != "verify_index"@
            ==> canonical_name(s) == s,
{
    reveal_strlit("all");
    reveal_strlit("download");
    reveal_strlit("verify_download");
    reveal_strlit("validate-download");
    reveal_strlit("verify-download");
    reveal_strlit("check");
    reveal_strlit("convert");
    reveal_strlit("verify");
    reveal_strlit("verify_convert");
    reveal_strlit("verify-convert");
    reveal_strlit("verify_schema");
    reveal_strlit("verify-schema");
    reveal_strlit("index");
    reveal_strlit("extract");
    reveal_strlit("verify-index");
    reveal_strlit("verify_index");
    reveal_strlit("repair_convert");
    reveal_strlit("repair-convert");
    reveal_strlit("repair");
    assert("verify"@.len() == 6 && "verify_convert"@.len() == 14 && "verify-convert"@.len() == 14);
    assert("verify_download"@.len() == 15 && "verify-download"@.len() == 15);
    assert("validate-download"@.len() == 17);
    assert("verify_schema"@.len() == 13 && "verify-schema"@.len() == 13);
    assert("verify_index"@.len() == 12 && "verify-index"@.len() == 12);
}

/// Two runs of a command have reports of different names where their starts or their
/// nonces differ.
pub proof fn law_report_names_are_apart(
    command: Seq<char>,
    started: nat,
    nonce: nat,
    other_started: nat,
    other_nonce: nat,
)
    requires
        command.len() > 0,
        started <= i64::MAX,
        nonce <= i64::MAX,
        other_started <= i64::MAX,
        other_nonce <= i64::MAX,
        (started, nonce) != (other_started, other_nonce),
        nonce == 0 <==> other_nonce == 0,
    ensures
        report_name(command, started as int, nonce) != report_name(
            command,
            other_started as int,
            other_nonce,
        ),
{
    reveal_strlit("-");
    law_report_name_round_trip(command, started as int, nonce);
    law_report_name_round_trip(command, other_started as int, other_nonce);
    if nonce != 0 && nonce == other_nonce {
        let lead = sanitized(command) + "-"@;
        let a = lead + text::decimal(started);
        let b = lead + text::decimal(other_started);
        text::law_decimal_round_trip(started);
        text::law_decimal_round_trip(other_started);
        assert(a.skip(lead.len() as int) =~= text::decimal(started));
        assert(b.skip(lead.len() as int) =~= text::decimal(other_started));
    }
}

/// Of the reports of a command there is one newest, and none has a later time.
pub proof fn law_newest_report(
    recs: Seq<ReportRecord>,
    command: Option<Seq<char>>,
    i: int,
    j: int,
)
    requires
        0 <= i < recs.len(),
        0 <= j < recs.len(),
        of_command(recs[i], command),
        of_command(recs[j], command),
        recs[i].report.command@ == recs[j].report.command@,
        is_newest(recs, command, i),
    ensures
        recs[j].timestamp <= recs[i].timestamp,
        is_newest(recs, command, j) ==> i == j,
{
}

/// All reports are listed, those of one command where one is asked for, and the newest
/// of each command alone where the latest are.
pub proof fn law_listed_reports(recs: Seq<ReportRecord>, command: Seq<char>, i: int)
    requires
        0 <= i < recs.len(),
    ensures
        is_listed(recs, None, false, i),
        is_listed(recs, Some(command), false, i) <==> recs[i].report.command@ == command,
        is_listed(recs, None, true, i) <==> is_newest(recs, None, i),
        is_listed(recs, Some(command), true, i) <==> recs[i].report.command@ == command && is_newest(
            recs,
            Some(command),
            i,
        ),
{
}

/// Of two reports one is listed before the other: the one of the earlier step, and of
/// one step the newer.
pub proof fn law_order_of_the_list(recs: Seq<ReportRecord>, latest: bool, a: int, b: int)
    requires
        a != b,
    ensures
        listed_ahead(recs, latest, a, b) <==> !listed_ahead(recs, latest, b, a),
        flow_rank(recs[a].report.command@) < flow_rank(recs[b].report.command@) ==> listed_ahead(
            recs,
            latest,
            a,
            b,
        ),
        flow_rank(recs[a].report.command@) == flow_rank(recs[b].report.command@)
            && recs[a].timestamp > recs[b].timestamp ==> listed_ahead(recs, latest, a, b),
        flow_rank(recs[a].report.command@) == flow_rank(recs[b].report.command@)
            && recs[a].timestamp == recs[b].timestamp && paths::path_lt(
            recs[a].path@,
            recs[b].path@,
        ) ==> listed_ahead(recs, latest, a, b),
{
    if paths::path_lt(recs[a].path@, recs[b].path@) {
        paths::lemma_list_lt_asymmetric(
            paths::sort_texts(recs[a].path@),
            paths::sort_texts(recs[b].path@),
        );
    }
    if text::text_lt(recs[a].report.command@, recs[b].report.command@) {
        text::lemma_text_lt_asymmetric(recs[a].report.command@, recs[b].report.command@);
    }
}
proof fn lemma_newest_below(
    recs: Seq<ReportRecord>,
    command: Option<Seq<char>>,
    name: Seq<char>,
    n: int,
    k: int,
) -> (i: int)
    requires
        0 <= k < n <= recs.len(),
        of_command(recs[k], command),
        recs[k].report.command@ == name,
    ensures
        0 <= i < n,
        of_command(recs[i], command),
        recs[i].report.command@ == name,
        forall|j: int|
            0 <= j < n && of_command(#[trigger] recs[j], command) && recs[j].report.command@ == name
                ==> recs[j].timestamp < recs[i].timestamp || (recs[j].timestamp
                == recs[i].timestamp && j >= i),
    decreases n,
{
    let last = n - 1;
    let some = exists|j: int|
        0 <= j < last && of_command(#[trigger] recs[j], command) && recs[j].report.command@ == name;
    if some {
        let j = choose|j: int|
            0 <= j < last && of_command(#[trigger] recs[j], command) && recs[j].report.command@
                == name;
        let i = lemma_newest_below(recs, command, name, last, j);
        if of_command(recs[last], command) && recs[last].report.command@ == name
            && recs[last].timestamp > recs[i].timestamp {
            last
        } else {
            i
        }
    } else {
        k
    }
}

/// Of the reports of a command one is the newest.
pub proof fn law_some_report_is_the_newest(
    recs: Seq<ReportRecord>,
    command: Option<Seq<char>>,
    k: int,
)
    requires
        0 <= k < recs.len(),
        of_command(recs[k], command),
    ensures
        exists|i: int|
            0 <= i < recs.len() && of_command(recs[i], command) && recs[i].report.command@
                == recs[k].report.command@ && #[trigger] is_newest(recs, command, i),
{
    let i = lemma_newest_below(
        recs,
        command,
        recs[k].report.command@,
        recs.len() as int,
        k,
    );
    assert(is_newest(recs, command, i));
}
} // verus!
