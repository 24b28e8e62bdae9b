//! Reports and progress in lines for people to read.

use vstd::prelude::*;
use vstd::string::*;
use crate::progress::{LiveDatasetStatus, LiveState};
use crate::progress;
use crate::report::{DatasetReportSummary, RunReport};
use crate::report;
use crate::text::{
    chars_of, decimal_string, find_char, part_at, push_decimal, push_padded, push_signed,
    push_zero_padded,
};
use crate::text;

verus! {

/// A time in hours, minutes and seconds, from its largest part on.
pub open spec fn duration_text(s: nat) -> Seq<char> {
    let h = s / 3600;
    let m = (s % 3600) / 60;
    let sec = s % 60;
    if h > 0 {
        text::decimal(h) + "h"@ + text::zero_padded(m, 2) + "m"@ + text::zero_padded(sec, 2) + "s"@
    } else if m > 0 {
        text::decimal(m) + "m"@ + text::zero_padded(sec, 2) + "s"@
    } else {
        text::decimal(sec) + "s"@
    }
}

/// A time in hours, minutes and seconds, from its largest part on.
pub fn format_duration(seconds: u64) -> (r: String)
    ensures
        r@ == duration_text(seconds as nat),
{
    let h: u64 = seconds / 3600;
    let m: u64 = (seconds % 3600) / 60;
    let sec: u64 = seconds % 60;
    let mut s = String::new();
    if h > 0 {
        push_decimal(&mut s, h as u128);
        s.append("h");
        push_zero_padded(&mut s, m as u128, 2);
        s.append("m");
        push_zero_padded(&mut s, sec as u128, 2);
        s.append("s");
    } else if m > 0 {
        push_decimal(&mut s, m as u128);
        s.append("m");
        push_zero_padded(&mut s, sec as u128, 2);
        s.append("s");
    } else {
        push_decimal(&mut s, sec as u128);
        s.append("s");
    }
    assert(s@ =~= duration_text(seconds as nat));
    s
}

/// A time that is not negative; what is before zero counts as zero.
pub open spec fn not_negative(n: int) -> nat {
    if n >= 0 {
        n as nat
    } else {
        0
    }
}

/// How long a run took, or has taken up to `now` where it is not finished.
pub open spec fn runtime_of(duration: Option<i64>, started: i64, now: i64) -> nat {
    match duration {
        Some(d) => not_negative(d as int),
        None => not_negative(now - started),
    }
}

/// How long a run took, or has taken up to `now` where it is not finished.
pub fn runtime_seconds(duration: Option<i64>, started: i64, now: i64) -> (r: u64)
    requires
        now - started <= i64::MAX,
    ensures
        r == runtime_of(duration, started, now),
{
    match duration {
        Some(d) => if d >= 0 {
            d as u64
        } else {
            0
        },
        None => if now >= started {
            (now - started) as u64
        } else {
            0
        },
    }
}

/// How long a run took, in words; a dash where that is not known.
pub open spec fn duration_cell(duration: Option<i64>) -> Seq<char> {
    match duration {
        Some(d) => duration_text(not_negative(d as int)),
        None => "-"@,
    }
}

/// How long a run took, in words.
pub fn show_duration(duration: Option<i64>) -> (r: String)
    ensures
        r@ == duration_cell(duration),
{
    match duration {
        Some(d) => format_duration(
            if d >= 0 {
                d as u64
            } else {
                0
            },
        ),
        None => "-".to_owned(),
    }
}

/// `s`, filled up with blanks on the left to at least `width` characters.
pub open spec fn right(s: Seq<char>, width: nat) -> Seq<char> {
    if s.len() < width {
        Seq::new((width - s.len()) as nat, |i: int| ' ') + s
    } else {
        s
    }
}

fn push_right(out: &mut String, s: &str, width: usize)
    ensures
        final(out)@ == old(out)@ + right(s@, width as nat),
{
    let ghost start = out@;
    let n: usize = chars_of(s).len();
    let mut k: usize = n;
    assert(out@ =~= start + Seq::new(0, |i: int| ' '));
    while k < width
        invariant
            n == s@.len(),
            n <= k,
            k <= width || k == n,
            out@ == start + Seq::new((k - n) as nat, |i: int| ' '),
        decreases width - k,
    {
        out.push(' ');
        k += 1;
        assert(out@ =~= start + Seq::new((k - n) as nat, |i: int| ' '));
    }
    out.append(s);
    assert(out@ =~= start + right(s@, width as nat));
}

fn push_count(out: &mut String, n: u64, width: usize)
    ensures
        final(out)@ == old(out)@ + right(text::decimal(n as nat), width as nat),
{
    let d = decimal_string(n as u128);
    push_right(out, d.as_str(), width);
}

/// Whether a run went through, in a word.
pub open spec fn outcome_word(failed: u64) -> Seq<char> {
    if failed == 0 {
        "ok"@
    } else {
        "FAILED"@
    }
}

fn show_outcome(failed: u64) -> (r: String)
    ensures
        r@ == outcome_word(failed),
{
    if failed == 0 {
        "ok".to_owned()
    } else {
        "FAILED".to_owned()
    }
}

/// A report on one line.
pub open spec fn summary_text(
    source_kind: Seq<char>,
    rep: RunReport,
    started_local: Seq<char>,
    path: Seq<char>,
) -> Seq<char> {
    text::padded(source_kind, 15) + " "@ + text::padded(rep.command@, 18) + " "@ + text::padded(
        outcome_word(rep.totals_failed),
        8,
    ) + " "@ + right(text::decimal(rep.totals_failed as nat), 8) + " "@ + right(
        text::decimal(rep.totals_succeeded as nat),
        10,
    ) + " "@ + right(text::decimal(rep.totals_skipped as nat), 8) + " "@ + text::padded(
        started_local,
        19,
    ) + " "@ + right(duration_cell(rep.duration_seconds), 8) + "  "@ + path
}

/// A report on one line; `started_local` is the time at which it began.
pub fn summary_line(source_kind: &str, rep: &RunReport, started_local: &str, path: &str) -> (r: String)
    ensures
        r@ == summary_text(source_kind@, *rep, started_local@, path@),
{
    let mut s = String::new();
    push_padded(&mut s, source_kind, 15);
    s.append(" ");
    push_padded(&mut s, rep.command.as_str(), 18);
    s.append(" ");
    let word = show_outcome(rep.totals_failed);
    push_padded(&mut s, word.as_str(), 8);
    s.append(" ");
    push_count(&mut s, rep.totals_failed, 8);
    s.append(" ");
    push_count(&mut s, rep.totals_succeeded, 10);
    s.append(" ");
    push_count(&mut s, rep.totals_skipped, 8);
    s.append(" ");
    push_padded(&mut s, started_local, 19);
    s.append(" ");
    let runtime = show_duration(rep.duration_seconds);
    push_right(&mut s, runtime.as_str(), 8);
    s.append("  ");
    s.append(path);
    assert(s@ =~= summary_text(source_kind@, *rep, started_local@, path@));
    s
}

/// The line above the datasets of a report.
pub open spec fn header_text(rep: RunReport, started_local: Seq<char>, file_name: Seq<char>) -> Seq<char> {
    "=== "@ + rep.command@ + " ["@ + started_local + "  "@ + duration_cell(rep.duration_seconds)
        + "  "@ + outcome_word(rep.totals_failed) + "]  "@ + file_name
}

/// The line above the datasets of a report.
pub fn header_line(rep: &RunReport, started_local: &str, file_name: &str) -> (r: String)
    ensures
        r@ == header_text(*rep, started_local@, file_name@),
{
    let mut s = "=== ".to_owned();
    s.append(rep.command.as_str());
    s.append(" [");
    s.append(started_local);
    s.append("  ");
    let runtime = show_duration(rep.duration_seconds);
    s.append(runtime.as_str());
    s.append("  ");
    let word = show_outcome(rep.totals_failed);
    s.append(word.as_str());
    s.append("]  ");
    s.append(file_name);
    s
}

/// A dataset on one line; one with failures is marked.
pub open spec fn dataset_text(ds: DatasetReportSummary) -> Seq<char> {
    "  "@ + text::padded(ds.dataset@, 22) + " "@ + right(text::decimal(ds.items_scanned as nat), 8)
        + " "@ + right(text::decimal(ds.succeeded as nat), 8) + " "@ + right(
        text::decimal(ds.failed as nat),
        8,
    ) + " "@ + right(text::decimal(ds.skipped as nat), 8) + (if ds.failed > 0 {
        "  !"@
    } else {
        ""@
    })
}

fn dataset_line(ds: &DatasetReportSummary) -> (r: String)
    ensures
        r@ == dataset_text(*ds),
{
    let mut s = "  ".to_owned();
    push_padded(&mut s, ds.dataset.as_str(), 22);
    s.append(" ");
    push_count(&mut s, ds.items_scanned, 8);
    s.append(" ");
    push_count(&mut s, ds.succeeded, 8);
    s.append(" ");
    push_count(&mut s, ds.failed, 8);
    s.append(" ");
    push_count(&mut s, ds.skipped, 8);
    if ds.failed > 0 {
        s.append("  !");
    } else {
        s.append("");
    }
    s
}

pub open spec fn table_head() -> Seq<Seq<char>> {
    seq![
        "  dataset                 scanned       ok   failed  skipped"@,
        "  ------------------------------------------------------"@,
    ]
}

pub open spec fn dataset_texts(d: Seq<DatasetReportSummary>) -> Seq<Seq<char>> {
    Seq::new(d.len(), |i: int| dataset_text(d[i]))
}

pub open spec fn step_text(s: report::StepRunSummary) -> Seq<char> {
    "  "@ + text::padded(s.step@, 22) + " "@ + s.status@
}

pub open spec fn step_texts(s: Seq<report::StepRunSummary>) -> Seq<Seq<char>> {
    Seq::new(s.len(), |i: int| step_text(s[i]))
}

/// The lines of a report: its datasets, or the steps that it ran, or what it
/// counted.
pub open spec fn body_texts(rep: RunReport) -> Seq<Seq<char>> {
    if rep.datasets@.len() > 0 {
        table_head() + dataset_texts(rep.datasets@)
    } else if rep.step_runs@.len() > 0 {
        step_texts(rep.step_runs@)
    } else {
        seq![
            "  totals: scanned="@ + text::decimal(rep.totals_items_scanned as nat) + " ok="@
                + text::decimal(rep.totals_succeeded as nat) + " failed="@ + text::decimal(
                rep.totals_failed as nat,
            ) + " skipped="@ + text::decimal(rep.totals_skipped as nat),
        ]
    }
}

/// The lines of a report.
pub fn body_lines(rep: &RunReport) -> (r: Vec<String>)
    ensures
        text::texts(r@) == body_texts(*rep),
{
    broadcast use text::lemma_texts_push;

    let mut out: Vec<String> = Vec::new();
    if rep.datasets.len() > 0 {
        out.push("  dataset                 scanned       ok   failed  skipped".to_owned());
        out.push("  ------------------------------------------------------".to_owned());
        let ghost all = dataset_texts(rep.datasets@);
        let mut i: usize = 0;
        assert(text::texts(out@) =~= table_head() + all.take(0));
        while i < rep.datasets.len()
            invariant
                i <= rep.datasets@.len(),
                all == dataset_texts(rep.datasets@),
                text::texts(out@) == table_head() + all.take(i as int),
            decreases rep.datasets@.len() - i,
        {
            broadcast use text::lemma_texts_push;

            out.push(dataset_line(&rep.datasets[i]));
            i += 1;
            assert(table_head() + all.take(i as int) =~= (table_head() + all.take(i - 1)).push(
                all[i - 1],
            ));
        }
        assert(all.take(i as int) =~= all);
        return out;
    }
    if rep.step_runs.len() > 0 {
        let ghost all = step_texts(rep.step_runs@);
        let mut i: usize = 0;
        assert(text::texts(out@) =~= all.take(0));
        while i < rep.step_runs.len()
            invariant
                i <= rep.step_runs@.len(),
                all == step_texts(rep.step_runs@),
                text::texts(out@) == all.take(i as int),
            decreases rep.step_runs@.len() - i,
        {
            broadcast use text::lemma_texts_push;

            let mut s = "  ".to_owned();
            push_padded(&mut s, rep.step_runs[i].step.as_str(), 22);
            s.append(" ");
            s.append(rep.step_runs[i].status.as_str());
            out.push(s);
            i += 1;
            assert(all.take(i as int) =~= all.take(i - 1).push(all[i - 1]));
        }
        assert(all.take(i as int) =~= all);
        return out;
    }
    let mut s = "  totals: scanned=".to_owned();
    push_decimal(&mut s, rep.totals_items_scanned as u128);
    s.append(" ok=");
    push_decimal(&mut s, rep.totals_succeeded as u128);
    s.append(" failed=");
    push_decimal(&mut s, rep.totals_failed as u128);
    s.append(" skipped=");
    push_decimal(&mut s, rep.totals_skipped as u128);
    out.push(s);
    assert(text::texts(out@) =~= body_texts(*rep));
    out
}

/// The lines on a run that is followed through its report.
pub open spec fn progress_head(rep: RunReport, runtime: nat, report_path: Seq<char>) -> Seq<Seq<char>> {
    seq![
        "[progress] command="@ + rep.command@ + " started="@ + text::signed_decimal(
            rep.started_at_unix as int,
        ) + " runtime="@ + duration_text(runtime) + " report="@ + report_path,
        "[progress] totals scanned="@ + text::decimal(rep.totals_items_scanned as nat) + " ok="@
            + text::decimal(rep.totals_succeeded as nat) + " failed="@ + text::decimal(
            rep.totals_failed as nat,
        ) + " skipped="@ + text::decimal(rep.totals_skipped as nat),
    ]
}

pub open spec fn progress_dataset(ds: DatasetReportSummary) -> Seq<char> {
    "[progress] dataset="@ + ds.dataset@ + " scanned="@ + text::decimal(ds.items_scanned as nat)
        + " ok="@ + text::decimal(ds.succeeded as nat) + " failed="@ + text::decimal(
        ds.failed as nat,
    ) + " skipped="@ + text::decimal(ds.skipped as nat)
}

pub open spec fn progress_datasets(d: Seq<DatasetReportSummary>) -> Seq<Seq<char>> {
    Seq::new(d.len(), |i: int| progress_dataset(d[i]))
}

pub open spec fn progress_logs(l: Seq<Seq<char>>) -> Seq<Seq<char>> {
    Seq::new(l.len(), |i: int| "[progress] log "@ + l[i])
}

/// The lines on a run that is followed through its report: what it counts, its
/// datasets, and the last lines of its logs.
pub fn progress_lines(rep: &RunReport, runtime: u64, report_path: &str, last_logs: &Vec<String>) -> (r: Vec<
    String,
>)
    ensures
        text::texts(r@) == progress_head(*rep, runtime as nat, report_path@) + progress_datasets(
            rep.datasets@,
        ) + progress_logs(text::texts(last_logs@)),
{
    broadcast use text::lemma_texts_push;

    let mut out: Vec<String> = Vec::new();
    let mut a = "[progress] command=".to_owned();
    a.append(rep.command.as_str());
    a.append(" started=");
    push_signed(&mut a, rep.started_at_unix);
    a.append(" runtime=");
    let t = format_duration(runtime);
    a.append(t.as_str());
    a.append(" report=");
    a.append(report_path);
    out.push(a);
    let mut b = "[progress] totals scanned=".to_owned();
    push_decimal(&mut b, rep.totals_items_scanned as u128);
    b.append(" ok=");
    push_decimal(&mut b, rep.totals_succeeded as u128);
    b.append(" failed=");
    push_decimal(&mut b, rep.totals_failed as u128);
    b.append(" skipped=");
    push_decimal(&mut b, rep.totals_skipped as u128);
    out.push(b);
    let ghost head = progress_head(*rep, runtime as nat, report_path@);
    let ghost ds = progress_datasets(rep.datasets@);
    let ghost logs = progress_logs(text::texts(last_logs@));
    let mut i: usize = 0;
    assert(text::texts(out@) =~= head + ds.take(0));
    while i < rep.datasets.len()
        invariant
            i <= rep.datasets@.len(),
            ds == progress_datasets(rep.datasets@),
            text::texts(out@) == head + ds.take(i as int),
        decreases rep.datasets@.len() - i,
    {
        broadcast use text::lemma_texts_push;

        let d = &rep.datasets[i];
        let mut s = "[progress] dataset=".to_owned();
        s.append(d.dataset.as_str());
        s.append(" scanned=");
        push_decimal(&mut s, d.items_scanned as u128);
        s.append(" ok=");
        push_decimal(&mut s, d.succeeded as u128);
        s.append(" failed=");
        push_decimal(&mut s, d.failed as u128);
        s.append(" skipped=");
        push_decimal(&mut s, d.skipped as u128);
        out.push(s);
        i += 1;
        assert(head + ds.take(i as int) =~= (head + ds.take(i - 1)).push(ds[i - 1]));
    }
    assert(ds.take(i as int) =~= ds);
    let mut k: usize = 0;
    assert(text::texts(out@) =~= head + ds + logs.take(0));
    while k < last_logs.len()
        invariant
            k <= last_logs@.len(),
            logs == progress_logs(text::texts(last_logs@)),
            text::texts(out@) == head + ds + logs.take(k as int),
        decreases last_logs@.len() - k,
    {
        broadcast use text::lemma_texts_push;

        let mut s = "[progress] log ".to_owned();
        s.append(last_logs[k].as_str());
        out.push(s);
        k += 1;
        assert(
            head + ds + logs.take(k as int) =~= (head + ds + logs.take(k - 1)).push(logs[k - 1])
        );
    }
    assert(logs.take(k as int) =~= logs);
    out
}

/// A line of a log, with the log that it stands in.
pub fn log_line(log_path: &str, line: &str) -> (r: String)
    ensures
        r@ == log_path@ + " | "@ + line@,
{
    let mut s = log_path.to_owned();
    s.append(" | ");
    s.append(line);
    s
}

/// The sum over all datasets of the files that are done, and of those to do.
pub open spec fn live_totals(v: Seq<LiveDatasetStatus>) -> (int, int)
    decreases v.len(),
{
    if v.len() == 0 {
        (0, 0)
    } else {
        let t = live_totals(v.drop_last());
        (t.0 + v.last().tally.converted, t.1 + v.last().tally.todo)
    }
}

/// The sum over all datasets of the files that are done, and of those to do.
pub fn sum_live(v: &Vec<LiveDatasetStatus>) -> (r: (u128, u128))
    ensures
        (r.0 as int, r.1 as int) == live_totals(v@),
{
    let mut converted: u128 = 0;
    let mut todo: u128 = 0;
    let mut i: usize = 0;
    assert(v@.take(0) =~= Seq::<LiveDatasetStatus>::empty());
    while i < v.len()
        invariant
            i <= v@.len(),
            (converted as int, todo as int) == live_totals(v@.take(i as int)),
            converted <= i * 0xffff_ffff_ffff_ffff,
            todo <= i * 0xffff_ffff_ffff_ffff,
        decreases v@.len() - i,
    {
        assert(v@.take(i + 1).drop_last() =~= v@.take(i as int));
        converted = converted + v[i].tally.converted as u128;
        todo = todo + v[i].tally.todo as u128;
        i += 1;
    }
    assert(v@.take(i as int) =~= v@);
    (converted, todo)
}

/// How many of the datasets are in a state.
pub open spec fn count_state(v: Seq<LiveDatasetStatus>, s: LiveState) -> nat
    decreases v.len(),
{
    if v.len() == 0 {
        0
    } else {
        count_state(v.drop_last(), s) + (if v.last().state == s {
            1nat
        } else {
            0nat
        })
    }
}

fn count_in_state(v: &Vec<LiveDatasetStatus>, s: LiveState) -> (r: usize)
    ensures
        r == count_state(v@, s),
{
    let mut n: usize = 0;
    let mut i: usize = 0;
    assert(v@.take(0) =~= Seq::<LiveDatasetStatus>::empty());
    while i < v.len()
        invariant
            i <= v@.len(),
            n <= i,
            n == count_state(v@.take(i as int), s),
        decreases v@.len() - i,
    {
        assert(v@.take(i + 1).drop_last() =~= v@.take(i as int));
        if v[i].state == s {
            n += 1;
        }
        i += 1;
    }
    assert(v@.take(i as int) =~= v@);
    n
}

/// How much is done of how much, where anything is to be done.
pub open spec fn share_text(converted: int, todo: int) -> Seq<char> {
    if todo > 0 {
        " ("@ + text::decimal(converted as nat) + " of "@ + text::decimal(todo as nat) + ")"@
    } else {
        Seq::empty()
    }
}

/// How long it will take, where that can be told.
pub open spec fn eta_text(eta: Option<u64>) -> Seq<char> {
    match eta {
        Some(s) => " eta="@ + duration_text(s as nat),
        None => Seq::empty(),
    }
}

fn push_eta(out: &mut String, eta: Option<u64>)
    ensures
        final(out)@ == old(out)@ + eta_text(eta),
{
    let ghost before = out@;
    match eta {
        Some(s) => {
            out.append(" eta=");
            let t = format_duration(s);
            out.append(t.as_str());
            assert(out@ =~= before + eta_text(eta));
        },
        None => {
            assert(out@ =~= before + eta_text(eta));
        },
    }
}

/// Whether it can be told how long a run will take: something is done of what is
/// to do, and time has gone by.
pub open spec fn can_estimate(converted: int, todo: int, runtime: nat) -> bool {
    todo > 0 && converted > 0 && runtime > 0
}

/// Whether it can be told how long a run will take.
pub fn may_estimate(converted: u128, todo: u128, runtime: u64) -> (r: bool)
    ensures
        r == can_estimate(converted as int, todo as int, runtime as nat),
{
    todo > 0 && converted > 0 && runtime > 0
}

/// The first lines on a run that is under way.
pub open spec fn live_head(
    command: Seq<char>,
    pid: u32,
    started: i64,
    runtime: u64,
    v: Seq<LiveDatasetStatus>,
    eta: Option<u64>,
) -> Seq<Seq<char>> {
    seq![
        "[progress] command="@ + command + " pid="@ + text::decimal(pid as nat) + " started="@
            + text::signed_decimal(started as int) + " runtime="@ + duration_text(runtime as nat)
            + share_text(live_totals(v).0, live_totals(v).1) + eta_text(eta),
        "[progress] datasets: done="@ + text::decimal(count_state(v, LiveState::Done))
            + " in-progress="@ + text::decimal(count_state(v, LiveState::InProgress)) + " pending="@
            + text::decimal(count_state(v, LiveState::Pending)) + " error="@ + text::decimal(
            count_state(v, LiveState::Error),
        ),
    ]
}

/// The first lines on a run that is under way; `eta` is how long it will take,
/// where that can be told.
pub fn live_head_lines(
    command: &str,
    pid: u32,
    started: i64,
    runtime: u64,
    v: &Vec<LiveDatasetStatus>,
    eta: Option<u64>,
) -> (r: Vec<String>)
    ensures
        text::texts(r@) == live_head(command@, pid, started, runtime, v@, eta),
{
    broadcast use text::lemma_texts_push;

    let (converted, todo) = sum_live(v);
    let mut out: Vec<String> = Vec::new();
    let mut a = "[progress] command=".to_owned();
    a.append(command);
    a.append(" pid=");
    push_decimal(&mut a, pid as u128);
    a.append(" started=");
    push_signed(&mut a, started);
    a.append(" runtime=");
    let t = format_duration(runtime);
    a.append(t.as_str());
    let ghost front = a@;
    if todo > 0 {
        a.append(" (");
        push_decimal(&mut a, converted);
        a.append(" of ");
        push_decimal(&mut a, todo);
        a.append(")");
    }
    assert(a@ =~= front + share_text(live_totals(v@).0, live_totals(v@).1));
    push_eta(&mut a, eta);
    out.push(a);
    let mut b = "[progress] datasets: done=".to_owned();
    push_decimal(&mut b, count_in_state(v, LiveState::Done) as u128);
    b.append(" in-progress=");
    push_decimal(&mut b, count_in_state(v, LiveState::InProgress) as u128);
    b.append(" pending=");
    push_decimal(&mut b, count_in_state(v, LiveState::Pending) as u128);
    b.append(" error=");
    push_decimal(&mut b, count_in_state(v, LiveState::Error) as u128);
    out.push(b);
    assert(text::texts(out@) =~= live_head(command@, pid, started, runtime, v@, eta));
    out
}

/// A line of a log without the time and the command in front of it.
pub open spec fn log_message(line: Seq<char>) -> Seq<char> {
    let rest = text::after_char(line, ' ');
    if line.contains(' ') && rest.contains(' ') {
        text::after_char(rest, ' ')
    } else {
        line
    }
}

fn strip_log_prefix(line: &str) -> (r: String)
    ensures
        r@ == log_message(line@),
{
    let v = chars_of(line);
    match find_char(&v, ' ') {
        None => line.to_owned(),
        Some(i) => {
            assert(line@[i as int] == ' ');
            let (_, rest) = part_at(line, ' ');
            let w = chars_of(rest.as_str());
            match find_char(&w, ' ') {
                None => line.to_owned(),
                Some(j) => {
                    assert(rest@[j as int] == ' ');
                    let (_, message) = part_at(rest.as_str(), ' ');
                    message
                },
            }
        },
    }
}

/// How far a dataset has come, in numbers.
pub open spec fn dataset_share(t: progress::LogTally) -> Seq<char> {
    if t.todo > 0 {
        share_text(t.converted as int, t.todo as int)
    } else if t.converted > 0 {
        " converted="@ + text::decimal(t.converted as nat)
    } else {
        Seq::empty()
    }
}

/// What a dataset counted, where it counted anything.
pub open spec fn dataset_counts(t: progress::LogTally) -> Seq<char> {
    if t.ok > 0 || t.failed > 0 || t.skipped > 0 {
        " ok="@ + text::decimal(t.ok as nat) + " failed="@ + text::decimal(t.failed as nat)
            + " skipped="@ + text::decimal(t.skipped as nat)
    } else {
        Seq::empty()
    }
}

/// The lines on a dataset: none before it has begun, and the last of its log
/// until it is done.
pub open spec fn live_dataset(ds: LiveDatasetStatus, eta: Option<u64>) -> Seq<Seq<char>> {
    if ds.state == LiveState::Pending && ds.last_log@.len() == 0 {
        Seq::empty()
    } else {
        seq![
            "[progress] dataset="@ + ds.dataset@ + " status="@ + progress::state_word(ds.state)
                + dataset_share(ds.tally) + eta_text(eta) + dataset_counts(ds.tally),
        ] + (if ds.last_log@.len() > 0 && ds.state != LiveState::Done {
            seq!["          "@ + log_message(ds.last_log@)]
        } else {
            Seq::empty()
        })
    }
}

/// The lines on a dataset; `eta` is how long it will take, where that can be told.
pub fn live_dataset_lines(ds: &LiveDatasetStatus, eta: Option<u64>) -> (r: Vec<String>)
    ensures
        text::texts(r@) == live_dataset(*ds, eta),
{
    broadcast use text::lemma_texts_push;

    let mut out: Vec<String> = Vec::new();
    assert(text::texts(out@) =~= Seq::<Seq<char>>::empty());
    let silent = ds.last_log.as_str().is_empty();
    if ds.state == LiveState::Pending && silent {
        return out;
    }
    let mut s = "[progress] dataset=".to_owned();
    s.append(ds.dataset.as_str());
    s.append(" status=");
    let word = ds.state.word();
    s.append(word.as_str());
    let ghost front = s@;
    if ds.tally.todo > 0 {
        s.append(" (");
        push_decimal(&mut s, ds.tally.converted as u128);
        s.append(" of ");
        push_decimal(&mut s, ds.tally.todo as u128);
        s.append(")");
    } else if ds.tally.converted > 0 {
        s.append(" converted=");
        push_decimal(&mut s, ds.tally.converted as u128);
    }
    assert(s@ =~= front + dataset_share(ds.tally));
    push_eta(&mut s, eta);
    let ghost middle = s@;
    if ds.tally.ok > 0 || ds.tally.failed > 0 || ds.tally.skipped > 0 {
        s.append(" ok=");
        push_decimal(&mut s, ds.tally.ok as u128);
        s.append(" failed=");
        push_decimal(&mut s, ds.tally.failed as u128);
        s.append(" skipped=");
        push_decimal(&mut s, ds.tally.skipped as u128);
    }
    assert(s@ =~= middle + dataset_counts(ds.tally));
    out.push(s);
    if !silent && ds.state != LiveState::Done {
        let message = strip_log_prefix(ds.last_log.as_str());
        let mut m = "          ".to_owned();
        m.append(message.as_str());
        out.push(m);
    }
    assert(text::texts(out@) =~= live_dataset(*ds, eta));
    out
}

/// A duration is shown in hours, minutes and seconds, from the first of these that is
/// not zero, with two places for what follows it.
pub proof fn law_durations(h: nat, m: nat, s: nat)
    requires
        m < 60,
        s < 60,
    ensures
        h > 0 ==> duration_text(h * 3600 + m * 60 + s) == text::decimal(h) + "h"@
            + text::zero_padded(m, 2) + "m"@ + text::zero_padded(s, 2) + "s"@,
        m > 0 ==> duration_text(m * 60 + s) == text::decimal(m) + "m"@ + text::zero_padded(s, 2)
            + "s"@,
        duration_text(s) == text::decimal(s) + "s"@,
{
    let t = h * 3600 + m * 60 + s;
    assert(t / 3600 == h && t % 3600 == m * 60 + s && t % 60 == s) by (nonlinear_arith)
        requires
            t == h * 3600 + m * 60 + s,
            m < 60,
            s < 60,
    ;
    assert((m * 60 + s) / 60 == m && (m * 60 + s) % 60 == s && (m * 60 + s) / 3600 == 0);
    assert((m * 60 + s) % 3600 == m * 60 + s);
    assert(s / 3600 == 0 && s % 3600 == s && s / 60 == 0 && s % 60 == s);
}

/// A run takes as long as it says or, while it runs, as long as it has been running,
/// and never less than nothing.
pub proof fn law_runtimes(duration: i64, started: i64, now: i64)
    ensures
        duration >= 0 ==> runtime_of(Some(duration), started, now) == duration,
        duration < 0 ==> runtime_of(Some(duration), started, now) == 0,
        now >= started ==> runtime_of(None, started, now) == now - started,
        now < started ==> runtime_of(None, started, now) == 0,
        duration_cell(None) == "-"@,
        duration >= 0 ==> duration_cell(Some(duration)) == duration_text(duration as nat),
{
}

/// A number is brought to the right end of a column by spaces before it.
pub proof fn law_right(s: Seq<char>, width: nat)
    ensures
        s.len() >= width ==> right(s, width) == s,
        s.len() <= width ==> right(s, width).len() == width,
        right(s, width).skip(right(s, width).len() - s.len()) == s,
        forall|i: int|
            0 <= i < right(s, width).len() - s.len() ==> #[trigger] right(s, width)[i] == ' ',
{
    assert(right(s, width).skip(right(s, width).len() - s.len()) =~= s);
}

/// A run is in order exactly where nothing failed.
pub proof fn law_outcome_words(failed: u64)
    ensures
        outcome_word(0) == "ok"@,
        failed != 0 ==> outcome_word(failed) == "FAILED"@,
{
}

/// What is done and what is to do add up over the datasets, and each dataset counts for
/// its own state.
pub proof fn law_live_totals(v: Seq<LiveDatasetStatus>, x: LiveDatasetStatus, s: LiveState)
    ensures
        live_totals(Seq::empty()) == (0int, 0int),
        live_totals(v.push(x)).0 == live_totals(v).0 + x.tally.converted,
        live_totals(v.push(x)).1 == live_totals(v).1 + x.tally.todo,
        count_state(Seq::empty(), s) == 0,
        x.state == s ==> count_state(v.push(x), s) == count_state(v, s) + 1,
        x.state != s ==> count_state(v.push(x), s) == count_state(v, s),
{
    assert(v.push(x).drop_last() =~= v);
}

/// Each dataset is in one of the four states.
pub proof fn law_states_add_up(v: Seq<LiveDatasetStatus>)
    ensures
        count_state(v, LiveState::Done) + count_state(v, LiveState::InProgress) + count_state(
            v,
            LiveState::Pending,
        ) + count_state(v, LiveState::Error) == v.len(),
    decreases v.len(),
{
    if v.len() > 0 {
        law_states_add_up(v.drop_last());
    }
}

/// How long a run will take can be told once time has gone by in which something was
/// done of what is to do.
pub proof fn law_estimates(converted: nat, todo: nat, runtime: nat)
    ensures
        converted == 0 || todo == 0 || runtime == 0 ==> !can_estimate(
            converted as int,
            todo as int,
            runtime,
        ),
        converted > 0 && todo > 0 && runtime > 0 ==> can_estimate(
            converted as int,
            todo as int,
            runtime,
        ),
{
}

/// The message of a line of a log stands behind its date and its time.
pub proof fn law_message_of_a_line(date: Seq<char>, time: Seq<char>, message: Seq<char>)
    requires
        !date.contains(' '),
        !time.contains(' '),
    ensures
        log_message(date + seq![' '] + (time + seq![' '] + message)) == message,
        log_message(date) == date,
        log_message(date + seq![' '] + time) == date + seq![' '] + time,
{
    let rest = time + seq![' '] + message;
    let line = date + seq![' '] + rest;
    text::law_parted(date, ' ', rest);
    text::law_parted(time, ' ', message);
    text::law_parted(date, ' ', time);
    assert(line[date.len() as int] == ' ');
    assert(rest[time.len() as int] == ' ');
}

/// A dataset that has told nothing is not shown; the last line of its log is, as long as
/// it is not done.
pub proof fn law_lines_on_a_dataset(ds: LiveDatasetStatus, eta: Option<u64>)
    ensures
        ds.state == LiveState::Pending && ds.last_log@.len() == 0 ==> live_dataset(ds, eta).len()
            == 0,
        ds.last_log@.len() > 0 && ds.state != LiveState::Done ==> live_dataset(ds, eta).len() == 2
            && live_dataset(ds, eta)[1] == "          "@ + log_message(ds.last_log@),
        ds.last_log@.len() == 0 && ds.state != LiveState::Pending ==> live_dataset(ds, eta).len()
            == 1,
        ds.state == LiveState::Done ==> live_dataset(ds, eta).len() == 1,
{
}

/// What is shown of the state of a dataset: what is done of what is to do, or what is
/// done where that is all that is known, and what went well, failed and was skipped once
/// any of it is known.
pub proof fn law_numbers_on_a_dataset(t: progress::LogTally)
    ensures
        t.todo > 0 ==> dataset_share(t) == " ("@ + text::decimal(t.converted as nat) + " of "@
            + text::decimal(t.todo as nat) + ")"@,
        t.todo == 0 && t.converted > 0 ==> dataset_share(t) == " converted="@ + text::decimal(
            t.converted as nat,
        ),
        t.todo == 0 && t.converted == 0 ==> dataset_share(t).len() == 0,
        t.ok + t.failed + t.skipped > 0 ==> dataset_counts(t) == " ok="@ + text::decimal(
            t.ok as nat,
        ) + " failed="@ + text::decimal(t.failed as nat) + " skipped="@ + text::decimal(
            t.skipped as nat,
        ),
        t.ok + t.failed + t.skipped == 0 ==> dataset_counts(t).len() == 0,
{
}

/// A report is shown by its datasets under a head of two lines, one line each; by its
/// steps where it has none; and by its totals where it has neither.
pub proof fn law_body_of_a_report(rep: RunReport, i: int)
    ensures
        rep.datasets@.len() > 0 ==> body_texts(rep).len() == rep.datasets@.len() + 2 && (0 <= i
            < rep.datasets@.len() ==> body_texts(rep)[i + 2] == dataset_text(rep.datasets@[i])),
        rep.datasets@.len() == 0 && rep.step_runs@.len() > 0 ==> body_texts(rep).len()
            == rep.step_runs@.len() && (0 <= i < rep.step_runs@.len() ==> body_texts(rep)[i]
            == "  "@ + text::padded(rep.step_runs@[i].step@, 22) + " "@ + rep.step_runs@[i].status@),
        rep.datasets@.len() == 0 && rep.step_runs@.len() == 0 ==> body_texts(rep) == seq![
            "  totals: scanned="@ + text::decimal(rep.totals_items_scanned as nat) + " ok="@
                + text::decimal(rep.totals_succeeded as nat) + " failed="@ + text::decimal(
                rep.totals_failed as nat,
            ) + " skipped="@ + text::decimal(rep.totals_skipped as nat),
        ],
{
}

/// Behind the name of a dataset stand, in columns of eight, how many of its files were
/// scanned, went well, failed and were skipped, and a mark where any failed.
pub proof fn law_columns_of_a_dataset(ds: DatasetReportSummary)
    requires
        ds.dataset@.len() <= 22,
        text::decimal(ds.items_scanned as nat).len() <= 8,
        text::decimal(ds.succeeded as nat).len() <= 8,
        text::decimal(ds.failed as nat).len() <= 8,
        text::decimal(ds.skipped as nat).len() <= 8,
    ensures
        dataset_text(ds).subrange(2, 2 + ds.dataset@.len() as int) == ds.dataset@,
        dataset_text(ds).subrange(25, 33) == right(text::decimal(ds.items_scanned as nat), 8),
        dataset_text(ds).subrange(34, 42) == right(text::decimal(ds.succeeded as nat), 8),
        dataset_text(ds).subrange(43, 51) == right(text::decimal(ds.failed as nat), 8),
        dataset_text(ds).subrange(52, 60) == right(text::decimal(ds.skipped as nat), 8),
        ds.failed > 0 ==> dataset_text(ds).skip(60) == "  !"@,
        ds.failed == 0 ==> dataset_text(ds).len() == 60,
{
    reveal_strlit("  ");
    reveal_strlit(" ");
    reveal_strlit("  !");
    reveal_strlit("");
    let t = dataset_text(ds);
    law_right(text::decimal(ds.items_scanned as nat), 8);
    law_right(text::decimal(ds.succeeded as nat), 8);
    law_right(text::decimal(ds.failed as nat), 8);
    law_right(text::decimal(ds.skipped as nat), 8);
    text::law_padded(ds.dataset@, 22);
    assert(t.subrange(2, 2 + ds.dataset@.len() as int) =~= ds.dataset@);
    assert(t.subrange(25, 33) =~= right(text::decimal(ds.items_scanned as nat), 8));
    assert(t.subrange(34, 42) =~= right(text::decimal(ds.succeeded as nat), 8));
    assert(t.subrange(43, 51) =~= right(text::decimal(ds.failed as nat), 8));
    assert(t.subrange(52, 60) =~= right(text::decimal(ds.skipped as nat), 8));
    if ds.failed > 0 {
        assert(t.skip(60) =~= "  !"@);
    }
}
/// The line on a report gives, in columns of fixed widths, its kind, its command, its
/// outcome, what failed, went well and was skipped, its start and its duration.
pub proof fn law_line_on_a_report(
    kind: Seq<char>,
    rep: RunReport,
    started: Seq<char>,
    path: Seq<char>,
)
    requires
        kind.len() <= 15,
        rep.command@.len() <= 18,
        text::decimal(rep.totals_failed as nat).len() <= 8,
        text::decimal(rep.totals_succeeded as nat).len() <= 10,
        text::decimal(rep.totals_skipped as nat).len() <= 8,
        started.len() <= 19,
    ensures
        ({
            let t = summary_text(kind, rep, started, path);
            &&& t.subrange(0, 15) == text::padded(kind, 15)
            &&& t.subrange(16, 34) == text::padded(rep.command@, 18)
            &&& t.subrange(35, 43) == text::padded(outcome_word(rep.totals_failed), 8)
            &&& t.subrange(44, 52) == right(text::decimal(rep.totals_failed as nat), 8)
            &&& t.subrange(53, 63) == right(text::decimal(rep.totals_succeeded as nat), 10)
            &&& t.subrange(64, 72) == right(text::decimal(rep.totals_skipped as nat), 8)
            &&& t.subrange(73, 92) == text::padded(started, 19)
            &&& t.skip(93) == right(duration_cell(rep.duration_seconds), 8) + "  "@ + path
        }),
{
    reveal_strlit(" ");
    reveal_strlit("  ");
    reveal_strlit("ok");
    reveal_strlit("FAILED");
    assert("ok"@.len() == 2 && "FAILED"@.len() == 6);
    text::law_padded(kind, 15);
    text::law_padded(rep.command@, 18);
    text::law_padded(outcome_word(rep.totals_failed), 8);
    text::law_padded(started, 19);
    law_right(text::decimal(rep.totals_failed as nat), 8);
    law_right(text::decimal(rep.totals_succeeded as nat), 10);
    law_right(text::decimal(rep.totals_skipped as nat), 8);
    let t = summary_text(kind, rep, started, path);
    assert(t.subrange(0, 15) =~= text::padded(kind, 15));
    assert(t.subrange(16, 34) =~= text::padded(rep.command@, 18));
    assert(t.subrange(35, 43) =~= text::padded(outcome_word(rep.totals_failed), 8));
    assert(t.subrange(44, 52) =~= right(text::decimal(rep.totals_failed as nat), 8));
    assert(t.subrange(53, 63) =~= right(text::decimal(rep.totals_succeeded as nat), 10));
    assert(t.subrange(64, 72) =~= right(text::decimal(rep.totals_skipped as nat), 8));
    assert(t.subrange(73, 92) =~= text::padded(started, 19));
    assert(t.skip(93) =~= right(duration_cell(rep.duration_seconds), 8) + "  "@ + path);
}

/// What is shown of a run and of its datasets gives each number under its own name.
pub proof fn law_numbers_of_a_run(
    rep: RunReport,
    runtime: nat,
    report_path: Seq<char>,
    ds: DatasetReportSummary,
    started: Seq<char>,
    file_name: Seq<char>,
)
    ensures
        progress_head(rep, runtime, report_path).len() == 2,
        progress_head(rep, runtime, report_path)[0] == "[progress] command="@ + rep.command@
            + " started="@ + text::signed_decimal(rep.started_at_unix as int) + " runtime="@
            + duration_text(runtime) + " report="@ + report_path,
        progress_head(rep, runtime, report_path)[1] == "[progress] totals scanned="@ + text::decimal(
            rep.totals_items_scanned as nat,
        ) + " ok="@ + text::decimal(rep.totals_succeeded as nat) + " failed="@ + text::decimal(
            rep.totals_failed as nat,
        ) + " skipped="@ + text::decimal(rep.totals_skipped as nat),
        progress_dataset(ds) == "[progress] dataset="@ + ds.dataset@ + " scanned="@ + text::decimal(
            ds.items_scanned as nat,
        ) + " ok="@ + text::decimal(ds.succeeded as nat) + " failed="@ + text::decimal(
            ds.failed as nat,
        ) + " skipped="@ + text::decimal(ds.skipped as nat),
        header_text(rep, started, file_name) == "=== "@ + rep.command@ + " ["@ + started + "  "@
            + duration_cell(rep.duration_seconds) + "  "@ + outcome_word(rep.totals_failed)
            + "]  "@ + file_name,
{
}

/// What is shown of a run under way: what runs, since when and how far it is, and how many
/// datasets are in each state.
pub proof fn law_head_of_a_live_run(
    command: Seq<char>,
    pid: u32,
    started: i64,
    runtime: u64,
    v: Seq<LiveDatasetStatus>,
    left: u64,
)
    requires
        live_totals(v).1 > 0,
    ensures
        live_head(command, pid, started, runtime, v, Some(left)).len() == 2,
        live_head(command, pid, started, runtime, v, Some(left))[0] == "[progress] command="@
            + command + " pid="@ + text::decimal(pid as nat) + " started="@ + text::signed_decimal(
            started as int,
        ) + " runtime="@ + duration_text(runtime as nat) + (" ("@ + text::decimal(
            live_totals(v).0 as nat,
        ) + " of "@ + text::decimal(live_totals(v).1 as nat) + ")"@) + (" eta="@ + duration_text(
            left as nat,
        )),
        live_head(command, pid, started, runtime, v, Some(left))[1] == "[progress] datasets: done="@
            + text::decimal(count_state(v, LiveState::Done)) + " in-progress="@ + text::decimal(
            count_state(v, LiveState::InProgress),
        ) + " pending="@ + text::decimal(count_state(v, LiveState::Pending)) + " error="@
            + text::decimal(count_state(v, LiveState::Error)),
        eta_text(None).len() == 0,
        share_text(live_totals(v).0, 0).len() == 0,
{
}
} // verus!
