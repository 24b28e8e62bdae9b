//! Choosing among stored reports: which are old, which one is in progress.

use vstd::prelude::*;
use vstd::string::*;
use crate::layout;
use crate::order::sorted_set;
use crate::order;
use crate::paths::file_name;
use crate::paths;
use crate::report::{
    canonical_command_name, copy_option, sanitize_command_name, FailureEntry, ReportRecord,
    RunReport, StepRunSummary,
};
use crate::report;
use crate::text::{ends_with, split_lines, starts_with, str_before, str_eq};
use crate::text;

verus! {

/// Whether record `j` is a newer report of the command of record `i`; of two
/// with one timestamp the earlier in the list counts as newer.
pub open spec fn is_newer(
    recs: Seq<ReportRecord>,
    command: Option<Seq<char>>,
    j: int,
    i: int,
) -> bool {
    &&& report::of_command(recs[j], command)
    &&& recs[j].report.command@ == recs[i].report.command@
    &&& recs[j].timestamp > recs[i].timestamp || (recs[j].timestamp == recs[i].timestamp && j < i)
}

/// How many of the first `n` records are newer reports of the command of record
/// `i`.
pub open spec fn newer_count(
    recs: Seq<ReportRecord>,
    command: Option<Seq<char>>,
    i: int,
    n: int,
) -> int
    decreases n,
{
    if n <= 0 {
        0
    } else {
        newer_count(recs, command, i, n - 1) + (if is_newer(recs, command, n - 1, i) {
            1int
        } else {
            0
        })
    }
}

/// Whether record `i` is among the newest `keep` of its command.
pub open spec fn is_kept(
    recs: Seq<ReportRecord>,
    command: Option<Seq<char>>,
    keep: int,
    i: int,
) -> bool {
    newer_count(recs, command, i, recs.len() as int) < keep
}

/// How many of the first `n` records are kept.
pub open spec fn kept_count(
    recs: Seq<ReportRecord>,
    command: Option<Seq<char>>,
    keep: int,
    n: int,
) -> int
    decreases n,
{
    if n <= 0 {
        0
    } else {
        kept_count(recs, command, keep, n - 1) + (if report::of_command(recs[n - 1], command)
            && is_kept(recs, command, keep, n - 1) {
            1int
        } else {
            0
        })
    }
}

/// Whether record `i` is pruned and has the file name `name`.
pub open spec fn prunes(
    recs: Seq<ReportRecord>,
    command: Option<Seq<char>>,
    keep: int,
    i: int,
    name: Seq<char>,
) -> bool {
    &&& 0 <= i < recs.len()
    &&& report::of_command(recs[i], command)
    &&& !is_kept(recs, command, keep, i)
    &&& paths::file_name_of(recs[i].path@) == Some(name)
}

/// Whether one of the first `n` records is pruned and has the file name `name`.
pub open spec fn pruned_within(
    recs: Seq<ReportRecord>,
    command: Option<Seq<char>>,
    keep: int,
    n: int,
    name: Seq<char>,
) -> bool {
    exists|i: int| i < n && #[trigger] prunes(recs, command, keep, i, name)
}

/// How many reports of a command are kept: as many as asked for, at least one.
pub open spec fn at_least_one(keep_per_command: usize) -> int {
    if keep_per_command >= 1 {
        keep_per_command as int
    } else {
        1
    }
}

/// Which report files go, and how many stay.
pub struct PrunePlan {
    pub kept: usize,
    pub names: Vec<String>,
}

fn is_of_command(rec: &ReportRecord, command: &Option<String>) -> (r: bool)
    ensures
        r == report::of_command(*rec, report::opt(*command)),
{
    match command {
        Some(c) => str_eq(rec.report.command.as_str(), c.as_str()),
        None => true,
    }
}

fn count_newer(recs: &Vec<ReportRecord>, command: &Option<String>, i: usize) -> (r: usize)
    requires
        i < recs@.len(),
    ensures
        r == newer_count(recs@, report::opt(*command), i as int, recs@.len() as int),
{
    let mut n: usize = 0;
    let mut j: usize = 0;
    while j < recs.len()
        invariant
            i < recs@.len(),
            j <= recs@.len(),
            n <= j,
            n == newer_count(recs@, report::opt(*command), i as int, j as int),
        decreases recs@.len() - j,
    {
        if is_of_command(&recs[j], command) && str_eq(
            recs[j].report.command.as_str(),
            recs[i].report.command.as_str(),
        ) && (recs[j].timestamp > recs[i].timestamp || (recs[j].timestamp == recs[i].timestamp && j
            < i)) {
            n += 1;
        }
        j += 1;
    }
    n
}

/// Which reports are pruned when the newest `keep_per_command` of each command,
/// and at least one, are kept.
pub fn prune_plan(
    recs: &Vec<ReportRecord>,
    command: &Option<String>,
    keep_per_command: usize,
) -> (r: PrunePlan)
    ensures
        r.kept == kept_count(
            recs@,
            report::opt(*command),
            at_least_one(keep_per_command),
            recs@.len() as int,
        ),
        order::strictly_ascending(text::texts(r.names@)),
        forall|name: Seq<char>| #[trigger]
            text::texts(r.names@).contains(name) <==> pruned_within(
                recs@,
                report::opt(*command),
                at_least_one(keep_per_command),
                recs@.len() as int,
                name,
            ),
{
    broadcast use text::lemma_texts_push;

    let keep: usize = if keep_per_command >= 1 {
        keep_per_command
    } else {
        1
    };
    let ghost cmd = report::opt(*command);
    let ghost k = at_least_one(keep_per_command);
    let mut kept: usize = 0;
    let mut names: Vec<String> = Vec::new();
    let mut i: usize = 0;
    while i < recs.len()
        invariant
            i <= recs@.len(),
            kept <= i,
            cmd == report::opt(*command),
            k == keep,
            kept == kept_count(recs@, cmd, k, i as int),
            forall|name: Seq<char>| #[trigger]
                text::texts(names@).contains(name) <==> pruned_within(
                    recs@,
                    cmd,
                    k,
                    i as int,
                    name,
                ),
        decreases recs@.len() - i,
    {
        let ghost o = text::texts(names@);
        let ghost mut added: Option<Seq<char>> = None;
        if is_of_command(&recs[i], command) {
            if count_newer(recs, command, i) < keep {
                kept += 1;
            } else {
                match file_name(recs[i].path.as_str()) {
                    Some(name) => {
                        proof {
                            added = Some(name@);
                        }
                        names.push(name);
                    },
                    None => {},
                }
            }
        }
        proof {
            let n = text::texts(names@);
            assert forall|name: Seq<char>| #[trigger] n.contains(name) <==> pruned_within(
                recs@,
                cmd,
                k,
                i + 1,
                name,
            ) by {
                if n.contains(name) {
                    let m = choose|m: int| 0 <= m < n.len() && n[m] == name;
                    if m < o.len() {
                        assert(o[m] == name);
                        assert(o.contains(name));
                        let x = choose|x: int| x < i && prunes(recs@, cmd, k, x, name);
                        assert(prunes(recs@, cmd, k, x, name));
                    } else {
                        assert(prunes(recs@, cmd, k, i as int, name));
                    }
                }
                if pruned_within(recs@, cmd, k, i + 1, name) {
                    let x = choose|x: int| x < i + 1 && prunes(recs@, cmd, k, x, name);
                    assert(prunes(recs@, cmd, k, x, name));
                    if x < i {
                        assert(pruned_within(recs@, cmd, k, i as int, name));
                        assert(o.contains(name));
                        let m = choose|m: int| 0 <= m < o.len() && o[m] == name;
                        assert(n[m] == name);
                    } else {
                        assert(added == Some(name));
                        assert(n[n.len() - 1] == name);
                    }
                }
            }
        }
        i += 1;
    }
    let sorted = sorted_set(&names);
    PrunePlan { kept, names: sorted }
}

/// The newest report of a command is never pruned.
pub proof fn law_newest_report_is_kept(
    recs: Seq<ReportRecord>,
    command: Option<Seq<char>>,
    keep: int,
    i: int,
)
    requires
        0 <= i < recs.len(),
        keep >= 1,
        report::of_command(recs[i], command),
        report::is_newest(recs, command, i),
    ensures
        is_kept(recs, command, keep, i),
{
    lemma_nothing_newer(recs, command, i, recs.len() as int);
}

proof fn lemma_nothing_newer(
    recs: Seq<ReportRecord>,
    command: Option<Seq<char>>,
    i: int,
    n: int,
)
    requires
        0 <= i < recs.len(),
        0 <= n <= recs.len(),
        report::is_newest(recs, command, i),
    ensures
        newer_count(recs, command, i, n) == 0,
    decreases n,
{
    if n > 0 {
        lemma_nothing_newer(recs, command, i, n - 1);
        assert(recs[n - 1] == recs[n - 1]);
    }
}

/// Whether record `i` is the newest of the flagged ones; of several with one
/// timestamp, the first.
pub open spec fn is_first_newest(recs: Seq<ReportRecord>, flags: Seq<bool>, i: int) -> bool {
    &&& 0 <= i < recs.len()
    &&& flags[i]
    &&& forall|j: int|
        0 <= j < recs.len() && #[trigger] flags[j] ==> recs[j].timestamp < recs[i].timestamp || (
        recs[j].timestamp == recs[i].timestamp && j >= i)
}

/// As `is_first_newest`; of several with one timestamp, the last.
pub open spec fn is_last_newest(recs: Seq<ReportRecord>, flags: Seq<bool>, i: int) -> bool {
    &&& 0 <= i < recs.len()
    &&& flags[i]
    &&& forall|j: int|
        0 <= j < recs.len() && #[trigger] flags[j] ==> recs[j].timestamp < recs[i].timestamp || (
        recs[j].timestamp == recs[i].timestamp && j <= i)
}

fn first_newest(recs: &Vec<ReportRecord>, flags: &Vec<bool>) -> (r: Option<usize>)
    requires
        flags@.len() == recs@.len(),
    ensures
        match r {
            Some(i) => is_first_newest(recs@, flags@, i as int),
            None => forall|j: int| 0 <= j < flags@.len() ==> !#[trigger] flags@[j],
        },
{
    let mut best: Option<usize> = None;
    let mut i: usize = 0;
    while i < recs.len()
        invariant
            i <= recs@.len(),
            flags@.len() == recs@.len(),
            match best {
                Some(b) => {
                    &&& b < i
                    &&& flags@[b as int]
                    &&& forall|j: int|
                        0 <= j < i && #[trigger] flags@[j] ==> recs@[j].timestamp
                            < recs@[b as int].timestamp || (recs@[j].timestamp
                            == recs@[b as int].timestamp && j >= b)
                },
                None => forall|j: int| 0 <= j < i ==> !#[trigger] flags@[j],
            },
        decreases recs@.len() - i,
    {
        if flags[i] {
            best = match best {
                Some(b) => if recs[i].timestamp > recs[b].timestamp {
                    Some(i)
                } else {
                    Some(b)
                },
                None => Some(i),
            };
        }
        i += 1;
    }
    best
}

fn last_newest(recs: &Vec<ReportRecord>, flags: &Vec<bool>) -> (r: Option<usize>)
    requires
        flags@.len() == recs@.len(),
    ensures
        match r {
            Some(i) => is_last_newest(recs@, flags@, i as int),
            None => forall|j: int| 0 <= j < flags@.len() ==> !#[trigger] flags@[j],
        },
{
    let mut best: Option<usize> = None;
    let mut i: usize = 0;
    while i < recs.len()
        invariant
            i <= recs@.len(),
            flags@.len() == recs@.len(),
            match best {
                Some(b) => {
                    &&& b < i
                    &&& flags@[b as int]
                    &&& forall|j: int|
                        0 <= j < i && #[trigger] flags@[j] ==> recs@[j].timestamp
                            < recs@[b as int].timestamp || (recs@[j].timestamp
                            == recs@[b as int].timestamp && j <= b)
                },
                None => forall|j: int| 0 <= j < i ==> !#[trigger] flags@[j],
            },
        decreases recs@.len() - i,
    {
        if flags[i] {
            best = match best {
                Some(b) => if recs[i].timestamp >= recs[b].timestamp {
                    Some(i)
                } else {
                    Some(b)
                },
                None => Some(i),
            };
        }
        i += 1;
    }
    best
}

/// Whether a report says anything of a dataset.
pub open spec fn mentions(rep: RunReport, dataset: Seq<char>) -> bool {
    ||| exists|i: int| 0 <= i < rep.datasets@.len() && (#[trigger] rep.datasets@[i]).dataset@ == dataset
    ||| exists|i: int| 0 <= i < rep.failures@.len() && (#[trigger] rep.failures@[i]).dataset@ == dataset
}

fn mentions_dataset(rep: &RunReport, dataset: &str) -> (r: bool)
    ensures
        r == mentions(*rep, dataset@),
{
    let mut i: usize = 0;
    while i < rep.datasets.len()
        invariant
            i <= rep.datasets@.len(),
            forall|k: int| 0 <= k < i ==> (#[trigger] rep.datasets@[k]).dataset@ != dataset@,
        decreases rep.datasets@.len() - i,
    {
        if str_eq(rep.datasets[i].dataset.as_str(), dataset) {
            return true;
        }
        i += 1;
    }
    let mut j: usize = 0;
    while j < rep.failures.len()
        invariant
            j <= rep.failures@.len(),
            forall|k: int| 0 <= k < j ==> (#[trigger] rep.failures@[k]).dataset@ != dataset@,
        decreases rep.failures@.len() - j,
    {
        if str_eq(rep.failures[j].dataset.as_str(), dataset) {
            return true;
        }
        j += 1;
    }
    false
}

/// Whether a record is one that progress is asked about: of the command, under
/// any of its names, and of the dataset unless that is `all`.
pub open spec fn is_asked_for(
    rec: ReportRecord,
    command: Option<Seq<char>>,
    dataset: Seq<char>,
) -> bool {
    &&& match command {
        Some(c) => report::canonical_name(rec.report.command@) == report::canonical_name(c),
        None => true,
    }
    &&& dataset == "all"@ || mentions(rec.report, dataset)
}

/// Whether one of the times lies at most five minutes back.
pub open spec fn any_recent(mtimes: Seq<i64>, now: i64) -> bool {
    exists|i: int| 0 <= i < mtimes.len() && now - #[trigger] mtimes[i] <= 300
}

fn has_recent(mtimes: &Vec<i64>, now: i64) -> (r: bool)
    ensures
        r == any_recent(mtimes@, now),
{
    let mut i: usize = 0;
    while i < mtimes.len()
        invariant
            i <= mtimes@.len(),
            forall|k: int| 0 <= k < i ==> now - #[trigger] mtimes@[k] > 300,
        decreases mtimes@.len() - i,
    {
        if now as i128 - mtimes[i] as i128 <= 300 {
            return true;
        }
        i += 1;
    }
    false
}

/// Which of the asked-for records have not finished.
pub open spec fn active_flags(
    recs: Seq<ReportRecord>,
    command: Option<Seq<char>>,
    dataset: Seq<char>,
) -> Seq<bool> {
    Seq::new(
        recs.len(),
        |i: int| is_asked_for(recs[i], command, dataset) && recs[i].report.finished_at_unix is None,
    )
}

/// Which of the asked-for records have a log that was written lately.
pub open spec fn recent_flags(
    recs: Seq<ReportRecord>,
    command: Option<Seq<char>>,
    dataset: Seq<char>,
    log_mtimes: Seq<Vec<i64>>,
    now: i64,
) -> Seq<bool> {
    Seq::new(
        recs.len(),
        |i: int| is_asked_for(recs[i], command, dataset) && any_recent(log_mtimes[i]@, now),
    )
}

/// Which record progress is shown of: the newest unfinished one that is asked
/// for, else the newest one with a log written in the last five minutes.
pub fn select_progress_record(
    recs: &Vec<ReportRecord>,
    command: &Option<String>,
    dataset: &str,
    log_mtimes: &Vec<Vec<i64>>,
    now: i64,
) -> (r: Option<usize>)
    requires
        log_mtimes@.len() == recs@.len(),
    ensures
        ({
            let active = active_flags(recs@, report::opt(*command), dataset@);
            let recent = recent_flags(recs@, report::opt(*command), dataset@, log_mtimes@, now);
            match r {
                Some(i) => is_first_newest(recs@, active, i as int) || ((forall|j: int|
                    0 <= j < active.len() ==> !#[trigger] active[j]) && is_first_newest(
                    recs@,
                    recent,
                    i as int,
                )),
                None => (forall|j: int| 0 <= j < active.len() ==> !#[trigger] active[j]) && (forall|
                    j: int,
                | 0 <= j < recent.len() ==> !#[trigger] recent[j]),
            }
        }),
{
    let wanted: Option<String> = match command {
        Some(c) => Some(canonical_command_name(c.as_str())),
        None => None,
    };
    let any_dataset = str_eq(dataset, "all");
    let ghost cmd = report::opt(*command);
    let mut active: Vec<bool> = Vec::new();
    let mut recent: Vec<bool> = Vec::new();
    let mut i: usize = 0;
    while i < recs.len()
        invariant
            i <= recs@.len(),
            log_mtimes@.len() == recs@.len(),
            cmd == report::opt(*command),
            any_dataset == (dataset@ == "all"@),
            match wanted {
                Some(w) => command is Some && w@ == report::canonical_name(command->0@),
                None => command is None,
            },
            active@ == active_flags(recs@, cmd, dataset@).take(i as int),
            recent@ == recent_flags(recs@, cmd, dataset@, log_mtimes@, now).take(i as int),
        decreases recs@.len() - i,
    {
        let of_command = match &wanted {
            Some(w) => {
                let name = canonical_command_name(recs[i].report.command.as_str());
                str_eq(name.as_str(), w.as_str())
            },
            None => true,
        };
        let asked = of_command && (any_dataset || mentions_dataset(&recs[i].report, dataset));
        assert(asked == is_asked_for(recs@[i as int], cmd, dataset@));
        active.push(asked && recs[i].report.finished_at_unix.is_none());
        recent.push(asked && has_recent(&log_mtimes[i], now));
        i += 1;
        assert(active@ =~= active_flags(recs@, cmd, dataset@).take(i as int));
        assert(recent@ =~= recent_flags(recs@, cmd, dataset@, log_mtimes@, now).take(i as int));
    }
    assert(active@ =~= active_flags(recs@, cmd, dataset@));
    assert(recent@ =~= recent_flags(recs@, cmd, dataset@, log_mtimes@, now));
    match first_newest(recs, &active) {
        Some(k) => Some(k),
        None => first_newest(recs, &recent),
    }
}

/// Which records are of a command, under any of its names.
pub open spec fn command_flags(recs: Seq<ReportRecord>, cmd: Seq<char>) -> Seq<bool> {
    Seq::new(
        recs.len(),
        |i: int| report::canonical_name(recs[i].report.command@) == report::canonical_name(cmd),
    )
}

/// The newest record of a command, under any of its names; of several with one
/// timestamp, the last.
pub fn latest_report_path_for_command(recs: &Vec<ReportRecord>, cmd: &str) -> (r: Option<usize>)
    ensures
        match r {
            Some(i) => is_last_newest(recs@, command_flags(recs@, cmd@), i as int),
            None => forall|j: int|
                0 <= j < recs@.len() ==> !#[trigger] command_flags(recs@, cmd@)[j],
        },
{
    let wanted = canonical_command_name(cmd);
    let mut flags: Vec<bool> = Vec::new();
    let mut i: usize = 0;
    while i < recs.len()
        invariant
            i <= recs@.len(),
            wanted@ == report::canonical_name(cmd@),
            flags@ == command_flags(recs@, cmd@).take(i as int),
        decreases recs@.len() - i,
    {
        let name = canonical_command_name(recs[i].report.command.as_str());
        flags.push(str_eq(name.as_str(), wanted.as_str()));
        i += 1;
        assert(flags@ =~= command_flags(recs@, cmd@).take(i as int));
    }
    assert(flags@ =~= command_flags(recs@, cmd@));
    last_newest(recs, &flags)
}

/// Whether a file name is that of a report of a command.
pub open spec fn is_report_name(name: Seq<char>, command: Seq<char>) -> bool {
    text::has_prefix(name, report::sanitized(command) + "-"@) && text::has_suffix(name, ".json"@)
}

/// Whether a file name is that of a report of a command.
pub fn is_report_of(name: &str, command: &str) -> (r: bool)
    ensures
        r == is_report_name(name@, command@),
{
    let mut prefix = sanitize_command_name(command);
    prefix.append("-");
    starts_with(name, prefix.as_str()) && ends_with(name, ".json")
}

/// The position of the name that sorts last among the reports of a command.
pub fn latest_report_for_command(names: &Vec<String>, command: &str) -> (r: Option<usize>)
    ensures
        match r {
            Some(i) => {
                &&& i < names@.len()
                &&& is_report_name(names@[i as int]@, command@)
                &&& forall|j: int|
                    0 <= j < names@.len() && is_report_name(
                        #[trigger] names@[j]@,
                        command@,
                    ) ==> !text::text_lt(names@[i as int]@, names@[j]@)
            },
            None => forall|j: int|
                0 <= j < names@.len() ==> !is_report_name(#[trigger] names@[j]@, command@),
        },
{
    let mut best: Option<usize> = None;
    let mut i: usize = 0;
    while i < names.len()
        invariant
            i <= names@.len(),
            match best {
                Some(b) => {
                    &&& b < i
                    &&& is_report_name(names@[b as int]@, command@)
                    &&& forall|j: int|
                        0 <= j < i && is_report_name(
                            #[trigger] names@[j]@,
                            command@,
                        ) ==> !text::text_lt(names@[b as int]@, names@[j]@)
                },
                None => forall|j: int|
                    0 <= j < i ==> !is_report_name(#[trigger] names@[j]@, command@),
            },
        decreases names@.len() - i,
    {
        if is_report_of(names[i].as_str(), command) {
            let ghost b0 = best;
            let better = match best {
                Some(b) => str_before(names[b].as_str(), names[i].as_str()),
                None => true,
            };
            proof {
                text::lemma_text_lt_irreflexive(names@[i as int]@);
                if better && b0 is Some {
                    let b = b0->0;
                    assert forall|j: int|
                        0 <= j < i && is_report_name(
                            #[trigger] names@[j]@,
                            command@,
                        ) implies !text::text_lt(names@[i as int]@, names@[j]@) by {
                        if text::text_lt(names@[i as int]@, names@[j]@) {
                            text::lemma_text_lt_transitive(
                                names@[b as int]@,
                                names@[i as int]@,
                                names@[j]@,
                            );
                        }
                    }
                }
            }
            if better {
                best = Some(i);
            }
        }
        i += 1;
    }
    best
}

/// Whether a file among the download manifests is one of those that a new run
/// replaces.
pub fn is_manifest_file(name: &str) -> (r: bool)
    ensures
        r == ((text::has_prefix(name@, "remote_manifest-"@) || text::has_prefix(
            name@,
            "local_manifest-"@,
        )) && text::has_suffix(name@, ".jsonl"@)),
{
    (starts_with(name, "remote_manifest-") || starts_with(name, "local_manifest-")) && ends_with(
        name,
        ".jsonl",
    )
}

/// The logs that a run writes.
pub open spec fn log_paths(
    snapshot_dir: Seq<char>,
    parquet_dir: Seq<char>,
    rep: RunReport,
) -> Seq<Seq<char>> {
    if rep.command@ == "download"@ || rep.command@ == "verify_download"@ {
        seq![layout::download_log_path_of(snapshot_dir)]
    } else {
        Seq::new(
            rep.datasets@.len(),
            |i: int|
                layout::dataset_log_path_of(
                    parquet_dir,
                    rep.datasets@[i].dataset@,
                    rep.command@,
                ),
        )
    }
}

/// The logs that a run writes.
pub fn log_paths_for_report(
    snapshot_dir: &str,
    parquet_dir: &str,
    rep: &RunReport,
) -> (r: Vec<String>)
    ensures
        text::texts(r@) == log_paths(snapshot_dir@, parquet_dir@, *rep),
{
    broadcast use text::lemma_texts_push;

    let mut out: Vec<String> = Vec::new();
    if str_eq(rep.command.as_str(), "download") || str_eq(rep.command.as_str(), "verify_download") {
        out.push(layout::download_log_path(snapshot_dir));
        assert(text::texts(out@) =~= log_paths(snapshot_dir@, parquet_dir@, *rep));
        return out;
    }
    let ghost all = log_paths(snapshot_dir@, parquet_dir@, *rep);
    let mut i: usize = 0;
    assert(text::texts(out@) =~= all.take(0));
    while i < rep.datasets.len()
        invariant
            i <= rep.datasets@.len(),
            all == log_paths(snapshot_dir@, parquet_dir@, *rep),
            !(rep.command@ == "download"@ || rep.command@ == "verify_download"@),
            text::texts(out@) == all.take(i as int),
        decreases rep.datasets@.len() - i,
    {
        out.push(
            layout::dataset_log_path(
                parquet_dir,
                rep.datasets[i].dataset.as_str(),
                rep.command.as_str(),
            ),
        );
        i += 1;
        assert(all.take(i as int) =~= all.take(i - 1).push(all[i - 1]));
    }
    assert(all.take(i as int) =~= all);
    out
}

/// The last `n` lines of a log.
pub fn read_last_log_lines(log: &str, n: usize) -> (r: Vec<String>)
    ensures
        ({
            let all = text::lines(log@);
            text::texts(r@) == (if all.len() > n { all.skip(all.len() - n) } else { all })
        }),
{
    broadcast use text::lemma_texts_push;

    let lines = split_lines(log);
    let ghost all = text::lines(log@);
    assert(all.len() == lines@.len());
    let from: usize = if lines.len() > n {
        lines.len() - n
    } else {
        0
    };
    let mut out: Vec<String> = Vec::new();
    let mut i: usize = from;
    assert(text::texts(out@) =~= all.subrange(from as int, from as int));
    while i < lines.len()
        invariant
            from <= i <= lines@.len(),
            all == text::texts(lines@),
            text::texts(out@) == all.subrange(from as int, i as int),
        decreases lines@.len() - i,
    {
        out.push(lines[i].clone());
        i += 1;
        assert(all.subrange(from as int, i as int) =~= all.subrange(from as int, i - 1).push(
            all[i - 1],
        ));
    }
    assert(all.subrange(from as int, all.len() as int) =~= all.skip(from as int));
    assert(all.skip(0) =~= all);
    out
}

/// Adds a step of a pipeline to its report: how it went, where its own report
/// lies, and where it failed also a failure of the pipeline.
pub fn record_all_step(
    rep: &mut RunReport,
    step_failed: &mut bool,
    name: &str,
    res: Result<(), String>,
    message: Option<String>,
    report_path: Option<String>,
)
    ensures
        *final(step_failed) == (*old(step_failed) || res is Err),
        *final(rep) == (RunReport {
            step_runs: final(rep).step_runs,
            failures: final(rep).failures,
            ..*old(rep)
        }),
        final(rep).step_runs@.len() == old(rep).step_runs@.len() + 1,
        final(rep).step_runs@.drop_last() == old(rep).step_runs@,
        final(rep).step_runs@.last()@ == (report::StepView {
            step: name@,
            status: if res is Ok { "ok"@ } else { "failed"@ },
            report_path: report::opt(report_path),
            message: match res {
                Ok(_) => report::opt(message),
                Err(e) => Some(e@),
            },
        }),
        res is Ok ==> final(rep).failures@ == old(rep).failures@,
        res is Err ==> {
            &&& final(rep).failures@.len() == old(rep).failures@.len() + 1
            &&& final(rep).failures@.drop_last() == old(rep).failures@
            &&& final(rep).failures@.last()@ == (report::FailureView {
                dataset: "all"@,
                phase: "all_"@ + name@,
                rel_path: None,
                source_path: None,
                output_path: report::opt(report_path),
                error_message: res->Err_0@,
                suggested_recovery: None,
            })
        },
{
    match res {
        Ok(_) => {
            rep.step_runs.push(
                StepRunSummary {
                    step: name.to_owned(),
                    status: "ok".to_owned(),
                    report_path,
                    message,
                },
            );
        },
        Err(e) => {
            *step_failed = true;
            rep.step_runs.push(
                StepRunSummary {
                    step: name.to_owned(),
                    status: "failed".to_owned(),
                    report_path: copy_option(&report_path),
                    message: Some(e.clone()),
                },
            );
            let mut phase = "all_".to_owned();
            phase.append(name);
            rep.failures.push(
                FailureEntry {
                    dataset: "all".to_owned(),
                    phase,
                    rel_path: None,
                    source_path: None,
                    output_path: report_path,
                    error_message: e,
                    suggested_recovery: None,
                },
            );
        },
    }
    assert(rep.step_runs@.drop_last() =~= old(rep).step_runs@);
}

proof fn lemma_something_newer(
    recs: Seq<ReportRecord>,
    command: Option<Seq<char>>,
    i: int,
    n: int,
    j: int,
)
    requires
        0 <= j < n <= recs.len(),
        is_newer(recs, command, j, i),
    ensures
        newer_count(recs, command, i, n) >= 1,
    decreases n,
{
    lemma_newer_count_is_no_less_than_zero(recs, command, i, n - 1);
    if j < n - 1 {
        lemma_something_newer(recs, command, i, n - 1, j);
    }
}

proof fn lemma_newer_count_is_no_less_than_zero(
    recs: Seq<ReportRecord>,
    command: Option<Seq<char>>,
    i: int,
    n: int,
)
    ensures
        newer_count(recs, command, i, n) >= 0,
    decreases n,
{
    if n > 0 {
        lemma_newer_count_is_no_less_than_zero(recs, command, i, n - 1);
    }
}

/// Where one report of each command is kept, it is the newest.
pub proof fn law_one_kept_report_is_the_newest(
    recs: Seq<ReportRecord>,
    command: Option<Seq<char>>,
    i: int,
)
    requires
        0 <= i < recs.len(),
        report::of_command(recs[i], command),
    ensures
        is_kept(recs, command, 1, i) <==> report::is_newest(recs, command, i),
        !is_kept(recs, command, 0, i),
{
    let n = recs.len() as int;
    lemma_newer_count_is_no_less_than_zero(recs, command, i, n);
    if report::is_newest(recs, command, i) {
        lemma_nothing_newer(recs, command, i, n);
    } else {
        let j = choose|j: int|
            0 <= j < recs.len() && report::of_command(#[trigger] recs[j], command)
                && recs[j].report.command@ == recs[i].report.command@ && !(recs[j].timestamp
                < recs[i].timestamp || (recs[j].timestamp == recs[i].timestamp && j >= i));
        assert(is_newer(recs, command, j, i));
        lemma_something_newer(recs, command, i, n, j);
    }
}

proof fn lemma_fewer_are_newer(
    recs: Seq<ReportRecord>,
    command: Option<Seq<char>>,
    j: int,
    i: int,
    n: int,
)
    requires
        0 <= n <= recs.len(),
        0 <= j < recs.len(),
        is_newer(recs, command, j, i),
    ensures
        newer_count(recs, command, j, n) + (if j < n { 1int } else { 0 }) <= newer_count(
            recs,
            command,
            i,
            n,
        ),
    decreases n,
{
    if n > 0 {
        lemma_fewer_are_newer(recs, command, j, i, n - 1);
        if is_newer(recs, command, n - 1, j) {
            assert(is_newer(recs, command, n - 1, i));
        }
    }
}

/// The older reports of a command go first: where a report is kept, each newer one stays
/// even where one fewer is kept.
pub proof fn law_older_reports_go_first(
    recs: Seq<ReportRecord>,
    command: Option<Seq<char>>,
    keep: int,
    j: int,
    i: int,
)
    requires
        0 <= j < recs.len(),
        is_newer(recs, command, j, i),
        is_kept(recs, command, keep, i),
    ensures
        is_kept(recs, command, keep - 1, j),
        recs[j].timestamp >= recs[i].timestamp,
        recs[j].report.command@ == recs[i].report.command@,
{
    lemma_fewer_are_newer(recs, command, j, i, recs.len() as int);
}

/// The reports that stay and those that go are all that are asked for.
pub proof fn law_kept_reports_are_counted(
    recs: Seq<ReportRecord>,
    command: Option<Seq<char>>,
    keep: int,
    n: int,
)
    requires
        0 <= n < recs.len(),
    ensures
        kept_count(recs, command, keep, 0) == 0,
        kept_count(recs, command, keep, n + 1) == kept_count(recs, command, keep, n) + (if (
        command matches Some(c) ==> recs[n].report.command@ == c) && is_kept(
            recs,
            command,
            keep,
            n,
        ) {
            1int
        } else {
            0
        }),
{
}

/// At least one report of each command is kept, and otherwise as many as asked for.
pub proof fn law_at_least_one(keep: usize)
    ensures
        at_least_one(keep) >= 1,
        at_least_one(keep) >= keep,
        keep != 0 ==> at_least_one(keep) == keep,
        at_least_one(0) == 1,
{
}

/// A file is changed of late up to five minutes after its change.
pub proof fn law_recent_change(mtimes: Seq<i64>, t: i64, now: i64)
    ensures
        any_recent(seq![t], now) <==> now <= t + 5 * 60,
        any_recent(mtimes.push(t), now) <==> any_recent(mtimes, now) || now <= t + 5 * 60,
        !any_recent(Seq::empty(), now),
{
    assert(seq![t][0] == t);
    assert(mtimes.push(t)[mtimes.len() as int] == t);
    if any_recent(mtimes, now) {
        let i = choose|i: int| 0 <= i < mtimes.len() && now - #[trigger] mtimes[i] <= 300;
        assert(mtimes.push(t)[i] == mtimes[i]);
    }
    if any_recent(mtimes.push(t), now) {
        let i = choose|i: int|
            0 <= i < mtimes.push(t).len() && now - #[trigger] mtimes.push(t)[i] <= 300;
        if i < mtimes.len() {
            assert(mtimes[i] == mtimes.push(t)[i]);
        }
    }
}

/// A report is asked for by any name of its step, and by a dataset that it summarises or
/// of which it holds a failure.
pub proof fn law_reports_asked_for(rec: ReportRecord, i: int, dataset: Seq<char>)
    ensures
        is_asked_for(rec, None, "all"@),
        is_asked_for(rec, Some(rec.report.command@), "all"@),
        rec.report.command@ == "verify"@ ==> is_asked_for(rec, Some("verify_convert"@), "all"@)
            && is_asked_for(rec, Some("verify-convert"@), "all"@),
        0 <= i < rec.report.datasets@.len() && rec.report.datasets@[i].dataset@ == dataset
            ==> is_asked_for(rec, None, dataset),
        0 <= i < rec.report.failures@.len() && rec.report.failures@[i].dataset@ == dataset
            ==> is_asked_for(rec, None, dataset),
        dataset != "all"@ && is_asked_for(rec, None, dataset) ==> (exists|k: int|
            0 <= k < rec.report.datasets@.len() && (#[trigger] rec.report.datasets@[k]).dataset@
                == dataset) || (exists|k: int|
            0 <= k < rec.report.failures@.len() && (#[trigger] rec.report.failures@[k]).dataset@
                == dataset),
{
    report::law_names_of_a_step("verify"@);
    if 0 <= i < rec.report.datasets@.len() && rec.report.datasets@[i].dataset@ == dataset {
        assert(mentions(rec.report, dataset));
    }
}

/// The name of a report of a command is one of the names of that command's reports.
pub proof fn law_names_of_reports(command: Seq<char>, started: int, nonce: nat, name: Seq<char>)
    ensures
        is_report_name(report::report_name(command, started, nonce), command),
        is_report_name(name, command) ==> name.len() > command.len() && name[command.len() as int]
            == '-' && name.take(command.len() as int) == report::sanitized(command) && name.skip(
            name.len() - 5,
        ) == ".json"@,
{
    reveal_strlit("-");
    reveal_strlit(".json");
    let lead = report::sanitized(command) + "-"@;
    let r = report::report_name(command, started, nonce);
    assert(r.take(lead.len() as int) =~= lead);
    assert(r.skip(r.len() - 5) =~= ".json"@);
    if is_report_name(name, command) {
        assert(name.take(lead.len() as int)[command.len() as int] == lead[command.len() as int]);
        assert(name.take(command.len() as int) =~= lead.take(command.len() as int));
        assert(lead.take(command.len() as int) =~= report::sanitized(command));
    }
}

/// The log of a download is the one of the snapshot; any other run has one for each of
/// its datasets.
pub proof fn law_logs_of_a_run(
    snapshot_dir: Seq<char>,
    parquet_dir: Seq<char>,
    rep: RunReport,
    i: int,
)
    ensures
        rep.command@ == "download"@ || rep.command@ == "verify_download"@ ==> log_paths(
            snapshot_dir,
            parquet_dir,
            rep,
        ) == seq![layout::download_log_path_of(snapshot_dir)],
        rep.command@ != "download"@ && rep.command@ != "verify_download"@ ==> log_paths(
            snapshot_dir,
            parquet_dir,
            rep,
        ).len() == rep.datasets@.len() && (0 <= i < rep.datasets@.len() ==> log_paths(
            snapshot_dir,
            parquet_dir,
            rep,
        )[i] == layout::dataset_log_path_of(parquet_dir, rep.datasets@[i].dataset@, rep.command@)),
{
}
/// Of the flagged records one is the newest: of several of one time the first or, where the
/// last is asked for, the last.
pub proof fn law_newest_of_the_flagged(recs: Seq<ReportRecord>, flags: Seq<bool>, i: int, j: int)
    requires
        0 <= j < recs.len(),
        flags[j],
    ensures
        is_first_newest(recs, flags, i) ==> flags[i] && recs[j].timestamp <= recs[i].timestamp && (
        recs[j].timestamp == recs[i].timestamp ==> i <= j),
        is_last_newest(recs, flags, i) ==> flags[i] && recs[j].timestamp <= recs[i].timestamp && (
        recs[j].timestamp == recs[i].timestamp ==> j <= i),
{
}

/// A record is active as long as it is not finished, and recent as long as one of its logs
/// is; either only where it is asked for. It is of a command by any name of its step.
pub proof fn law_flags_of_records(
    recs: Seq<ReportRecord>,
    command: Option<Seq<char>>,
    dataset: Seq<char>,
    log_mtimes: Seq<Vec<i64>>,
    now: i64,
    cmd: Seq<char>,
    i: int,
)
    requires
        0 <= i < recs.len(),
    ensures
        active_flags(recs, command, dataset)[i] <==> is_asked_for(recs[i], command, dataset)
            && recs[i].report.finished_at_unix is None,
        recent_flags(recs, command, dataset, log_mtimes, now)[i] <==> is_asked_for(
            recs[i],
            command,
            dataset,
        ) && any_recent(log_mtimes[i]@, now),
        command_flags(recs, cmd)[i] <==> report::canonical_name(recs[i].report.command@)
            == report::canonical_name(cmd),
{
}

/// A name goes exactly where it is the file name of a report that is asked for and not kept.
pub proof fn law_pruned_names(
    recs: Seq<ReportRecord>,
    command: Option<Seq<char>>,
    keep: int,
    name: Seq<char>,
)
    ensures
        pruned_within(recs, command, keep, recs.len() as int, name) <==> exists|i: int|
            0 <= i < recs.len() && report::of_command(#[trigger] recs[i], command) && !is_kept(
                recs,
                command,
                keep,
                i,
            ) && paths::file_name_of(recs[i].path@) == Some(name),
{
    if pruned_within(recs, command, keep, recs.len() as int, name) {
        let i = choose|i: int|
            i < recs.len() as int && #[trigger] prunes(recs, command, keep, i, name);
        assert(report::of_command(recs[i], command));
    }
    if exists|i: int|
        0 <= i < recs.len() && report::of_command(#[trigger] recs[i], command) && !is_kept(
            recs,
            command,
            keep,
            i,
        ) && paths::file_name_of(recs[i].path@) == Some(name) {
        let i = choose|i: int|
            0 <= i < recs.len() && report::of_command(#[trigger] recs[i], command) && !is_kept(
                recs,
                command,
                keep,
                i,
            ) && paths::file_name_of(recs[i].path@) == Some(name);
        assert(prunes(recs, command, keep, i, name));
    }
}
} // verus!
