//! Checking the surroundings before a run: tools, directories, space and memory.

use vstd::prelude::*;
use vstd::string::*;
use crate::convert::{bytes_to_gib, show_option};
use crate::convert;
use crate::download::{bool_text_of, required_bytes};
use crate::download;
use crate::plan;
use crate::report::{failure, report_arg, DatasetReportSummary, FailureEntry, ReportArg, RunReport};
use crate::report;
use crate::sql;
use crate::text::{
    decimal_string, parse_unsigned, push_decimal, push_padded, split_lines, split_words, trimmed,
    u64_error,
};
use crate::text;

verus! {

/// How a check came out.
#[derive(Debug, Clone, Copy, PartialEq, Eq, Structural)]
pub enum FindingStatus {
    Passed,
    Warn,
    Fail,
}

pub open spec fn status_text(s: FindingStatus) -> Seq<char> {
    match s {
        FindingStatus::Passed => "ok"@,
        FindingStatus::Warn => "warn"@,
        FindingStatus::Fail => "fail"@,
    }
}

impl FindingStatus {
    /// The status in a word.
    pub fn word(self) -> (r: String)
        ensures
            r@ == status_text(self),
    {
        match self {
            FindingStatus::Passed => "ok".to_owned(),
            FindingStatus::Warn => "warn".to_owned(),
            FindingStatus::Fail => "fail".to_owned(),
        }
    }
}

/// What a check has shown.
#[derive(Debug, Clone)]
pub struct CheckFinding {
    pub name: String,
    pub status: FindingStatus,
    pub details: String,
    pub recommendation: Option<String>,
}

/// What a `CheckFinding` says.
#[verifier::ext_equal]
pub struct FindingView {
    pub name: Seq<char>,
    pub status: FindingStatus,
    pub details: Seq<char>,
    pub recommendation: Option<Seq<char>>,
}

impl View for CheckFinding {
    type V = FindingView;

    open spec fn view(&self) -> FindingView {
        FindingView {
            name: self.name@,
            status: self.status,
            details: self.details@,
            recommendation: report::opt(self.recommendation),
        }
    }
}

pub open spec fn finding_views(v: Seq<CheckFinding>) -> Seq<FindingView> {
    Seq::new(v.len(), |i: int| v[i]@)
}

/// How many of the findings came out as `s`.
pub open spec fn count_status(f: Seq<FindingView>, s: FindingStatus) -> nat
    decreases f.len(),
{
    if f.len() == 0 {
        0
    } else {
        count_status(f.drop_last(), s) + (if f.last().status == s {
            1nat
        } else {
            0nat
        })
    }
}

/// All that the checks have shown so far.
#[derive(Clone)]
pub struct Preflight {
    pub dataset: String,
    pub findings: Vec<CheckFinding>,
    pub failures: Vec<FailureEntry>,
}

pub open spec fn finding(
    name: Seq<char>,
    status: FindingStatus,
    details: Seq<char>,
    recommendation: Option<Seq<char>>,
) -> FindingView {
    FindingView { name, status, details, recommendation }
}

pub open spec fn check_failure(
    dataset: Seq<char>,
    phase: Seq<char>,
    source: Option<Seq<char>>,
    output: Seq<char>,
    e: Seq<char>,
    recovery: Seq<char>,
) -> report::FailureView {
    report::FailureView {
        dataset,
        phase,
        rel_path: None,
        source_path: source,
        output_path: Some(output),
        error_message: e,
        suggested_recovery: Some(recovery),
    }
}

/// A check of free space, in words.
pub open spec fn space_details(free: u64, required: int, note: Seq<char>) -> Seq<char> {
    "available="@ + download::gib_text(free as int) + " required="@ + download::gib_text(required)
        + note
}

/// The note on what a download is made of.
pub open spec fn download_note(total: u64) -> Seq<char> {
    " (remote="@ + download::gib_text(total as int) + " +10%)"@
}

/// The note on what a conversion is made of, where that was measured.
pub open spec fn convert_note(precise: bool, estimate: u64) -> Seq<char> {
    if precise {
        " (source="@ + download::gib_text(estimate as int) + " +20%)"@
    } else {
        ""@
    }
}

/// The space that a conversion asks for: a fifth more than its sources where they
/// were measured.
pub open spec fn convert_required(precise: bool, estimate: u64, min_free: u64) -> int {
    if precise {
        plan::min_int(estimate * 12, u64::MAX as int) / 10
    } else {
        min_free as int
    }
}

pub open spec fn download_advice() -> Seq<char> {
    "Free up disk space, or set skip_disk_check: true under download: in your config, or pass --skip-disk-check to the download/all command"@
}

pub open spec fn convert_advice() -> Seq<char> {
    "Free up disk space, or set skip_disk_check: true under convert: in your config, or pass --skip-disk-check to the convert/all command"@
}

/// Whether more than seven tenths of the memory are set aside.
pub open spec fn is_high_memory(mem: usize, total: usize) -> bool {
    total > 0 && 10 * mem > 7 * total
}

/// What is shown of the memory that is set aside.
pub open spec fn memory_finding(mem: usize, total: Option<usize>) -> FindingView {
    match total {
        None => finding(
            "memory_tuning"@,
            FindingStatus::Warn,
            "system memory could not be detected"@,
            Some("set --max-memory-mb explicitly"@),
        ),
        Some(t) => {
            let base = "configured memory="@ + text::decimal(mem as nat) + " MB on system="@
                + text::decimal(t as nat) + " MB"@;
            if is_high_memory(mem, t) {
                finding(
                    "memory_tuning"@,
                    FindingStatus::Warn,
                    base + " (high ratio)"@,
                    Some("reduce --workers or --max-memory-mb, or use --profile safe"@),
                )
            } else {
                finding("memory_tuning"@, FindingStatus::Passed, base, None)
            }
        },
    }
}

impl Preflight {
    /// What has been shown.
    pub open spec fn shown(self) -> Seq<FindingView> {
        finding_views(self.findings@)
    }

    /// What is recorded as failed.
    pub open spec fn failed(self) -> Seq<report::FailureView> {
        report::failure_views(self.failures@)
    }

    /// Whether every failed check is recorded, and nothing else.
    pub open spec fn wf(self) -> bool {
        self.failures@.len() == count_status(self.shown(), FindingStatus::Fail)
    }

    /// The checks before anything was looked at. The database is part of the
    /// program.
    pub fn start(dataset: &str) -> (r: Self)
        ensures
            r.wf(),
            r.dataset@ == dataset@,
            r.shown() == seq![
                finding(
                    "duckdb"@,
                    FindingStatus::Passed,
                    "bundled (statically linked — no external binary required)"@,
                    None,
                ),
            ],
            r.failed().len() == 0,
    {
        let mut r = Preflight {
            dataset: dataset.to_owned(),
            findings: Vec::new(),
            failures: Vec::new(),
        };
        r.show(
            "duckdb",
            FindingStatus::Passed,
            "bundled (statically linked — no external binary required)".to_owned(),
            None,
        );
        proof {
            assert(r.shown() =~= seq![
                finding(
                    "duckdb"@,
                    FindingStatus::Passed,
                    "bundled (statically linked — no external binary required)"@,
                    None,
                ),
            ]);
            reveal_with_fuel(count_status, 2);
        }
        r
    }

    fn show(&mut self, name: &str, status: FindingStatus, details: String, advice: Option<String>)
        ensures
            final(self).dataset == old(self).dataset,
            final(self).failures == old(self).failures,
            final(self).shown() == old(self).shown().push(
                finding(name@, status, details@, report::opt(advice)),
            ),
            count_status(final(self).shown(), FindingStatus::Fail) == count_status(
                old(self).shown(),
                FindingStatus::Fail,
            ) + (if status == FindingStatus::Fail {
                1nat
            } else {
                0nat
            }),
    {
        let ghost before = self.shown();
        let f = CheckFinding { name: name.to_owned(), status, details, recommendation: advice };
        let ghost fv = f@;
        self.findings.push(f);
        proof {
            assert(self.shown() =~= before.push(fv));
            assert(before.push(fv).drop_last() =~= before);
        }
    }

    fn fail(&mut self, f: FailureEntry)
        ensures
            final(self).dataset == old(self).dataset,
            final(self).findings == old(self).findings,
            final(self).failed() == old(self).failed().push(f@),
            final(self).failures@.len() == old(self).failures@.len() + 1,
    {
        broadcast use report::lemma_failure_views_push;

        self.failures.push(f);
    }

    /// Looks at the tool that downloads: `found` says whether it runs.
    pub fn check_aws(&mut self, aws_bin: &str, found: Result<(), String>)
        requires
            old(self).wf(),
        ensures
            final(self).wf(),
            final(self).dataset == old(self).dataset,
            match found {
                Ok(_) => {
                    &&& final(self).shown() == old(self).shown().push(
                        finding("aws"@, FindingStatus::Passed, "available at "@ + aws_bin@, None),
                    )
                    &&& final(self).failed() == old(self).failed()
                },
                Err(e) => {
                    &&& final(self).shown() == old(self).shown().push(
                        finding(
                            "aws"@,
                            FindingStatus::Fail,
                            e@,
                            Some("install aws cli or use --aws-bin"@),
                        ),
                    )
                    &&& final(self).failed() == old(self).failed().push(
                        check_failure(
                            old(self).dataset@,
                            "check_dependency"@,
                            None,
                            aws_bin@,
                            e@,
                            "install aws cli or use --aws-bin"@,
                        ),
                    )
                },
            },
    {
        match found {
            Ok(_) => {
                let mut d = "available at ".to_owned();
                d.append(aws_bin);
                self.show("aws", FindingStatus::Passed, d, None);
            },
            Err(e) => {
                let f = failure(
                    self.dataset.as_str(),
                    "check_dependency",
                    None,
                    None,
                    Some(aws_bin),
                    e.clone(),
                    Some("install aws cli or use --aws-bin".to_owned()),
                );
                self.show(
                    "aws",
                    FindingStatus::Fail,
                    e,
                    Some("install aws cli or use --aws-bin".to_owned()),
                );
                self.fail(f);
            },
        }
    }

    /// Looks at a directory: `writable` says whether it can be written to.
    pub fn check_path(&mut self, name: &str, path: &str, writable: Result<(), String>)
        requires
            old(self).wf(),
        ensures
            final(self).wf(),
            final(self).dataset == old(self).dataset,
            match writable {
                Ok(_) => {
                    &&& final(self).shown() == old(self).shown().push(
                        finding(name@, FindingStatus::Passed, "writable "@ + path@, None),
                    )
                    &&& final(self).failed() == old(self).failed()
                },
                Err(e) => {
                    &&& final(self).shown() == old(self).shown().push(
                        finding(
                            name@,
                            FindingStatus::Fail,
                            e@,
                            Some("fix path permissions or choose another --root-dir"@),
                        ),
                    )
                    &&& final(self).failed() == old(self).failed().push(
                        check_failure(
                            old(self).dataset@,
                            "check_path"@,
                            None,
                            path@,
                            e@,
                            "fix path permissions or choose another --root-dir"@,
                        ),
                    )
                },
            },
    {
        match writable {
            Ok(_) => {
                let mut d = "writable ".to_owned();
                d.append(path);
                self.show(name, FindingStatus::Passed, d, None);
            },
            Err(e) => {
                let f = failure(
                    self.dataset.as_str(),
                    "check_path",
                    None,
                    None,
                    Some(path),
                    e.clone(),
                    Some("fix path permissions or choose another --root-dir".to_owned()),
                );
                self.show(
                    name,
                    FindingStatus::Fail,
                    e,
                    Some("fix path permissions or choose another --root-dir".to_owned()),
                );
                self.fail(f);
            },
        }
    }

    fn check_space(
        &mut self,
        name: &str,
        phase: &str,
        source: &str,
        output: &str,
        free: Result<u64, String>,
        required: u64,
        note: &str,
        advice: &str,
        manual: &str,
    )
        requires
            old(self).wf(),
        ensures
            final(self).wf(),
            final(self).dataset == old(self).dataset,
            match free {
                Ok(n) => {
                    let details = space_details(n, required as int, note@);
                    if n >= required {
                        &&& final(self).shown() == old(self).shown().push(
                            finding(name@, FindingStatus::Passed, details, None),
                        )
                        &&& final(self).failed() == old(self).failed()
                    } else {
                        &&& final(self).shown() == old(self).shown().push(
                            finding(name@, FindingStatus::Fail, details, Some(advice@)),
                        )
                        &&& final(self).failed() == old(self).failed().push(
                            check_failure(
                                old(self).dataset@,
                                phase@,
                                Some(source@),
                                output@,
                                details,
                                advice@,
                            ),
                        )
                    }
                },
                Err(e) => {
                    &&& final(self).shown() == old(self).shown().push(
                        finding(
                            name@,
                            FindingStatus::Warn,
                            "cannot evaluate disk: "@ + e@,
                            Some(manual@),
                        ),
                    )
                    &&& final(self).failed() == old(self).failed()
                },
            },
    {
        match free {
            Ok(n) => {
                let mut d = "available=".to_owned();
                push_decimal(&mut d, bytes_to_gib(n) as u128);
                d.append(" GiB");
                d.append(" required=");
                push_decimal(&mut d, bytes_to_gib(required) as u128);
                d.append(" GiB");
                d.append(note);
                assert(d@ =~= space_details(n, required as int, note@));
                if n >= required {
                    self.show(name, FindingStatus::Passed, d, None);
                } else {
                    let f = failure(
                        self.dataset.as_str(),
                        phase,
                        None,
                        Some(source),
                        Some(output),
                        d.clone(),
                        Some(advice.to_owned()),
                    );
                    self.show(name, FindingStatus::Fail, d, Some(advice.to_owned()));
                    self.fail(f);
                }
            },
            Err(e) => {
                let mut d = "cannot evaluate disk: ".to_owned();
                d.append(e.as_str());
                self.show(name, FindingStatus::Warn, d, Some(manual.to_owned()));
            },
        }
    }

    /// Looks at the space for a download of `total` bytes; `free` is the space
    /// that was found.
    pub fn check_download_disk(
        &mut self,
        s3_uri: &str,
        snapshot_dir: &str,
        total: u64,
        free: Result<u64, String>,
    )
        requires
            old(self).wf(),
        ensures
            final(self).wf(),
            final(self).dataset == old(self).dataset,
            match free {
                Ok(n) => {
                    let required = download::required_space(total);
                    let details = space_details(n, required, download_note(total));
                    if n >= required {
                        &&& final(self).shown() == old(self).shown().push(
                            finding("download_disk"@, FindingStatus::Passed, details, None),
                        )
                        &&& final(self).failed() == old(self).failed()
                    } else {
                        &&& final(self).shown() == old(self).shown().push(
                            finding(
                                "download_disk"@,
                                FindingStatus::Fail,
                                details,
                                Some(download_advice()),
                            ),
                        )
                        &&& final(self).failed() == old(self).failed().push(
                            check_failure(
                                old(self).dataset@,
                                "check_download_disk"@,
                                Some(s3_uri@),
                                snapshot_dir@,
                                details,
                                download_advice(),
                            ),
                        )
                    }
                },
                Err(e) => {
                    &&& final(self).shown() == old(self).shown().push(
                        finding(
                            "download_disk"@,
                            FindingStatus::Warn,
                            "cannot evaluate disk: "@ + e@,
                            Some("check disk manually before download"@),
                        ),
                    )
                    &&& final(self).failed() == old(self).failed()
                },
            },
    {
        let mut note = " (remote=".to_owned();
        push_decimal(&mut note, bytes_to_gib(total) as u128);
        note.append(" GiB");
        note.append(" +10%)");
        assert(note@ =~= download_note(total));
        let required: u64 = required_bytes(total);
        self.check_space(
            "download_disk",
            "check_download_disk",
            s3_uri,
            snapshot_dir,
            free,
            required,
            note.as_str(),
            "Free up disk space, or set skip_disk_check: true under download: in your config, or pass --skip-disk-check to the download/all command",
            "check disk manually before download",
        );
    }

    /// Notes that nothing is known of what there is to download.
    pub fn no_listing(&mut self)
        requires
            old(self).wf(),
        ensures
            final(self).wf(),
            final(self).dataset == old(self).dataset,
            final(self).failed() == old(self).failed(),
            final(self).shown() == old(self).shown().push(
                finding(
                    "download_manifest"@,
                    FindingStatus::Warn,
                    "remote manifest unavailable for estimate"@,
                    Some("check aws connectivity/settings and rerun check"@),
                ),
            ),
    {
        self.show(
            "download_manifest",
            FindingStatus::Warn,
            "remote manifest unavailable for estimate".to_owned(),
            Some("check aws connectivity/settings and rerun check".to_owned()),
        );
    }

    /// Looks at the space for a conversion. `estimate` is the size of its sources,
    /// where they were measured, and `min_free` what is asked for otherwise.
    pub fn check_convert_disk(
        &mut self,
        snapshot_dir: &str,
        parquet_dir: &str,
        precise: bool,
        estimate: u64,
        min_free: u64,
        free: Result<u64, String>,
    )
        requires
            old(self).wf(),
        ensures
            final(self).wf(),
            final(self).dataset == old(self).dataset,
            match free {
                Ok(n) => {
                    let required = convert_required(precise, estimate, min_free);
                    let details = space_details(n, required, convert_note(precise, estimate));
                    if n >= required {
                        &&& final(self).shown() == old(self).shown().push(
                            finding("convert_disk"@, FindingStatus::Passed, details, None),
                        )
                        &&& final(self).failed() == old(self).failed()
                    } else {
                        &&& final(self).shown() == old(self).shown().push(
                            finding(
                                "convert_disk"@,
                                FindingStatus::Fail,
                                details,
                                Some(convert_advice()),
                            ),
                        )
                        &&& final(self).failed() == old(self).failed().push(
                            check_failure(
                                old(self).dataset@,
                                "check_convert_disk"@,
                                Some(snapshot_dir@),
                                parquet_dir@,
                                details,
                                convert_advice(),
                            ),
                        )
                    }
                },
                Err(e) => {
                    &&& final(self).shown() == old(self).shown().push(
                        finding(
                            "convert_disk"@,
                            FindingStatus::Warn,
                            "cannot evaluate disk: "@ + e@,
                            Some("check disk manually before convert"@),
                        ),
                    )
                    &&& final(self).failed() == old(self).failed()
                },
            },
    {
        let mut note = "".to_owned();
        if precise {
            note = " (source=".to_owned();
            push_decimal(&mut note, bytes_to_gib(estimate) as u128);
            note.append(" GiB");
            note.append(" +20%)");
        }
        assert(note@ =~= convert_note(precise, estimate));
        let required: u64 = if precise {
            let b: u128 = estimate as u128 * 12;
            if b <= u64::MAX as u128 {
                (b / 10) as u64
            } else {
                u64::MAX / 10
            }
        } else {
            min_free
        };
        self.check_space(
            "convert_disk",
            "check_convert_disk",
            snapshot_dir,
            parquet_dir,
            free,
            required,
            note.as_str(),
            "Free up disk space, or set skip_disk_check: true under convert: in your config, or pass --skip-disk-check to the convert/all command",
            "check disk manually before convert",
        );
    }

    /// Looks at the memory that is set aside, on a machine with `total` MB.
    pub fn check_memory(&mut self, mem: usize, total: Option<usize>)
        requires
            old(self).wf(),
        ensures
            final(self).wf(),
            final(self).dataset == old(self).dataset,
            final(self).failed() == old(self).failed(),
            final(self).shown() == old(self).shown().push(memory_finding(mem, total)),
    {
        match total {
            None => {
                self.show(
                    "memory_tuning",
                    FindingStatus::Warn,
                    "system memory could not be detected".to_owned(),
                    Some("set --max-memory-mb explicitly".to_owned()),
                );
            },
            Some(t) => {
                let mut d = "configured memory=".to_owned();
                push_decimal(&mut d, mem as u128);
                d.append(" MB on system=");
                push_decimal(&mut d, t as u128);
                d.append(" MB");
                if t > 0 && 10 * (mem as u128) > 7 * (t as u128) {
                    d.append(" (high ratio)");
                    self.show(
                        "memory_tuning",
                        FindingStatus::Warn,
                        d,
                        Some(
                            "reduce --workers or --max-memory-mb, or use --profile safe".to_owned(),
                        ),
                    );
                } else {
                    self.show("memory_tuning", FindingStatus::Passed, d, None);
                }
            },
        }
    }

    /// How many checks came out as `s`.
    pub fn count(&self, s: FindingStatus) -> (r: usize)
        ensures
            r == count_status(self.shown(), s),
    {
        let ghost all = self.shown();
        let mut n: usize = 0;
        let mut i: usize = 0;
        assert(all.take(0) =~= Seq::<FindingView>::empty());
        while i < self.findings.len()
            invariant
                i <= self.findings@.len(),
                all == self.shown(),
                n <= i,
                n == count_status(all.take(i as int), s),
            decreases self.findings@.len() - i,
        {
            assert(all.take(i + 1).drop_last() =~= all.take(i as int));
            if self.findings[i].status == s {
                n += 1;
            }
            i += 1;
        }
        assert(all.take(i as int) =~= all);
        n
    }

    /// Writes the checks into a report: each counts as an item.
    pub fn fill_report(self, report: &mut RunReport)
        requires
            self.wf(),
        ensures
            final(report).datasets@.len() == old(report).datasets@.len() + 1,
            final(report).datasets@.drop_last() == old(report).datasets@,
            final(report).datasets@.last().dataset@ == self.dataset@,
            final(report).datasets@.last().items_scanned == self.shown().len(),
            final(report).datasets@.last().succeeded == count_status(
                self.shown(),
                FindingStatus::Passed,
            ),
            final(report).datasets@.last().failed == count_status(
                self.shown(),
                FindingStatus::Fail,
            ),
            final(report).datasets@.last().skipped == 0,
            final(report).failures@ == old(report).failures@ + self.failures@,
            convert::arg_views(final(report).args@) == convert::arg_views(old(report).args@).push(
                ("warnings"@, text::decimal(count_status(self.shown(), FindingStatus::Warn))),
            ),
            *final(report) == (RunReport {
                datasets: final(report).datasets,
                failures: final(report).failures,
                args: final(report).args,
                ..*old(report)
            }),
    {
        let warns: usize = self.count(FindingStatus::Warn);
        let ok: usize = self.count(FindingStatus::Passed);
        let fails: usize = self.count(FindingStatus::Fail);
        let ds = DatasetReportSummary {
            dataset: self.dataset,
            items_scanned: self.findings.len() as u64,
            succeeded: ok as u64,
            failed: fails as u64,
            skipped: 0,
        };
        report.datasets.push(ds);
        assert(report.datasets@.drop_last() =~= old(report).datasets@);
        let mut failures = self.failures;
        report.failures.append(&mut failures);
        let shown = decimal_string(warns as u128);
        let ghost before = convert::arg_views(report.args@);
        report.args.push(report_arg("warnings", shown.as_str()));
        assert(convert::arg_views(report.args@) =~= before.push(("warnings"@, shown@)));
    }
}

/// The outcome of all checks in a word.
pub open spec fn overall_word(fails: nat, warns: nat, strict: bool) -> Seq<char> {
    if fails > 0 || (strict && warns > 0) {
        "failed"@
    } else if warns > 0 {
        "warn"@
    } else {
        "ok"@
    }
}

/// The outcome of all checks in a word.
pub fn overall_status(fails: usize, warns: usize, strict: bool) -> (r: String)
    ensures
        r@ == overall_word(fails as nat, warns as nat, strict),
{
    if fails > 0 || (strict && warns > 0) {
        "failed".to_owned()
    } else if warns > 0 {
        "warn".to_owned()
    } else {
        "ok".to_owned()
    }
}

/// How the checks end: failures fail them, and warnings do where they are to be
/// strict.
pub fn check_verdict(fails: usize, warns: usize, strict: bool) -> (r: Result<(), String>)
    ensures
        match r {
            Ok(_) => fails == 0 && !(strict && warns > 0),
            Err(e) => if fails > 0 {
                e@ == "[check] failures detected: "@ + text::decimal(fails as nat)
            } else {
                strict && warns > 0 && e@ == "[check] strict mode failed due to warnings: "@
                    + text::decimal(warns as nat)
            },
        },
{
    if fails > 0 {
        let mut m = "[check] failures detected: ".to_owned();
        push_decimal(&mut m, fails as u128);
        return Err(m);
    }
    if strict && warns > 0 {
        let mut m = "[check] strict mode failed due to warnings: ".to_owned();
        push_decimal(&mut m, warns as u128);
        return Err(m);
    }
    Ok(())
}

/// The checks fail exactly if the word for them is `failed`.
pub proof fn law_check_word_and_verdict_agree(fails: nat, warns: nat, strict: bool)
    ensures
        overall_word(fails, warns, strict) == "failed"@ <==> fails > 0 || (strict && warns > 0),
{
    reveal_strlit("failed");
    reveal_strlit("warn");
    reveal_strlit("ok");
    assert("failed"@.len() == 6 && "warn"@.len() == 4 && "ok"@.len() == 2);
}

/// Every check is counted once: what is in order, what is doubtful and what fails
/// are all of them.
pub proof fn law_findings_add_up(f: Seq<FindingView>)
    ensures
        count_status(f, FindingStatus::Passed) + count_status(f, FindingStatus::Warn) + count_status(
            f,
            FindingStatus::Fail,
        ) == f.len(),
    decreases f.len(),
{
    if f.len() > 0 {
        law_findings_add_up(f.drop_last());
    }
}

/// A finding on a line of its own.
pub open spec fn finding_line(f: FindingView) -> Seq<char> {
    text::padded(f.name, 20) + " "@ + text::padded(status_text(f.status), 8) + " "@ + text::padded(
        f.details,
        70,
    ) + " "@ + f.recommendation.unwrap_or(Seq::empty())
}

/// A finding on a line of its own.
pub fn render_finding(f: &CheckFinding) -> (r: String)
    ensures
        r@ == finding_line(f@),
{
    let mut s = String::new();
    push_padded(&mut s, f.name.as_str(), 20);
    s.append(" ");
    let word = f.status.word();
    push_padded(&mut s, word.as_str(), 8);
    s.append(" ");
    push_padded(&mut s, f.details.as_str(), 70);
    s.append(" ");
    let ghost front = s@;
    if let Some(a) = &f.recommendation {
        s.append(a.as_str());
    }
    assert(s@ =~= finding_line(f@));
    s
}

/// The last line from the end that is not blank, of the first `n`.
pub open spec fn last_filled(lines: Seq<Seq<char>>, n: int) -> Option<Seq<char>>
    decreases n,
{
    if n <= 0 {
        None
    } else if text::trim(lines[n - 1]).len() > 0 {
        Some(lines[n - 1])
    } else {
        last_filled(lines, n - 1)
    }
}

/// The free space that the output of `df -k` tells of.
pub open spec fn df_bytes(out: Seq<char>) -> Result<u64, Seq<char>> {
    let lines = text::lines(out);
    match last_filled(lines, lines.len() as int) {
        None => Err("unexpected df output"@),
        Some(line) => {
            let cols = text::words(line);
            if cols.len() < 4 {
                Err("unexpected df output row: "@ + line)
            } else {
                match text::unsigned_of(cols[3], u64::MAX as nat) {
                    Some(kb) => Ok(plan::min_int(kb as int * 1024, u64::MAX as int) as u64),
                    None => Err(
                        "cannot parse df available kb from row: "@ + line + ": "@
                            + text::u64_error_of(cols[3]),
                    ),
                }
            }
        },
    }
}

/// The free space that the output of `df -k` tells of.
pub fn parse_df(out: &str) -> (r: Result<u64, String>)
    ensures
        sql::number_view(r) == df_bytes(out@),
{
    let lines = split_lines(out);
    let ghost all = text::lines(out@);
    let mut i: usize = lines.len();
    while i > 0
        invariant
            i <= lines@.len(),
            all == text::lines(out@),
            text::texts(lines@) == all,
            last_filled(all, all.len() as int) == last_filled(all, i as int),
        decreases i,
    {
        let t = trimmed(lines[i - 1].as_str());
        assert(all[i - 1] == lines@[i - 1]@);
        if !t.as_str().is_empty() {
            let line = lines[i - 1].as_str();
            let cols = split_words(line);
            let ghost words = text::words(line@);
            assert(text::texts(cols@) == words);
            if cols.len() < 4 {
                let mut m = "unexpected df output row: ".to_owned();
                m.append(line);
                return Err(m);
            }
            assert(words[3] == cols@[3]@);
            return match parse_unsigned(cols[3].as_str(), u64::MAX as u128) {
                Some(kb) => {
                    let b: u128 = kb * 1024;
                    Ok(
                        if b <= u64::MAX as u128 {
                            b as u64
                        } else {
                            u64::MAX
                        },
                    )
                },
                None => {
                    let mut m = "cannot parse df available kb from row: ".to_owned();
                    m.append(line);
                    m.append(": ");
                    let why = u64_error(cols[3].as_str());
                    m.append(why.as_str());
                    Err(m)
                },
            };
        }
        i -= 1;
    }
    Err("unexpected df output".to_owned())
}

/// The settings that the report of the checks records.
pub fn check_args(
    root_dir: &str,
    dataset: &str,
    strict: bool,
    precise: bool,
    workers: usize,
    max_memory_mb: Option<usize>,
) -> (r: Vec<ReportArg>)
    ensures
        convert::arg_views(r@) == seq![
            ("root_dir"@, root_dir@),
            ("dataset"@, dataset@),
            ("strict"@, download::bool_text(strict)),
            ("precise"@, download::bool_text(precise)),
            ("workers"@, text::decimal(workers as nat)),
            ("memory_mb"@, convert::shown_option(max_memory_mb)),
        ],
{
    let mut v: Vec<ReportArg> = Vec::new();
    let strict_text = bool_text_of(strict);
    let precise_text = bool_text_of(precise);
    let count = decimal_string(workers as u128);
    let memory = show_option(max_memory_mb);
    v.push(report_arg("root_dir", root_dir));
    v.push(report_arg("dataset", dataset));
    v.push(report_arg("strict", strict_text.as_str()));
    v.push(report_arg("precise", precise_text.as_str()));
    v.push(report_arg("workers", count.as_str()));
    v.push(report_arg("memory_mb", memory.as_str()));
    v
}

/// What is found of each kind is counted, and only that.
pub proof fn law_findings_are_counted(f: Seq<FindingView>, x: FindingView, s: FindingStatus)
    ensures
        count_status(Seq::empty(), s) == 0,
        x.status == s ==> count_status(f.push(x), s) == count_status(f, s) + 1,
        x.status != s ==> count_status(f.push(x), s) == count_status(f, s),
{
    assert(f.push(x).drop_last() =~= f);
}

/// All is well where nothing fails and nothing is doubtful; what is doubtful alone is a
/// warning, and a failure where warnings count as such.
pub proof fn law_overall_word(fails: nat, warns: nat)
    ensures
        overall_word(0, 0, true) == "ok"@,
        overall_word(0, 0, false) == "ok"@,
        warns > 0 ==> overall_word(0, warns, false) == "warn"@,
        warns > 0 ==> overall_word(0, warns, true) == "failed"@,
        fails > 0 ==> overall_word(fails, warns, false) == "failed"@,
        fails > 0 ==> overall_word(fails, warns, true) == "failed"@,
        status_text(FindingStatus::Passed) == "ok"@,
        status_text(FindingStatus::Warn) == "warn"@,
        status_text(FindingStatus::Fail) == "fail"@,
{
}

/// More memory than seven tenths of what the system has is doubtful, and so is a system
/// whose memory is not known; seven tenths or less is in order.
pub proof fn law_memory_is_checked(mem: usize, total: usize)
    requires
        total > 0,
    ensures
        memory_finding(mem, Some(total)).status == (if mem * 10 <= total * 7 {
            FindingStatus::Passed
        } else {
            FindingStatus::Warn
        }),
        memory_finding(mem, None).status == FindingStatus::Warn,
        memory_finding(mem, Some(total)).name == "memory_tuning"@,
        memory_finding(mem, Some(0)).status == FindingStatus::Passed,
{
}

/// A conversion needs the space of its sources and a fifth more, rounded down, where
/// they are known, and what must stay free where they are not.
pub proof fn law_space_for_a_conversion(estimate: u64, min_free: u64)
    ensures
        estimate * 12 <= u64::MAX ==> 5 * convert_required(true, estimate, min_free) <= estimate
            * 6 < 5 * convert_required(true, estimate, min_free) + 5,
        convert_required(false, estimate, min_free) == min_free,
{
}

/// The free space is read from the fourth word of the last line that is not blank, in
/// KiB.
pub proof fn law_free_space_is_read(
    out: Seq<char>,
    k: int,
    kib: nat,
)
    requires
        0 <= k < text::lines(out).len(),
        forall|i: int|
            k < i < text::lines(out).len() ==> text::trim(#[trigger] text::lines(out)[i]).len() == 0,
        text::trim(text::lines(out)[k]).len() > 0,
        text::words(text::lines(out)[k]).len() >= 4,
        text::words(text::lines(out)[k])[3] == text::decimal(kib),
        kib * 1024 <= u64::MAX,
    ensures
        df_bytes(out) matches Ok(n) && n == kib * 1024,
{
    lemma_last_filled(text::lines(out), k, text::lines(out).len() as int);
    text::law_decimal_round_trip(kib);
    text::law_unsigned_reading(text::decimal(kib), u64::MAX as nat);
}

proof fn lemma_last_filled(lines: Seq<Seq<char>>, k: int, n: int)
    requires
        0 <= k < n <= lines.len(),
        forall|i: int| k < i < n ==> text::trim(#[trigger] lines[i]).len() == 0,
        text::trim(lines[k]).len() > 0,
    ensures
        last_filled(lines, n) == Some(lines[k]),
    decreases n,
{
    if n - 1 > k {
        lemma_last_filled(lines, k, n - 1);
    }
}
/// What is said of space gives what is free first, then what is needed, both in whole GiB,
/// and what that is reckoned from.
pub proof fn law_space_is_shown(free: u64, required: int, note: Seq<char>, n: u64)
    ensures
        space_details(free, required, note) == "available="@ + download::gib_text(free as int)
            + " required="@ + download::gib_text(required) + note,
        download_note(n) == " (remote="@ + download::gib_text(n as int) + " +10%)"@,
        convert_note(true, n) == " (source="@ + download::gib_text(n as int) + " +20%)"@,
        convert_note(false, n) == ""@,
{
}

/// A failed check is recorded with what was looked at and what can be done.
pub proof fn law_failed_checks(
    dataset: Seq<char>,
    phase: Seq<char>,
    source: Option<Seq<char>>,
    output: Seq<char>,
    e: Seq<char>,
    recovery: Seq<char>,
)
    ensures
        ({
            let f = check_failure(dataset, phase, source, output, e, recovery);
            &&& f.dataset == dataset && f.phase == phase && f.error_message == e
            &&& f.source_path == source && f.output_path == Some(output) && f.rel_path is None
            &&& f.suggested_recovery == Some(recovery)
        }),
{
}

/// A finding is shown in columns: its name, its status, what was found and what can be done.
pub proof fn law_columns_of_a_finding(f: FindingView)
    requires
        f.name.len() <= 20,
        f.details.len() <= 70,
    ensures
        finding_line(f).subrange(0, 20) == text::padded(f.name, 20),
        finding_line(f).subrange(21, 29) == text::padded(status_text(f.status), 8),
        finding_line(f).subrange(30, 100) == text::padded(f.details, 70),
        finding_line(f).skip(101) == f.recommendation.unwrap_or(Seq::empty()),
{
    reveal_strlit(" ");
    reveal_strlit("ok");
    reveal_strlit("warn");
    reveal_strlit("fail");
    assert("ok"@.len() == 2 && "warn"@.len() == 4 && "fail"@.len() == 4);
    text::law_padded(f.name, 20);
    text::law_padded(status_text(f.status), 8);
    text::law_padded(f.details, 70);
    let t = finding_line(f);
    assert(t.subrange(0, 20) =~= text::padded(f.name, 20));
    assert(t.subrange(21, 29) =~= text::padded(status_text(f.status), 8));
    assert(t.subrange(30, 100) =~= text::padded(f.details, 70));
    assert(t.skip(101) =~= f.recommendation.unwrap_or(Seq::empty()));
}
/// What is found of the memory gives what is configured and what the system has.
pub proof fn law_memory_is_shown(mem: usize, total: usize)
    ensures
        ({
            let shown = "configured memory="@ + text::decimal(mem as nat) + " MB on system="@
                + text::decimal(total as nat) + " MB"@;
            let f = memory_finding(mem, Some(total));
            &&& f.status == FindingStatus::Passed ==> f.details == shown && f.recommendation is None
            &&& f.status == FindingStatus::Warn ==> f.details == shown + " (high ratio)"@
                && f.recommendation == Some(
                "reduce --workers or --max-memory-mb, or use --profile safe"@,
            )
        }),
        memory_finding(mem, None).details == "system memory could not be detected"@,
        memory_finding(mem, None).recommendation == Some("set --max-memory-mb explicitly"@),
{
}

/// Where space is short, it can be freed, or the check of that step switched off.
pub proof fn law_advice_on_space()
    ensures
        download_advice()
            == "Free up disk space, or set skip_disk_check: true under download: in your config, or pass --skip-disk-check to the download/all command"@,
        convert_advice()
            == "Free up disk space, or set skip_disk_check: true under convert: in your config, or pass --skip-disk-check to the convert/all command"@,
{
}
} // verus!
