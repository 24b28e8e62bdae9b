//! Verifying conversions: every source has its parquet file, nothing else stands
//! beside them, and each pair holds the same rows.

use vstd::prelude::*;
use vstd::string::*;
use crate::convert::show_option;
use crate::convert;
use crate::files::same_key;
use crate::order;
use crate::paths::{file_stem, join_path, parent, path_key, with_extension, PathKey};
use crate::paths;
use crate::plan::{FilePair, Tuning};
use crate::plan;
use crate::report::{failure, report_arg, DatasetReportSummary, FailureEntry, ReportArg, RunReport};
use crate::report;
use crate::sql::{
    count_json_sql, count_parquet_list_sql, count_parquet_sql, metrics_json_sql,
    metrics_parquet_list_sql, metrics_parquet_sql, metrics_row, row_number,
};
use crate::sql;
use crate::text::{
    chars_of, decimal_string, parse_unsigned, prefix_at, push_decimal, replaced, str_before,
    str_eq, string_of,
};
use crate::text;
use crate::textmap::TextMap;

verus! {

/// How much of a dataset is verified.
#[derive(Debug, Clone, Copy, PartialEq, Eq, Structural)]
pub enum VerifyScope {
    /// A sample of its files.
    File,
    /// All of its files, and that there are no others.
    Dataset,
    /// The same, for all datasets.
    Snapshot,
}

/// What is compared of a source and its parquet file.
#[derive(Debug, Clone, Copy, PartialEq, Eq, Structural)]
pub enum VerifyMetadataLevel {
    RowCount,
    IdHash,
    Both,
}

/// The order in which `rand` puts the numbers below `n`.
pub uninterp spec fn shuffle_of(n: nat, seed: u64) -> Seq<usize>;

/// Whether `order` lists the numbers below `n`, each once.
pub open spec fn is_permutation(order: Seq<usize>, n: nat) -> bool {
    &&& order.len() == n
    &&& order.no_duplicates()
    &&& forall|i: int| 0 <= i < n ==> #[trigger] order[i] < n
}

/// `rand::seq::SliceRandom::shuffle` of the numbers below `n`, with
/// `rand::rngs::StdRng::seed_from_u64` for its generator. The order depends on
/// `n` and `seed` alone, and it lists every number once. Which order it is is not
/// stated.
#[verifier::external_body]
fn shuffled(n: usize, seed: u64) -> (r: Vec<usize>)
    ensures
        r@ == shuffle_of(n as nat, seed),
        is_permutation(r@, n as nat),
{
    let mut order: Vec<usize> = (0..n).collect();
    let mut rng = <rand::rngs::StdRng as rand::SeedableRng>::seed_from_u64(seed);
    rand::seq::SliceRandom::shuffle(order.as_mut_slice(), &mut rng);
    order
}

/// The first `n` of the pairs, in the given order.
pub open spec fn sample(pairs: Seq<FilePair>, order: Seq<usize>, n: nat) -> Seq<FilePair> {
    Seq::new(
        plan::min_int(n as int, pairs.len() as int) as nat,
        |i: int| pairs[order[i] as int],
    )
}

/// The first `n` of the pairs, in the given order.
pub fn sample_in_order(pairs: &Vec<FilePair>, order: &Vec<usize>, n: usize) -> (r: Vec<FilePair>)
    requires
        is_permutation(order@, pairs@.len()),
    ensures
        r@ == sample(pairs@, order@, n as nat),
{
    let mut out: Vec<FilePair> = Vec::new();
    let count: usize = if n < pairs.len() {
        n
    } else {
        pairs.len()
    };
    let mut i: usize = 0;
    while i < count
        invariant
            i <= count == plan::min_int(n as int, pairs@.len() as int),
            is_permutation(order@, pairs@.len()),
            out@ == sample(pairs@, order@, n as nat).take(i as int),
        decreases count - i,
    {
        let k: usize = order[i];
        out.push(pairs[k].clone());
        i += 1;
        assert(sample(pairs@, order@, n as nat).take(i as int) =~= sample(
            pairs@,
            order@,
            n as nat,
        ).take(i - 1).push(pairs@[order@[i - 1] as int]));
    }
    assert(sample(pairs@, order@, n as nat).take(i as int) =~= sample(pairs@, order@, n as nat));
    out
}

/// A sample of the pairs that depends on `seed`.
pub fn verify_sample(pairs: &Vec<FilePair>, seed: u64, n: usize) -> (r: Vec<FilePair>)
    ensures
        r@ == sample(pairs@, shuffle_of(pairs@.len(), seed), n as nat),
{
    let order = shuffled(pairs.len(), seed);
    sample_in_order(pairs, &order, n)
}

/// A sample takes every file at most once.
pub proof fn law_sample_is_without_repeats(pairs: Seq<FilePair>, order: Seq<usize>, n: nat, i: int, j: int)
    requires
        is_permutation(order, pairs.len()),
        pairs.no_duplicates(),
        0 <= i < j < sample(pairs, order, n).len(),
    ensures
        sample(pairs, order, n)[i] != sample(pairs, order, n)[j],
        pairs.contains(sample(pairs, order, n)[i]),
{
    assert(order[i] < pairs.len() && order[j] < pairs.len());
    assert(order[i] != order[j]);
    assert(pairs[order[i] as int] == sample(pairs, order, n)[i]);
}

/// What is recorded of a pair that does not hold the same rows.
pub open spec fn metrics_failure(
    dataset: Seq<char>,
    p: plan::PairView,
    e: Seq<char>,
    recovery: Seq<char>,
) -> report::FailureView {
    convert::pair_failure(dataset, "verify_metrics"@, p, e, recovery)
}

fn fail_metrics(dataset: &str, p: &FilePair, e: String, recovery: &str) -> (r: FailureEntry)
    ensures
        r@ == metrics_failure(dataset@, p@, e@, recovery@),
{
    failure(
        dataset,
        "verify_metrics",
        Some(p.rel.as_str()),
        Some(p.input_gz.as_str()),
        Some(p.output_parquet.as_str()),
        e,
        Some(recovery.to_owned()),
    )
}

/// What is recorded of a sampled pair whose parquet file is missing.
pub fn missing_sample(dataset: &str, p: &FilePair) -> (r: FailureEntry)
    ensures
        r@ == metrics_failure(
            dataset@,
            p@,
            "missing parquet file"@,
            "re-run convert for this file"@,
        ),
{
    fail_metrics(dataset, p, "missing parquet file".to_owned(), "re-run convert for this file")
}

/// What is recorded of a pair whose comparison ended with `outcome`.
pub fn verified(dataset: &str, p: &FilePair, outcome: Result<(), String>) -> (r: Option<FailureEntry>)
    ensures
        match (outcome, r) {
            (Ok(_), None) => true,
            (Err(e), Some(f)) => f@ == metrics_failure(
                dataset@,
                p@,
                e@,
                "reconvert file and re-run verify"@,
            ),
            _ => false,
        },
{
    match outcome {
        Ok(_) => None,
        Err(e) => Some(fail_metrics(dataset, p, e, "reconvert file and re-run verify")),
    }
}

/// Whether two paths have the same components.
pub open spec fn same_path(a: Seq<char>, b: Seq<char>) -> bool {
    paths::sort_texts(a) == paths::sort_texts(b)
}

/// Whether one of the paths is `p`.
pub open spec fn has_path(s: Seq<Seq<char>>, p: Seq<char>) -> bool {
    exists|i: int| 0 <= i < s.len() && same_path(#[trigger] s[i], p)
}

fn has_key(keys: &Vec<PathKey>, k: &PathKey, Ghost(s): Ghost<Seq<Seq<char>>>, Ghost(p): Ghost<Seq<char>>) -> (r:
    bool)
    requires
        keys@.len() == s.len(),
        forall|i: int| 0 <= i < s.len() ==> (#[trigger] keys@[i])@ == paths::sort_texts(s[i]),
        k@ == paths::sort_texts(p),
    ensures
        r == has_path(s, p),
{
    let mut i: usize = 0;
    while i < keys.len()
        invariant
            i <= keys@.len() == s.len(),
            forall|i: int| 0 <= i < s.len() ==> (#[trigger] keys@[i])@ == paths::sort_texts(s[i]),
            k@ == paths::sort_texts(p),
            forall|j: int| 0 <= j < i ==> !same_path(#[trigger] s[j], p),
        decreases keys@.len() - i,
    {
        assert(keys@[i as int]@ == paths::sort_texts(s[i as int]));
        if same_key(&keys[i], k) {
            return true;
        }
        i += 1;
    }
    false
}

/// How many of the first paths of `s`, each counted once, are not in `t`.
pub open spec fn count_outside(s: Seq<Seq<char>>, t: Seq<Seq<char>>) -> nat
    decreases s.len(),
{
    if s.len() == 0 {
        0
    } else if has_path(s.drop_last(), s.last()) || has_path(t, s.last()) {
        count_outside(s.drop_last(), t)
    } else {
        count_outside(s.drop_last(), t) + 1
    }
}

fn keys_of(v: &Vec<String>) -> (r: Vec<PathKey>)
    ensures
        r@.len() == v@.len(),
        forall|i: int| 0 <= i < r@.len() ==> (#[trigger] r@[i])@ == paths::sort_texts(v@[i]@),
{
    let mut out: Vec<PathKey> = Vec::new();
    let mut i: usize = 0;
    while i < v.len()
        invariant
            i <= v@.len(),
            out@.len() == i,
            forall|k: int| 0 <= k < i ==> (#[trigger] out@[k])@ == paths::sort_texts(v@[k]@),
        decreases v@.len() - i,
    {
        out.push(path_key(v[i].as_str()));
        i += 1;
    }
    out
}

/// How many of the paths `v`, each counted once, are not among `w`.
pub fn paths_outside(v: &Vec<String>, w: &Vec<String>) -> (r: usize)
    ensures
        r == count_outside(text::texts(v@), text::texts(w@)),
{
    let all_keys = keys_of(v);
    let other_keys = keys_of(w);
    let ghost s = text::texts(v@);
    let ghost t = text::texts(w@);
    let mut seen: Vec<PathKey> = Vec::new();
    let mut n: usize = 0;
    let mut i: usize = 0;
    while i < v.len()
        invariant
            i <= v@.len(),
            s == text::texts(v@),
            t == text::texts(w@),
            n <= i,
            n == count_outside(s.take(i as int), t),
            all_keys@.len() == v@.len(),
            forall|k: int|
                0 <= k < v@.len() ==> (#[trigger] all_keys@[k])@ == paths::sort_texts(v@[k]@),
            other_keys@.len() == w@.len(),
            forall|k: int|
                0 <= k < w@.len() ==> (#[trigger] other_keys@[k])@ == paths::sort_texts(w@[k]@),
            seen@.len() == i,
            forall|k: int|
                0 <= k < i ==> (#[trigger] seen@[k])@ == paths::sort_texts(s.take(i as int)[k]),
        decreases v@.len() - i,
    {
        assert(s.take(i + 1).drop_last() =~= s.take(i as int));
        assert(all_keys@[i as int]@ == paths::sort_texts(s[i as int]));
        let again = has_key(&seen, &all_keys[i], Ghost(s.take(i as int)), Ghost(s[i as int]));
        let there = has_key(&other_keys, &all_keys[i], Ghost(t), Ghost(s[i as int]));
        if !again && !there {
            n += 1;
        }
        seen.push(path_key(v[i].as_str()));
        i += 1;
        assert forall|k: int| 0 <= k < i implies (#[trigger] seen@[k])@ == paths::sort_texts(
            s.take(i as int)[k],
        ) by {
            if k < i - 1 {
                assert(s.take(i as int)[k] == s.take(i - 1)[k]);
            }
        }
    }
    assert(s.take(i as int) =~= s);
    n
}

/// Where the parquet file of a source stands below its dataset.
pub open spec fn single_of(rel: Seq<char>) -> Seq<char> {
    paths::with_extension_of(rel, "parquet"@)
}

pub open spec fn dir_of(p: Seq<char>) -> Seq<char> {
    paths::parent_of(p).unwrap_or(Seq::empty())
}

/// Whether a name is that of a part: the name of the whole, and behind it an
/// underscore and a number in three places.
pub open spec fn is_part_name(name: Seq<char>, whole: Seq<char>) -> bool {
    &&& text::has_prefix(name, whole + "_"@)
    &&& name.len() == whole.len() + 4
    &&& text::unsigned_of(name.skip(whole.len() as int + 1), u32::MAX as nat) is Some
}

/// Whether `r` is a part of the parquet file `single`.
pub open spec fn is_part_of(r: Seq<char>, single: Seq<char>) -> bool {
    &&& same_path(dir_of(r), dir_of(single))
    &&& paths::file_stem_of(r) matches Some(name)
    &&& is_part_name(name, paths::file_stem_of(single).unwrap_or(Seq::empty()))
}

fn part_name(name: &str, whole: &str) -> (r: bool)
    ensures
        r == is_part_name(name@, whole@),
{
    let v = chars_of(name);
    let mut start = whole.to_owned();
    start.append("_");
    let w = chars_of(start.as_str());
    let n: usize = v.len();
    let m: usize = w.len();
    proof {
        reveal_strlit("_");
        assert(v@.skip(0) =~= v@);
    }
    if m > n || n - m != 3 || !prefix_at(&v, 0, &w) {
        return false;
    }
    let digits = string_of(&v, m, n);
    assert(digits@ =~= name@.skip(whole@.len() as int + 1));
    parse_unsigned(digits.as_str(), u32::MAX as u128).is_some()
}

fn dir_key(p: &str) -> (r: PathKey)
    ensures
        r@ == paths::sort_texts(dir_of(p@)),
{
    match parent(p) {
        Some(d) => path_key(d.as_str()),
        None => {
            let none = String::new();
            path_key(none.as_str())
        },
    }
}

fn stem_or_empty(p: &str) -> (r: String)
    ensures
        r@ == paths::file_stem_of(p@).unwrap_or(Seq::empty()),
{
    match file_stem(p) {
        Some(s) => s,
        None => String::new(),
    }
}

/// The parts of a parquet file among those that exist.
pub open spec fn parts_of(actual: Seq<Seq<char>>, single: Seq<char>) -> Seq<Seq<char>> {
    actual.filter(|r: Seq<char>| is_part_of(r, single))
}

/// The parquet files that the sources ask for: the parts where there are any, the
/// whole file otherwise.
pub open spec fn expected(rels: Seq<Seq<char>>, actual: Seq<Seq<char>>) -> Seq<Seq<char>>
    decreases rels.len(),
{
    if rels.len() == 0 {
        Seq::empty()
    } else {
        let single = single_of(rels.last());
        let parts = parts_of(actual, single);
        expected(rels.drop_last(), actual) + (if parts.len() > 0 {
            parts
        } else {
            seq![single]
        })
    }
}

pub open spec fn rels_of(pairs: Seq<FilePair>) -> Seq<Seq<char>> {
    Seq::new(pairs.len(), |i: int| pairs[i].rel@)
}

/// The parquet files that the sources of the pairs ask for; `actual` are those
/// that exist.
pub fn expected_parquet(pairs: &Vec<FilePair>, actual: &Vec<String>) -> (r: Vec<String>)
    ensures
        text::texts(r@) == expected(rels_of(pairs@), text::texts(actual@)),
{
    let ghost rels = rels_of(pairs@);
    let ghost have = text::texts(actual@);
    let mut dirs: Vec<PathKey> = Vec::new();
    let mut stems: Vec<Option<String>> = Vec::new();
    let mut i: usize = 0;
    while i < actual.len()
        invariant
            i <= actual@.len(),
            dirs@.len() == i,
            stems@.len() == i,
            forall|k: int|
                0 <= k < i ==> (#[trigger] dirs@[k])@ == paths::sort_texts(dir_of(actual@[k]@)),
            forall|k: int|
                0 <= k < i ==> report::opt(#[trigger] stems@[k]) == paths::file_stem_of(actual@[k]@),
        decreases actual@.len() - i,
    {
        dirs.push(dir_key(actual[i].as_str()));
        stems.push(file_stem(actual[i].as_str()));
        i += 1;
    }
    let mut out: Vec<String> = Vec::new();
    let mut i: usize = 0;
    assert(text::texts(out@) =~= expected(rels.take(0), have));
    while i < pairs.len()
        invariant
            i <= pairs@.len(),
            rels == rels_of(pairs@),
            have == text::texts(actual@),
            dirs@.len() == actual@.len(),
            stems@.len() == actual@.len(),
            forall|k: int|
                0 <= k < actual@.len() ==> (#[trigger] dirs@[k])@ == paths::sort_texts(
                    dir_of(actual@[k]@),
                ),
            forall|k: int|
                0 <= k < actual@.len() ==> report::opt(#[trigger] stems@[k]) == paths::file_stem_of(
                    actual@[k]@,
                ),
            text::texts(out@) == expected(rels.take(i as int), have),
        decreases pairs@.len() - i,
    {
        broadcast use text::lemma_texts_push;

        let single = with_extension(pairs[i].rel.as_str(), "parquet");
        let dir = dir_key(single.as_str());
        let stem = stem_or_empty(single.as_str());
        let ghost here = |r: Seq<char>| is_part_of(r, single@);
        let ghost before = text::texts(out@);
        let mut parts: usize = 0;
        let mut k: usize = 0;
        proof {
            reveal(Seq::filter);
            assert(rels.take(i + 1).drop_last() =~= rels.take(i as int));
            assert(before + have.take(0).filter(here) =~= before);
        }
        while k < actual.len()
            invariant
                k <= actual@.len(),
                have == text::texts(actual@),
                dirs@.len() == actual@.len(),
                stems@.len() == actual@.len(),
                forall|k: int|
                    0 <= k < actual@.len() ==> (#[trigger] dirs@[k])@ == paths::sort_texts(
                        dir_of(actual@[k]@),
                    ),
                forall|k: int|
                    0 <= k < actual@.len() ==> report::opt(#[trigger] stems@[k])
                        == paths::file_stem_of(actual@[k]@),
                dir@ == paths::sort_texts(dir_of(single@)),
                stem@ == paths::file_stem_of(single@).unwrap_or(Seq::empty()),
                here == (|r: Seq<char>| is_part_of(r, single@)),
                parts == have.take(k as int).filter(here).len(),
                parts <= k,
                text::texts(out@) == before + have.take(k as int).filter(here),
            decreases actual@.len() - k,
        {
            broadcast use text::lemma_texts_push;

            proof {
                reveal(Seq::filter);
                assert(have.take(k + 1).drop_last() =~= have.take(k as int));
                assert(dirs@[k as int]@ == paths::sort_texts(dir_of(actual@[k as int]@)));
                assert(report::opt(stems@[k as int]) == paths::file_stem_of(actual@[k as int]@));
            }
            let named = match &stems[k] {
                Some(name) => part_name(name.as_str(), stem.as_str()),
                None => false,
            };
            if named && same_key(&dirs[k], &dir) {
                out.push(actual[k].clone());
                parts += 1;
            }
            k += 1;
            assert(text::texts(out@) =~= before + have.take(k as int).filter(here));
        }
        assert(have.take(k as int) =~= have);
        if parts == 0 {
            out.push(single);
        }
        proof {
            assert(rels.take(i + 1).last() == pairs@[i as int].rel@);
            assert(text::texts(out@) =~= expected(rels.take(i + 1), have));
        }
        i += 1;
    }
    assert(rels.take(i as int) =~= rels);
    out
}

/// What is recorded of a source without its parquet file.
pub open spec fn missing_failure(dataset: Seq<char>, parquet_dir: Seq<char>, rel: Seq<char>) -> report::FailureView {
    report::FailureView {
        dataset,
        phase: "structure"@,
        rel_path: Some(rel),
        source_path: None,
        output_path: Some(
            paths::join_of(paths::join_of(parquet_dir, dataset), single_of(rel)),
        ),
        error_message: "missing parquet file"@,
        suggested_recovery: Some("re-run convert for missing files"@),
    }
}

/// What is recorded where the parquet files are not those that the sources ask
/// for.
pub open spec fn mismatch_failure(
    dataset: Seq<char>,
    parquet_dir: Seq<char>,
    missing: nat,
    extra: nat,
) -> report::FailureView {
    report::FailureView {
        dataset,
        phase: "structure"@,
        rel_path: None,
        source_path: None,
        output_path: Some(paths::join_of(parquet_dir, dataset)),
        error_message: "structure mismatch (missing="@ + text::decimal(missing) + ", extra="@
            + text::decimal(extra) + ")"@,
        suggested_recovery: Some("re-run convert and clean unexpected parquet files"@),
    }
}

/// The failures of the sources whose parquet file does not exist.
pub open spec fn missing_failures(
    dataset: Seq<char>,
    parquet_dir: Seq<char>,
    rels: Seq<Seq<char>>,
    exists_flags: Seq<bool>,
) -> Seq<report::FailureView>
    decreases rels.len(),
{
    if rels.len() == 0 {
        Seq::empty()
    } else {
        let rest = missing_failures(dataset, parquet_dir, rels.drop_last(), exists_flags);
        if exists_flags[rels.len() - 1] {
            rest
        } else {
            rest.push(missing_failure(dataset, parquet_dir, rels.last()))
        }
    }
}

/// All that is wrong with the files of a dataset, before any is read.
pub open spec fn structure_failures_of(
    dataset: Seq<char>,
    parquet_dir: Seq<char>,
    rels: Seq<Seq<char>>,
    exists_flags: Seq<bool>,
    actual: Seq<Seq<char>>,
) -> Seq<report::FailureView> {
    let want = expected(rels, actual);
    let missing = count_outside(want, actual);
    let extra = count_outside(actual, want);
    missing_failures(dataset, parquet_dir, rels, exists_flags) + (if missing == 0 && extra == 0 {
        Seq::empty()
    } else {
        seq![mismatch_failure(dataset, parquet_dir, missing, extra)]
    })
}

/// No path is outside exactly if each is among the others.
proof fn lemma_none_outside(s: Seq<Seq<char>>, t: Seq<Seq<char>>)
    ensures
        count_outside(s, t) == 0 <==> forall|k: int| 0 <= k < s.len() ==> has_path(t, #[trigger] s[k]),
    decreases s.len(),
{
    if s.len() > 0 {
        let init = s.drop_last();
        lemma_none_outside(init, t);
        if count_outside(s, t) == 0 {
            assert forall|k: int| 0 <= k < s.len() implies has_path(t, #[trigger] s[k]) by {
                if k < init.len() {
                    assert(init[k] == s[k]);
                } else if has_path(init, s.last()) {
                    let i = choose|i: int| 0 <= i < init.len() && same_path(#[trigger] init[i], s.last());
                    assert(has_path(t, init[i]));
                    let j = choose|j: int| 0 <= j < t.len() && same_path(#[trigger] t[j], init[i]);
                    assert(same_path(t[j], s.last()));
                }
            }
        }
        if forall|k: int| 0 <= k < s.len() ==> has_path(t, #[trigger] s[k]) {
            assert forall|k: int| 0 <= k < init.len() implies has_path(t, #[trigger] init[k]) by {
                assert(init[k] == s[k]);
            }
            assert(has_path(t, s[s.len() - 1]));
        }
    }
}

proof fn lemma_no_missing(
    dataset: Seq<char>,
    parquet_dir: Seq<char>,
    rels: Seq<Seq<char>>,
    exists_flags: Seq<bool>,
)
    ensures
        missing_failures(dataset, parquet_dir, rels, exists_flags).len() == 0 <==> forall|i: int|
            0 <= i < rels.len() ==> #[trigger] exists_flags[i],
    decreases rels.len(),
{
    if rels.len() > 0 {
        lemma_no_missing(dataset, parquet_dir, rels.drop_last(), exists_flags);
    }
}

/// Nothing is wrong with the files of a dataset, before any is read, exactly if every
/// source has its parquet file, every file that the sources ask for is there, and every
/// file that is there is asked for.
pub proof fn law_structure_passes_exactly_if_complete(
    dataset: Seq<char>,
    parquet_dir: Seq<char>,
    rels: Seq<Seq<char>>,
    exists_flags: Seq<bool>,
    actual: Seq<Seq<char>>,
)
    ensures
        structure_failures_of(dataset, parquet_dir, rels, exists_flags, actual).len() == 0 <==> {
            &&& forall|i: int| 0 <= i < rels.len() ==> #[trigger] exists_flags[i]
            &&& forall|k: int|
                0 <= k < expected(rels, actual).len() ==> has_path(
                    actual,
                    #[trigger] expected(rels, actual)[k],
                )
            &&& forall|k: int|
                0 <= k < actual.len() ==> has_path(expected(rels, actual), #[trigger] actual[k])
        },
{
    lemma_no_missing(dataset, parquet_dir, rels, exists_flags);
    lemma_none_outside(expected(rels, actual), actual);
    lemma_none_outside(actual, expected(rels, actual));
}

/// The parquet files of sources that are converted whole.
pub open spec fn singles_of(rels: Seq<Seq<char>>) -> Seq<Seq<char>> {
    Seq::new(rels.len(), |i: int| single_of(rels[i]))
}

proof fn lemma_whole_files_are_expected(rels: Seq<Seq<char>>, actual: Seq<Seq<char>>)
    requires
        forall|k: int, i: int|
            0 <= k < actual.len() && 0 <= i < rels.len() ==> !is_part_of(
                #[trigger] actual[k],
                single_of(#[trigger] rels[i]),
            ),
    ensures
        expected(rels, actual) == singles_of(rels),
    decreases rels.len(),
{
    if rels.len() > 0 {
        let init = rels.drop_last();
        let single = single_of(rels.last());
        assert forall|k: int, i: int|
            0 <= k < actual.len() && 0 <= i < init.len() implies !is_part_of(
            #[trigger] actual[k],
            single_of(#[trigger] init[i]),
        ) by {
            assert(init[i] == rels[i]);
        }
        lemma_whole_files_are_expected(init, actual);
        assert(parts_of(actual, single).len() == 0) by {
            let keep = |r: Seq<char>| is_part_of(r, single);
            if actual.filter(keep).len() > 0 {
                broadcast use vstd::seq_lib::group_filter_ensures;

                let x = actual.filter(keep)[0];
                assert(keep(x));
                assert(actual.filter(keep).contains(x));
                actual.lemma_filter_contains_rev(keep, x);
                let k = choose|k: int| 0 <= k < actual.len() && actual[k] == x;
                assert(!is_part_of(actual[k], single_of(rels[rels.len() - 1])));
            }
        }
        assert(singles_of(rels) =~= singles_of(init) + seq![single]);
    } else {
        assert(singles_of(rels) =~= Seq::empty());
    }
}

/// A dataset that was converted without splitting passes: its files are the whole files
/// of its sources, and no source is named like a part of another.
pub proof fn law_complete_conversion_passes(
    dataset: Seq<char>,
    parquet_dir: Seq<char>,
    rels: Seq<Seq<char>>,
    exists_flags: Seq<bool>,
    actual: Seq<Seq<char>>,
)
    requires
        forall|i: int| 0 <= i < rels.len() ==> #[trigger] exists_flags[i],
        forall|i: int| 0 <= i < rels.len() ==> has_path(actual, single_of(#[trigger] rels[i])),
        forall|k: int| 0 <= k < actual.len() ==> has_path(singles_of(rels), #[trigger] actual[k]),
        forall|k: int, i: int|
            0 <= k < actual.len() && 0 <= i < rels.len() ==> !is_part_of(
                #[trigger] actual[k],
                single_of(#[trigger] rels[i]),
            ),
    ensures
        structure_failures_of(dataset, parquet_dir, rels, exists_flags, actual).len() == 0,
{
    lemma_whole_files_are_expected(rels, actual);
    law_structure_passes_exactly_if_complete(dataset, parquet_dir, rels, exists_flags, actual);
    assert forall|k: int| 0 <= k < singles_of(rels).len() implies has_path(
        actual,
        #[trigger] singles_of(rels)[k],
    ) by {
        assert(has_path(actual, single_of(rels[k])));
    }
}

/// Checks the files of a dataset, before any is read: `output_exists` says which
/// of the pairs have their parquet file, `actual` are the parquet files below the
/// dataset.
pub fn structure_failures(
    dataset: &str,
    parquet_dir: &str,
    pairs: &Vec<FilePair>,
    output_exists: &Vec<bool>,
    actual: &Vec<String>,
) -> (r: Vec<FailureEntry>)
    requires
        output_exists@.len() == pairs@.len(),
    ensures
        report::failure_views(r@) == structure_failures_of(
            dataset@,
            parquet_dir@,
            rels_of(pairs@),
            output_exists@,
            text::texts(actual@),
        ),
{
    broadcast use report::lemma_failure_views_push;

    let root = join_path(parquet_dir, dataset);
    let ghost rels = rels_of(pairs@);
    let mut out: Vec<FailureEntry> = Vec::new();
    let mut i: usize = 0;
    assert(report::failure_views(out@) =~= missing_failures(
        dataset@,
        parquet_dir@,
        rels.take(0),
        output_exists@,
    ));
    while i < pairs.len()
        invariant
            i <= pairs@.len(),
            output_exists@.len() == pairs@.len(),
            rels == rels_of(pairs@),
            root@ == paths::join_of(parquet_dir@, dataset@),
            report::failure_views(out@) == missing_failures(
                dataset@,
                parquet_dir@,
                rels.take(i as int),
                output_exists@,
            ),
        decreases pairs@.len() - i,
    {
        broadcast use report::lemma_failure_views_push;

        assert(rels.take(i + 1).drop_last() =~= rels.take(i as int));
        assert(rels.take(i + 1).last() == pairs@[i as int].rel@);
        if !output_exists[i] {
            let below = with_extension(pairs[i].rel.as_str(), "parquet");
            let path = join_path(root.as_str(), below.as_str());
            let f = failure(
                dataset,
                "structure",
                Some(pairs[i].rel.as_str()),
                None,
                Some(path.as_str()),
                "missing parquet file".to_owned(),
                Some("re-run convert for missing files".to_owned()),
            );
            assert(f@ =~= missing_failure(dataset@, parquet_dir@, pairs@[i as int].rel@));
            out.push(f);
        }
        i += 1;
    }
    assert(rels.take(i as int) =~= rels);
    let want = expected_parquet(pairs, actual);
    let missing: usize = paths_outside(&want, actual);
    let extra: usize = paths_outside(actual, &want);
    let ghost first = report::failure_views(out@);
    if missing != 0 || extra != 0 {
        let mut e = "structure mismatch (missing=".to_owned();
        push_decimal(&mut e, missing as u128);
        e.append(", extra=");
        push_decimal(&mut e, extra as u128);
        e.append(")");
        let f = failure(
            dataset,
            "structure",
            None,
            None,
            Some(root.as_str()),
            e,
            Some("re-run convert and clean unexpected parquet files".to_owned()),
        );
        let ghost fv = f@;
        out.push(f);
        assert(report::failure_views(out@) =~= first + seq![fv]);
    } else {
        assert(first =~= first + Seq::<report::FailureView>::empty());
    }
    out
}

proof fn lemma_leading_zeros(k: nat, d: Seq<char>)
    ensures
        text::decimal_value(Seq::new(k, |i: int| '0') + d) == text::decimal_value(d),
    decreases k + d.len(),
{
    let z = Seq::new(k, |i: int| '0');
    if d.len() > 0 {
        lemma_leading_zeros(k, d.drop_last());
        assert((z + d).drop_last() =~= z + d.drop_last());
    } else if k > 0 {
        lemma_leading_zeros((k - 1) as nat, d);
        assert((z + d).drop_last() =~= Seq::new((k - 1) as nat, |i: int| '0') + d);
    } else {
        assert(z + d =~= d);
    }
}

/// What splitting makes of a source is what verifying expects of it: the name of
/// each of the first 999 parts is taken for that of a part.
pub proof fn law_parts_are_expected(whole: Seq<char>, n: nat)
    requires
        n < 1000,
    ensures
        is_part_name(whole + "_"@ + text::zero_padded(n, 3), whole),
{
    let d = text::decimal(n);
    let z = text::zero_padded(n, 3);
    text::law_decimal_round_trip(n);
    reveal_with_fuel(text::decimal, 4);
    assert(d.len() <= 3);
    lemma_leading_zeros((3 - d.len()) as nat, d);
    assert(z =~= Seq::new((3 - d.len()) as nat, |i: int| '0') + d);
    assert forall|i: int| 0 <= i < z.len() implies text::is_digit(#[trigger] z[i]) by {
        if i >= 3 - d.len() {
            assert(z[i] == d[i - (3 - d.len())]);
        }
    }
    let name = whole + "_"@ + z;
    reveal_strlit("_");
    assert(name.take((whole + "_"@).len() as int) =~= whole + "_"@);
    assert(name.skip(whole.len() as int + 1) =~= z);
    assert(text::is_digit(z[0]));
}

/// What a cache knows of a file: its size and time of change, how many rows it
/// has and the sum over their ids.
#[derive(Debug)]
pub struct MetricRow {
    pub rel_path: String,
    pub size: u64,
    pub mtime_unix: i64,
    pub row_count: u64,
    pub id_hash: String,
}

impl Clone for MetricRow {
    fn clone(&self) -> (r: Self)
        ensures
            r == *self,
    {
        MetricRow {
            rel_path: self.rel_path.clone(),
            size: self.size,
            mtime_unix: self.mtime_unix,
            row_count: self.row_count,
            id_hash: self.id_hash.clone(),
        }
    }
}

/// What is known of the files of a dataset, by their path.
pub struct MetricCache {
    pub rows: Vec<MetricRow>,
}

pub open spec fn row_at(rows: Seq<MetricRow>, i: int, rel: Seq<char>) -> bool {
    0 <= i < rows.len() && rows[i].rel_path@ == rel
}

impl MetricCache {
    /// Whether every path has one row.
    pub open spec fn wf(self) -> bool {
        forall|i: int, j: int|
            0 <= i < j < self.rows@.len() ==> (#[trigger] self.rows@[i]).rel_path@ != (
            #[trigger] self.rows@[j]).rel_path@
    }

    pub open spec fn knows(self, rel: Seq<char>) -> bool {
        exists|i: int| #[trigger] row_at(self.rows@, i, rel)
    }

    /// What is known of a file.
    pub open spec fn row_of(self, rel: Seq<char>) -> MetricRow {
        self.rows@[choose|i: int| #[trigger] row_at(self.rows@, i, rel)]
    }

    /// A cache that knows nothing.
    pub fn new() -> (r: Self)
        ensures
            r.wf(),
            forall|rel: Seq<char>| !#[trigger] r.knows(rel),
    {
        MetricCache { rows: Vec::new() }
    }

    fn find(&self, rel: &str) -> (r: Option<usize>)
        requires
            self.wf(),
        ensures
            match r {
                Some(i) => row_at(self.rows@, i as int, rel@) && self.knows(rel@) && self.row_of(
                    rel@,
                ) == self.rows@[i as int],
                None => !self.knows(rel@),
            },
    {
        let mut i: usize = 0;
        while i < self.rows.len()
            invariant
                self.wf(),
                i <= self.rows@.len(),
                forall|k: int| 0 <= k < i ==> !row_at(self.rows@, k, rel@),
            decreases self.rows@.len() - i,
        {
            if str_eq(self.rows[i].rel_path.as_str(), rel) {
                proof {
                    assert(row_at(self.rows@, i as int, rel@));
                    let k = choose|k: int| #[trigger] row_at(self.rows@, k, rel@);
                    assert(row_at(self.rows@, k, rel@));
                    if k < i {
                        assert(self.rows@[k].rel_path@ != self.rows@[i as int].rel_path@);
                    } else if i < k {
                        assert(self.rows@[i as int].rel_path@ != self.rows@[k].rel_path@);
                    }
                }
                return Some(i);
            }
            i += 1;
        }
        None
    }

    /// What is known of a file.
    pub fn get(&self, rel: &str) -> (r: Option<MetricRow>)
        requires
            self.wf(),
        ensures
            match r {
                Some(row) => self.knows(rel@) && row == self.row_of(rel@),
                None => !self.knows(rel@),
            },
    {
        match self.find(rel) {
            Some(i) => Some(self.rows[i].clone()),
            None => None,
        }
    }

    /// Takes note of a file, in place of what was known of it.
    pub fn insert(&mut self, row: MetricRow)
        requires
            old(self).wf(),
        ensures
            final(self).wf(),
            final(self).knows(row.rel_path@),
            final(self).row_of(row.rel_path@) == row,
            forall|rel: Seq<char>|
                rel != row.rel_path@ ==> #[trigger] final(self).knows(rel) == old(self).knows(rel),
            forall|rel: Seq<char>|
                rel != row.rel_path@ && old(self).knows(rel) ==> #[trigger] final(self).row_of(rel)
                    == old(self).row_of(rel),
    {
        let ghost was = *self;
        let ghost rel0 = row.rel_path@;
        let ghost new_row = row;
        let at = self.find(row.rel_path.as_str());
        let ghost at_int: int = match at {
            Some(i) => i as int,
            None => was.rows@.len() as int,
        };
        match at {
            Some(i) => {
                self.rows.set(i, row);
            },
            None => {
                self.rows.push(row);
            },
        }
        proof {
            let now = *self;
            assert(row_at(now.rows@, at_int, rel0));
            assert forall|i: int, j: int| 0 <= i < j < now.rows@.len() implies (
            #[trigger] now.rows@[i]).rel_path@ != (#[trigger] now.rows@[j]).rel_path@ by {
                if i == at_int {
                    if at is None {
                        assert(false);
                    }
                    assert(was.rows@[i].rel_path@ != was.rows@[j].rel_path@);
                } else if j == at_int {
                    if at is None {
                        assert(!row_at(was.rows@, i, rel0));
                    } else {
                        assert(was.rows@[i].rel_path@ != was.rows@[j].rel_path@);
                    }
                } else {
                    assert(was.rows@[i].rel_path@ != was.rows@[j].rel_path@);
                }
            }
            lemma_one_row(now, at_int, rel0);
            assert forall|rel: Seq<char>| rel != rel0 implies #[trigger] now.knows(rel) == was.knows(
                rel,
            ) by {
                if was.knows(rel) {
                    let i = choose|i: int| #[trigger] row_at(was.rows@, i, rel);
                    assert(row_at(now.rows@, i, rel));
                }
                if now.knows(rel) {
                    let i = choose|i: int| #[trigger] row_at(now.rows@, i, rel);
                    assert(row_at(was.rows@, i, rel));
                }
            }
            assert forall|rel: Seq<char>| rel != rel0 && was.knows(rel) implies #[trigger] now.row_of(
                rel,
            ) == was.row_of(rel) by {
                let i = choose|i: int| #[trigger] row_at(was.rows@, i, rel);
                assert(row_at(now.rows@, i, rel));
                lemma_one_row(now, i, rel);
            }
        }
    }

    /// All that is known, in the order of the paths.
    pub fn sorted_rows(&self) -> (r: Vec<MetricRow>)
        ensures
            r@ == order::sorted_by(self.rows@, by_rel_text()),
    {
        let mut out: Vec<MetricRow> = Vec::new();
        let mut i: usize = 0;
        assert(out@ =~= order::sorted_by(self.rows@.take(0), by_rel_text()));
        while i < self.rows.len()
            invariant
                i <= self.rows@.len(),
                out@ == order::sorted_by(self.rows@.take(i as int), by_rel_text()),
            decreases self.rows@.len() - i,
        {
            let ghost x = self.rows@[i as int];
            let mut j: usize = out.len();
            while j > 0 && str_before(
                self.rows[i].rel_path.as_str(),
                out[j - 1].rel_path.as_str(),
            )
                invariant
                    j <= out@.len(),
                    i < self.rows@.len(),
                    x == self.rows@[i as int],
                    forall|k: int| j <= k < out@.len() ==> by_rel_text()(x, #[trigger] out@[k]),
                decreases j,
            {
                j -= 1;
            }
            proof {
                order::lemma_insert_by(out@, x, by_rel_text(), j as int);
                assert(self.rows@.take(i + 1).drop_last() =~= self.rows@.take(i as int));
            }
            out.insert(j, self.rows[i].clone());
            i += 1;
        }
        assert(self.rows@.take(i as int) =~= self.rows@);
        out
    }
}

proof fn lemma_one_row(c: MetricCache, i: int, rel: Seq<char>)
    requires
        c.wf(),
        row_at(c.rows@, i, rel),
    ensures
        c.knows(rel),
        c.row_of(rel) == c.rows@[i],
{
    let k = choose|k: int| #[trigger] row_at(c.rows@, k, rel);
    assert(row_at(c.rows@, k, rel));
    if k < i {
        assert(c.rows@[k].rel_path@ != c.rows@[i].rel_path@);
    } else if i < k {
        assert(c.rows@[i].rel_path@ != c.rows@[k].rel_path@);
    }
}

/// The order of what is known by the text of the path.
pub open spec fn by_rel_text() -> spec_fn(MetricRow, MetricRow) -> bool {
    |a: MetricRow, b: MetricRow| text::text_lt(a.rel_path@, b.rel_path@)
}

/// The name under which a file is known: its path below its dataset, with `/` for
/// every `\`.
pub fn metric_key(p: &FilePair) -> (r: String)
    ensures
        r@ == text::replace_char(p.rel@, '\\', "/"@),
{
    replaced(p.rel.as_str(), '\\', "/")
}

/// Whether the ids are compared.
pub open spec fn compares_ids(level: VerifyMetadataLevel) -> bool {
    level != VerifyMetadataLevel::RowCount
}

/// Whether the numbers of rows are compared.
pub open spec fn compares_counts(level: VerifyMetadataLevel) -> bool {
    level != VerifyMetadataLevel::IdHash
}

/// Whether the ids are compared.
pub fn needs_hash(level: VerifyMetadataLevel) -> (r: bool)
    ensures
        r == compares_ids(level),
{
    level != VerifyMetadataLevel::RowCount
}

/// Whether what is known of a file still holds: the file has not changed, and all
/// that is asked for is known.
pub open spec fn is_fresh(row: MetricRow, size: u64, mtime_unix: i64, need_hash: bool) -> bool {
    row.size == size && row.mtime_unix == mtime_unix && (!need_hash || row.id_hash@.len() > 0)
}

/// What is known of a file, where it still holds.
pub fn fresh_row(cache: &MetricCache, rel: &str, size: u64, mtime_unix: i64, need_hash: bool) -> (r:
    Option<MetricRow>)
    requires
        cache.wf(),
    ensures
        match r {
            Some(row) => cache.knows(rel@) && row == cache.row_of(rel@) && is_fresh(
                row,
                size,
                mtime_unix,
                need_hash,
            ),
            None => !cache.knows(rel@) || !is_fresh(
                cache.row_of(rel@),
                size,
                mtime_unix,
                need_hash,
            ),
        },
{
    match cache.get(rel) {
        Some(row) => {
            if row.size == size && row.mtime_unix == mtime_unix && (!need_hash
                || !row.id_hash.as_str().is_empty()) {
                Some(row)
            } else {
                None
            }
        },
        None => None,
    }
}

/// What is asked of the database about a source.
pub open spec fn source_question(input: Seq<char>, need_hash: bool, memory_mb: Option<usize>) -> Seq<char> {
    if need_hash {
        sql::metrics_json_sql_of(input, memory_mb)
    } else {
        sql::count_json_sql_of(input, memory_mb)
    }
}

/// What is asked of the database about a source.
pub fn ask_source(p: &FilePair, need_hash: bool, memory_mb: Option<usize>) -> (r: String)
    ensures
        r@ == source_question(p.input_gz@, need_hash, memory_mb),
{
    if need_hash {
        metrics_json_sql(p.input_gz.as_str(), memory_mb)
    } else {
        count_json_sql(p.input_gz.as_str(), memory_mb)
    }
}

/// What is asked of the database about a parquet file, or about its parts where
/// there are any.
pub open spec fn parquet_question(
    output: Seq<char>,
    parts: Seq<Seq<char>>,
    need_hash: bool,
    memory_mb: Option<usize>,
) -> Seq<char> {
    if parts.len() > 0 {
        if need_hash {
            sql::metrics_parquet_list_sql_of(parts, memory_mb)
        } else {
            sql::count_parquet_list_sql_of(parts, memory_mb)
        }
    } else if need_hash {
        sql::metrics_parquet_sql_of(output, memory_mb)
    } else {
        sql::count_parquet_sql_of(output, memory_mb)
    }
}

/// What is asked of the database about a parquet file, or about its parts where
/// there are any.
pub fn ask_parquet(p: &FilePair, parts: &Vec<String>, need_hash: bool, memory_mb: Option<usize>) -> (r:
    String)
    ensures
        r@ == parquet_question(p.output_parquet@, text::texts(parts@), need_hash, memory_mb),
{
    if parts.len() > 0 {
        if need_hash {
            metrics_parquet_list_sql(parts, memory_mb)
        } else {
            count_parquet_list_sql(parts, memory_mb)
        }
    } else if need_hash {
        metrics_parquet_sql(p.output_parquet.as_str(), memory_mb)
    } else {
        count_parquet_sql(p.output_parquet.as_str(), memory_mb)
    }
}

/// What the database says of a file: how many rows it has and, where that was
/// asked for, the sum over their ids.
pub open spec fn answer_of(row: Map<Seq<char>, Seq<char>>, need_hash: bool) -> Result<
    (u64, Seq<char>),
    Seq<char>,
> {
    if need_hash {
        sql::metrics_of(row)
    } else {
        match sql::cell_number(sql::row_cell(row, "n"@)) {
            Ok(n) => Ok((n, Seq::empty())),
            Err(e) => Err(e),
        }
    }
}

/// What is known of a file after the database has answered.
pub fn answered_row(
    rel: &str,
    size: u64,
    mtime_unix: i64,
    row: &TextMap,
    need_hash: bool,
) -> (r: Result<MetricRow, String>)
    requires
        row.wf(),
    ensures
        match (r, answer_of(row@, need_hash)) {
            (Ok(m), Ok(a)) => {
                &&& m.rel_path@ == rel@
                &&& m.size == size
                &&& m.mtime_unix == mtime_unix
                &&& m.row_count == a.0
                &&& m.id_hash@ == a.1
            },
            (Err(e), Err(m)) => e@ == m,
            _ => false,
        },
{
    let (row_count, id_hash) = if need_hash {
        match metrics_row(row) {
            Ok(m) => m,
            Err(e) => {
                return Err(e);
            },
        }
    } else {
        match row_number(row, "n") {
            Ok(n) => (n, String::new()),
            Err(e) => {
                return Err(e);
            },
        }
    };
    Ok(MetricRow { rel_path: rel.to_owned(), size, mtime_unix, row_count, id_hash })
}

/// What the cache has been told of a file is what it says of it until the file
/// changes, as long as no more is asked for.
pub proof fn law_told_rows_are_fresh(row: MetricRow, asked_hash: bool, need_hash: bool)
    requires
        asked_hash ==> row.id_hash@.len() > 0,
        need_hash ==> asked_hash,
    ensures
        is_fresh(row, row.size, row.mtime_unix, need_hash),
{
}

/// The sizes of the parts together.
pub open spec fn total_size(parts: Seq<(u64, i64)>) -> int
    decreases parts.len(),
{
    if parts.len() == 0 {
        0
    } else {
        total_size(parts.drop_last()) + parts.last().0
    }
}

/// The latest time at which a part was changed, not before zero.
pub open spec fn latest_change(parts: Seq<(u64, i64)>) -> int
    decreases parts.len(),
{
    if parts.len() == 0 {
        0
    } else {
        plan::max_int(latest_change(parts.drop_last()), parts.last().1 as int)
    }
}

proof fn lemma_total_size_mono(parts: Seq<(u64, i64)>, i: int)
    requires
        0 <= i <= parts.len(),
    ensures
        0 <= total_size(parts.take(i)) <= total_size(parts),
    decreases parts.len(), i,
{
    if i == parts.len() {
        assert(parts.take(i) =~= parts);
        if i > 0 {
            lemma_total_size_mono(parts.drop_last(), i - 1);
        }
    } else {
        lemma_total_size_mono(parts.drop_last(), i);
        assert(parts.drop_last().take(i) =~= parts.take(i));
    }
}

/// Size and time of change of a file in parts.
pub fn parts_signature(parts: &Vec<(u64, i64)>) -> (r: (u64, i64))
    requires
        total_size(parts@) <= u64::MAX,
    ensures
        r.0 == total_size(parts@),
        r.1 == latest_change(parts@),
{
    let mut size: u64 = 0;
    let mut mtime: i64 = 0;
    let mut i: usize = 0;
    while i < parts.len()
        invariant
            i <= parts@.len(),
            total_size(parts@) <= u64::MAX,
            size == total_size(parts@.take(i as int)),
            mtime == latest_change(parts@.take(i as int)),
        decreases parts@.len() - i,
    {
        proof {
            assert(parts@.take(i + 1).drop_last() =~= parts@.take(i as int));
            lemma_total_size_mono(parts@, i + 1);
        }
        size = size + parts[i].0;
        if parts[i].1 > mtime {
            mtime = parts[i].1;
        }
        i += 1;
    }
    assert(parts@.take(i as int) =~= parts@);
    (size, mtime)
}

/// Why a pair does not hold the same rows, where it does not: first the numbers
/// of rows are compared, then the ids.
pub open spec fn metrics_mismatch(
    level: VerifyMetadataLevel,
    rel: Seq<char>,
    source: (u64, Seq<char>),
    parquet: (u64, Seq<char>),
) -> Option<Seq<char>> {
    if compares_counts(level) && source.0 != parquet.0 {
        Some(
            "[verify] row count mismatch for "@ + rel + " (json="@ + text::decimal(source.0 as nat)
                + ", parquet="@ + text::decimal(parquet.0 as nat) + ")"@,
        )
    } else if compares_ids(level) && source.1 != parquet.1 {
        Some(
            "[verify] id hash mismatch for "@ + rel + " (json_hash="@ + source.1 + ", parquet_hash="@
                + parquet.1 + ")"@,
        )
    } else {
        None
    }
}

/// Compares what is known of a source with what is known of its parquet file.
pub fn compare_metrics(
    level: VerifyMetadataLevel,
    rel: &str,
    source_rows: u64,
    source_hash: &str,
    parquet_rows: u64,
    parquet_hash: &str,
) -> (r: Result<(), String>)
    ensures
        match (
            r,
            metrics_mismatch(
                level,
                rel@,
                (source_rows, source_hash@),
                (parquet_rows, parquet_hash@),
            ),
        ) {
            (Ok(_), None) => true,
            (Err(e), Some(m)) => e@ == m,
            _ => false,
        },
{
    if level != VerifyMetadataLevel::IdHash && source_rows != parquet_rows {
        let mut m = "[verify] row count mismatch for ".to_owned();
        m.append(rel);
        m.append(" (json=");
        push_decimal(&mut m, source_rows as u128);
        m.append(", parquet=");
        push_decimal(&mut m, parquet_rows as u128);
        m.append(")");
        return Err(m);
    }
    if level != VerifyMetadataLevel::RowCount && !str_eq(source_hash, parquet_hash) {
        let mut m = "[verify] id hash mismatch for ".to_owned();
        m.append(rel);
        m.append(" (json_hash=");
        m.append(source_hash);
        m.append(", parquet_hash=");
        m.append(parquet_hash);
        m.append(")");
        return Err(m);
    }
    Ok(())
}

/// A pair passes exactly if all that is compared of it is equal.
pub proof fn law_equal_metrics_pass(
    level: VerifyMetadataLevel,
    rel: Seq<char>,
    source: (u64, Seq<char>),
    parquet: (u64, Seq<char>),
)
    ensures
        metrics_mismatch(level, rel, source, parquet) is None <==> (compares_counts(level)
            ==> source.0 == parquet.0) && (compares_ids(level) ==> source.1 == parquet.1),
{
}

/// A parquet file, or its parts, as it is shown in a message.
pub open spec fn shown_parquet(output: Seq<char>, parts: usize) -> Seq<char> {
    if parts > 0 {
        output + " (+"@ + text::decimal(parts as nat) + " chunks)"@
    } else {
        output
    }
}

/// What is said where a parquet file cannot be read.
pub fn unreadable_parquet(p: &FilePair, parts: usize, e: &str) -> (r: String)
    ensures
        r@ == "parquet metrics failed for "@ + shown_parquet(p.output_parquet@, parts)
            + ". If this parquet is corrupt/truncated, delete it and reconvert matching source file: "@
            + p.rel@ + ": "@ + e@,
{
    let mut shown = p.output_parquet.clone();
    if parts > 0 {
        shown.append(" (+");
        push_decimal(&mut shown, parts as u128);
        shown.append(" chunks)");
    }
    let mut m = "parquet metrics failed for ".to_owned();
    m.append(shown.as_str());
    m.append(
        ". If this parquet is corrupt/truncated, delete it and reconvert matching source file: ",
    );
    m.append(p.rel.as_str());
    m.append(": ");
    m.append(e);
    m
}

/// Begins the check of all files of a dataset: they count as scanned, and what is
/// wrong with them before any is read as failed.
pub fn begin_full_check(
    report: &mut RunReport,
    ds: &mut DatasetReportSummary,
    files: usize,
    found: Vec<FailureEntry>,
)
    requires
        old(ds).failed + found@.len() <= u64::MAX,
    ensures
        *final(report) == (RunReport { failures: final(report).failures, ..*old(report) }),
        final(report).failures@ == old(report).failures@ + found@,
        *final(ds) == (DatasetReportSummary {
            items_scanned: files as u64,
            failed: (old(ds).failed + found@.len()) as u64,
            ..*old(ds)
        }),
{
    let mut found = found;
    ds.failed = ds.failed + found.len() as u64;
    ds.items_scanned = files as u64;
    report.failures.append(&mut found);
}

/// Ends the work on a dataset: what did not fail succeeded.
pub fn end_dataset(report: &mut RunReport, ds: DatasetReportSummary)
    ensures
        *final(report) == (RunReport { datasets: final(report).datasets, ..*old(report) }),
        final(report).datasets@ == old(report).datasets@.push(
            (DatasetReportSummary { succeeded: report::minus(ds.items_scanned, ds.failed), ..ds }),
        ),
{
    let mut ds = ds;
    ds.succeeded = if ds.items_scanned >= ds.failed {
        ds.items_scanned - ds.failed
    } else {
        0
    };
    report.datasets.push(ds);
}

/// How a verification ends.
pub fn verify_verdict(totals_failed: u64) -> (r: Result<(), String>)
    ensures
        match r {
            Ok(_) => totals_failed == 0,
            Err(e) => totals_failed > 0 && e@ == "[verify] failures detected: "@ + text::decimal(
                totals_failed as nat,
            ) + " files/conditions failed"@,
        },
{
    if totals_failed == 0 {
        return Ok(());
    }
    let mut m = "[verify] failures detected: ".to_owned();
    push_decimal(&mut m, totals_failed as u128);
    m.append(" files/conditions failed");
    Err(m)
}

pub open spec fn scope_name(scope: VerifyScope) -> Seq<char> {
    match scope {
        VerifyScope::File => "File"@,
        VerifyScope::Dataset => "Dataset"@,
        VerifyScope::Snapshot => "Snapshot"@,
    }
}

pub open spec fn level_name(level: VerifyMetadataLevel) -> Seq<char> {
    match level {
        VerifyMetadataLevel::RowCount => "RowCount"@,
        VerifyMetadataLevel::IdHash => "IdHash"@,
        VerifyMetadataLevel::Both => "Both"@,
    }
}

/// The settings that the report of a verification records.
pub fn verify_args(
    dataset: &str,
    scope: VerifyScope,
    level: VerifyMetadataLevel,
    tuning: &Tuning,
    state_flush_every: usize,
) -> (r: Vec<ReportArg>)
    ensures
        convert::arg_views(r@) == seq![
            ("dataset"@, dataset@),
            ("scope"@, scope_name(scope)),
            ("metadata_level"@, level_name(level)),
            ("workers"@, text::decimal(tuning.workers as nat)),
            ("memory_mb"@, convert::shown_option(tuning.memory_mb)),
            ("state_flush_every"@, text::decimal(state_flush_every as nat)),
        ],
{
    let mut v: Vec<ReportArg> = Vec::new();
    let workers = decimal_string(tuning.workers as u128);
    let memory = show_option(tuning.memory_mb);
    let flush = decimal_string(state_flush_every as u128);
    let scope_text = match scope {
        VerifyScope::File => "File",
        VerifyScope::Dataset => "Dataset",
        VerifyScope::Snapshot => "Snapshot",
    };
    let level_text = match level {
        VerifyMetadataLevel::RowCount => "RowCount",
        VerifyMetadataLevel::IdHash => "IdHash",
        VerifyMetadataLevel::Both => "Both",
    };
    v.push(report_arg("dataset", dataset));
    v.push(report_arg("scope", scope_text));
    v.push(report_arg("metadata_level", level_text));
    v.push(report_arg("workers", workers.as_str()));
    v.push(report_arg("memory_mb", memory.as_str()));
    v.push(report_arg("state_flush_every", flush.as_str()));
    v
}

/// What the check of a file and its parquet file needs next.
#[derive(Debug)]
pub enum Wanted {
    /// The answer to this question about the source.
    Source(String),
    /// The answer to this question about the parquet file or its parts.
    Parquet(String),
    /// Nothing: both are known.
    Verdict,
}

/// The check of a source against its parquet file, or the parts that it was split into.
#[derive(Debug)]
pub struct FileCheck {
    pub pair: FilePair,
    pub parts: Vec<String>,
    pub level: VerifyMetadataLevel,
    pub memory_mb: Option<usize>,
    /// Size and time of the source.
    pub source_state: (u64, i64),
    /// Size and time of the parquet file, or of its parts together.
    pub parquet_state: (u64, i64),
    /// What is known of the source.
    pub source: Option<MetricRow>,
    /// What is known of the parquet file.
    pub parquet: Option<MetricRow>,
}

/// What a cache knows of a file, where it still holds.
pub open spec fn known_row(cache: MetricCache, key: Seq<char>, state: (u64, i64), need_hash: bool) -> Option<
    MetricRow,
> {
    if cache.knows(key) && is_fresh(cache.row_of(key), state.0, state.1, need_hash) {
        Some(cache.row_of(key))
    } else {
        None
    }
}

impl FileCheck {
    /// The name under which the file is known.
    pub open spec fn key(self) -> Seq<char> {
        text::replace_char(self.pair.rel@, '\\', "/"@)
    }

    /// Begins a check with what the caches know.
    pub fn start(
        pair: FilePair,
        parts: Vec<String>,
        level: VerifyMetadataLevel,
        memory_mb: Option<usize>,
        source_state: (u64, i64),
        parquet_state: (u64, i64),
        source_cache: &MetricCache,
        parquet_cache: &MetricCache,
    ) -> (r: Self)
        requires
            source_cache.wf(),
            parquet_cache.wf(),
        ensures
            r.pair == pair,
            r.parts == parts,
            r.level == level,
            r.memory_mb == memory_mb,
            r.source_state == source_state,
            r.parquet_state == parquet_state,
            r.source == known_row(*source_cache, r.key(), source_state, compares_ids(level)),
            r.parquet == known_row(*parquet_cache, r.key(), parquet_state, compares_ids(level)),
    {
        let key = metric_key(&pair);
        let need = needs_hash(level);
        let source = fresh_row(source_cache, key.as_str(), source_state.0, source_state.1, need);
        let parquet = fresh_row(parquet_cache, key.as_str(), parquet_state.0, parquet_state.1, need);
        FileCheck { pair, parts, level, memory_mb, source_state, parquet_state, source, parquet }
    }

    /// What the check needs next: first the source, then the parquet file.
    pub fn next(&self) -> (r: Wanted)
        ensures
            match r {
                Wanted::Source(q) => self.source is None && q@ == source_question(
                    self.pair.input_gz@,
                    compares_ids(self.level),
                    self.memory_mb,
                ),
                Wanted::Parquet(q) => self.source is Some && self.parquet is None && q@
                    == parquet_question(
                    self.pair.output_parquet@,
                    text::texts(self.parts@),
                    compares_ids(self.level),
                    self.memory_mb,
                ),
                Wanted::Verdict => self.source is Some && self.parquet is Some,
            },
    {
        let need = needs_hash(self.level);
        if self.source.is_none() {
            Wanted::Source(ask_source(&self.pair, need, self.memory_mb))
        } else if self.parquet.is_none() {
            Wanted::Parquet(ask_parquet(&self.pair, &self.parts, need, self.memory_mb))
        } else {
            Wanted::Verdict
        }
    }

    /// Takes in the answer to the question that was asked. What it tells is to be kept.
    pub fn answered(&mut self, row: &TextMap) -> (r: Result<MetricRow, String>)
        requires
            row.wf(),
            old(self).source is None || old(self).parquet is None,
        ensures
            match (r, answer_of(row@, compares_ids(old(self).level))) {
                (Ok(m), Ok(a)) => {
                    &&& m.rel_path@ == old(self).key()
                    &&& m.row_count == a.0
                    &&& m.id_hash@ == a.1
                    &&& old(self).source is None ==> (m.size, m.mtime_unix) == old(self).source_state
                        && *final(self) == (FileCheck { source: Some(m), ..*old(self) })
                    &&& old(self).source is Some ==> (m.size, m.mtime_unix) == old(
                        self,
                    ).parquet_state && *final(self) == (FileCheck { parquet: Some(m), ..*old(self) })
                },
                (Err(e), Err(m)) => *final(self) == *old(self) && e@ == old(self).told_error(m),
                _ => false,
            },
    {
        let key = metric_key(&self.pair);
        let need = needs_hash(self.level);
        let state = if self.source.is_none() {
            self.source_state
        } else {
            self.parquet_state
        };
        match answered_row(key.as_str(), state.0, state.1, row, need) {
            Ok(m) => {
                let kept = m.clone();
                if self.source.is_none() {
                    self.source = Some(m);
                } else {
                    self.parquet = Some(m);
                }
                Ok(kept)
            },
            Err(e) => Err(self.unanswered(e)),
        }
    }

    /// An error in words: one about the parquet file says what to do.
    pub open spec fn told_error(self, e: Seq<char>) -> Seq<char> {
        if self.source is None {
            e
        } else {
            "parquet metrics failed for "@ + shown_parquet(
                self.pair.output_parquet@,
                self.parts@.len() as usize,
            )
                + ". If this parquet is corrupt/truncated, delete it and reconvert matching source file: "@
                + self.pair.rel@ + ": "@ + e
        }
    }

    /// Why the check ends where the question could not be answered.
    pub fn unanswered(&self, e: String) -> (r: String)
        ensures
            r@ == self.told_error(e@),
    {
        if self.source.is_none() {
            e
        } else {
            unreadable_parquet(&self.pair, self.parts.len(), e.as_str())
        }
    }

    /// How the check ends.
    pub fn verdict(&self) -> (r: Result<(), String>)
        requires
            self.source is Some,
            self.parquet is Some,
        ensures
            match (
                r,
                metrics_mismatch(
                    self.level,
                    self.pair.rel@,
                    (self.source->Some_0.row_count, self.source->Some_0.id_hash@),
                    (self.parquet->Some_0.row_count, self.parquet->Some_0.id_hash@),
                ),
            ) {
                (Ok(_), None) => true,
                (Err(e), Some(m)) => e@ == m,
                _ => false,
            },
    {
        match (&self.source, &self.parquet) {
            (Some(s), Some(p)) => compare_metrics(
                self.level,
                self.pair.rel.as_str(),
                s.row_count,
                s.id_hash.as_str(),
                p.row_count,
                p.id_hash.as_str(),
            ),
            _ => Ok(()),
        }
    }
}

/// A sample holds as many pairs as are asked for, or all of them where there are
/// no more, and each is one of the pairs: asking for one more adds the next pair of
/// the order.
pub proof fn law_sample_is_of_the_size_asked_for(
    pairs: Seq<FilePair>,
    order: Seq<usize>,
    n: nat,
)
    requires
        is_permutation(order, pairs.len()),
    ensures
        n <= pairs.len() ==> sample(pairs, order, n).len() == n,
        n >= pairs.len() ==> sample(pairs, order, n).len() == pairs.len(),
        n < pairs.len() ==> sample(pairs, order, n + 1) == sample(pairs, order, n).push(
            pairs[order[n as int] as int],
        ),
        forall|i: int|
            0 <= i < sample(pairs, order, n).len() ==> pairs.contains(
                #[trigger] sample(pairs, order, n)[i],
            ),
{
    assert forall|i: int| 0 <= i < sample(pairs, order, n).len() implies pairs.contains(
        #[trigger] sample(pairs, order, n)[i],
    ) by {
        assert(order[i] < pairs.len());
        assert(pairs[order[i] as int] == sample(pairs, order, n)[i]);
    }
}

/// A pair passes by its number of rows, by its ids or by both, as the level says:
/// each level overlooks exactly what it does not compare.
pub proof fn law_level_decides_what_is_compared(
    rel: Seq<char>,
    source: (u64, Seq<char>),
    parquet: (u64, Seq<char>),
)
    ensures
        metrics_mismatch(VerifyMetadataLevel::RowCount, rel, source, parquet) is None <==> source.0
            == parquet.0,
        metrics_mismatch(VerifyMetadataLevel::IdHash, rel, source, parquet) is None <==> source.1
            == parquet.1,
        metrics_mismatch(VerifyMetadataLevel::Both, rel, source, parquet) is None <==> source
            == parquet,
        !compares_ids(VerifyMetadataLevel::RowCount),
        compares_ids(VerifyMetadataLevel::IdHash),
        compares_ids(VerifyMetadataLevel::Both),
{
}

/// A message about differing numbers of rows shows both numbers, that of the source
/// first; one about differing ids both sums.
pub proof fn law_mismatch_shows_both_sides(
    level: VerifyMetadataLevel,
    rel: Seq<char>,
    source: (u64, Seq<char>),
    parquet: (u64, Seq<char>),
)
    ensures
        metrics_mismatch(level, rel, source, parquet) matches Some(m) ==> {
            let counts = "[verify] row count mismatch for "@ + rel + " (json="@ + text::decimal(
                source.0 as nat,
            ) + ", parquet="@ + text::decimal(parquet.0 as nat) + ")"@;
            let ids = "[verify] id hash mismatch for "@ + rel + " (json_hash="@ + source.1
                + ", parquet_hash="@ + parquet.1 + ")"@;
            m == (if level is IdHash || source.0 == parquet.0 { ids } else { counts })
        },
{
}

/// What is known of a file holds as long as the file keeps its size and its time
/// and, where ids are compared, as the sum over them is known.
pub proof fn law_changed_files_are_asked_again(
    row: MetricRow,
    size: u64,
    mtime_unix: i64,
    need_hash: bool,
)
    ensures
        row.size != size ==> !is_fresh(row, size, mtime_unix, need_hash),
        row.mtime_unix != mtime_unix ==> !is_fresh(row, size, mtime_unix, need_hash),
        is_fresh(row, row.size, row.mtime_unix, false),
        is_fresh(row, row.size, row.mtime_unix, true) <==> row.id_hash@.len() > 0,
{
}

/// The whole of a dataset's question is the same for a source and for its parquet
/// file: only where the rows are read from differs.
pub proof fn law_both_sides_are_asked_the_same(
    file: Seq<char>,
    parts: Seq<Seq<char>>,
    need_hash: bool,
    memory_mb: Option<usize>,
)
    ensures
        ({
            let asked = if need_hash {
                "SELECT COUNT(*) AS n, COALESCE(CAST(bit_xor(hash(CAST(id AS VARCHAR))) AS VARCHAR), '0') AS h"@
            } else {
                "SELECT COUNT(*) AS n"@
            };
            let front = "SET threads = 1; "@ + (match memory_mb {
                Some(mb) => "SET memory_limit='"@ + text::decimal(mb as nat) + "MB'; "@,
                None => Seq::empty(),
            });
            &&& source_question(file, need_hash, memory_mb) == front + asked
                + " FROM read_json_auto("@ + sql::quoted(file)
                + ", union_by_name=true, ignore_errors=true)"@
            &&& parquet_question(file, Seq::empty(), need_hash, memory_mb) == front + asked
                + " FROM read_parquet("@ + sql::quoted(file) + ")"@
            &&& parts.len() > 0 ==> parquet_question(file, parts, need_hash, memory_mb) == front
                + asked + " FROM read_parquet("@ + sql::path_list(parts) + ")"@
        }),
{
    reveal_strlit("SET threads = ");
    reveal_strlit("; ");
    reveal_strlit("SET threads = 1; ");
    reveal_strlit(" FROM read_json_auto(");
    reveal_strlit(" FROM read_parquet(");
    reveal_strlit("SELECT COUNT(*) AS n");
    reveal_strlit("SELECT COUNT(*) AS n FROM read_json_auto(");
    reveal_strlit("SELECT COUNT(*) AS n FROM read_parquet(");
    reveal_strlit("SELECT COUNT(*) AS n, COALESCE(CAST(bit_xor(hash(CAST(id AS VARCHAR))) AS VARCHAR), '0') AS h");
    reveal_strlit("SELECT COUNT(*) AS n, COALESCE(CAST(bit_xor(hash(CAST(id AS VARCHAR))) AS VARCHAR), '0') AS h FROM read_json_auto(");
    reveal_strlit("SELECT COUNT(*) AS n, COALESCE(CAST(bit_xor(hash(CAST(id AS VARCHAR))) AS VARCHAR), '0') AS h FROM read_parquet(");
    reveal_with_fuel(text::decimal, 2);
    let asked = if need_hash {
        "SELECT COUNT(*) AS n, COALESCE(CAST(bit_xor(hash(CAST(id AS VARCHAR))) AS VARCHAR), '0') AS h"@
    } else {
        "SELECT COUNT(*) AS n"@
    };
    let json = if need_hash {
        "SELECT COUNT(*) AS n, COALESCE(CAST(bit_xor(hash(CAST(id AS VARCHAR))) AS VARCHAR), '0') AS h FROM read_json_auto("@
    } else {
        "SELECT COUNT(*) AS n FROM read_json_auto("@
    };
    let parquet = if need_hash {
        "SELECT COUNT(*) AS n, COALESCE(CAST(bit_xor(hash(CAST(id AS VARCHAR))) AS VARCHAR), '0') AS h FROM read_parquet("@
    } else {
        "SELECT COUNT(*) AS n FROM read_parquet("@
    };
    assert(json =~= asked + " FROM read_json_auto("@);
    assert(parquet =~= asked + " FROM read_parquet("@);
    assert(text::decimal(1) =~= seq!['1']);
    assert("SET threads = "@ + text::decimal(1) + "; "@ =~= "SET threads = 1; "@);
    let memory = match memory_mb {
        Some(mb) => "SET memory_limit='"@ + text::decimal(mb as nat) + "MB'; "@,
        None => Seq::empty(),
    };
    let front = "SET threads = 1; "@ + memory;
    assert(source_question(file, need_hash, memory_mb) =~= front + asked + " FROM read_json_auto("@
        + sql::quoted(file) + ", union_by_name=true, ignore_errors=true)"@);
    assert(parquet_question(file, Seq::empty(), need_hash, memory_mb) =~= front + asked
        + " FROM read_parquet("@ + sql::quoted(file) + ")"@);
    if parts.len() > 0 {
        assert(parquet_question(file, parts, need_hash, memory_mb) =~= front + asked
            + " FROM read_parquet("@ + sql::path_list(parts) + ")"@);
    }
}

/// The answer of a database that counts `n` rows, with the sum `h` over their ids,
/// is read as that number and, where ids are compared, that sum.
pub proof fn law_answer_is_read_back(n: u64, h: Seq<char>)
    ensures
        answer_of(map!["n"@ => text::decimal(n as nat), "h"@ => h], true) == Ok::<
            (u64, Seq<char>),
            Seq<char>,
        >((n, h)),
        answer_of(map!["n"@ => text::decimal(n as nat), "h"@ => h], false) == Ok::<
            (u64, Seq<char>),
            Seq<char>,
        >((n, Seq::empty())),
{
    let row = map!["n"@ => text::decimal(n as nat), "h"@ => h];
    reveal_strlit("n");
    reveal_strlit("h");
    assert("n"@[0] != "h"@[0]);
    assert(row["n"@] == text::decimal(n as nat));
    assert(row["h"@] == h);
    text::law_decimal_round_trip(n as nat);
    text::law_unsigned_reading(text::decimal(n as nat), u64::MAX as nat);
}

/// The state of the parts together: their sizes add up in any order of adding, and
/// the time is that of the latest.
pub proof fn law_parts_add_up(parts: Seq<(u64, i64)>, part: (u64, i64))
    ensures
        total_size(Seq::empty()) == 0,
        total_size(parts.push(part)) == total_size(parts) + part.0,
        latest_change(Seq::empty()) == 0,
        latest_change(parts.push(part)) >= part.1,
        latest_change(parts.push(part)) >= latest_change(parts),
        latest_change(parts.push(part)) == part.1 || latest_change(parts.push(part))
            == latest_change(parts),
{
    assert(parts.push(part).drop_last() =~= parts);
}

/// A name is that of a part exactly where an underscore and three places that read
/// as a number stand behind the name of the whole.
pub proof fn law_part_names(whole: Seq<char>, number: Seq<char>, other: Seq<char>)
    ensures
        is_part_name(whole + seq!['_'] + number, whole) <==> number.len() == 3
            && text::unsigned_of(number, u32::MAX as nat) is Some,
        is_part_name(other, whole) ==> other.len() == whole.len() + 4 && other.take(
            whole.len() as int,
        ) == whole && other[whole.len() as int] == '_',
{
    reveal_strlit("_");
    let name = whole + seq!['_'] + number;
    assert("_"@ =~= seq!['_']);
    assert(name.take(whole.len() as int + 1) =~= whole + "_"@);
    assert(name.skip(whole.len() as int + 1) =~= number);
    if is_part_name(other, whole) {
        assert(other.take(whole.len() as int) =~= (whole + "_"@).take(whole.len() as int));
        assert((whole + "_"@).take(whole.len() as int) =~= whole);
        assert(other[whole.len() as int] == (whole + "_"@)[whole.len() as int]);
    }
}

/// The parquet file of a source stands in the same directory, under the same stem.
pub proof fn law_parquet_file_of_a_source(dir: Seq<char>, stem: Seq<char>)
    requires
        paths::is_tidy(dir),
        paths::is_component(stem),
    ensures
        single_of(paths::join_of(dir, stem + ".gz"@)) == paths::join_of(dir, stem + ".parquet"@),
{
    reveal_strlit("gz");
    reveal_strlit(".gz");
    reveal_strlit("parquet");
    reveal_strlit(".parquet");
    paths::law_stem_and_extension(dir, stem, "gz"@, "parquet"@);
    assert(stem + seq!['.'] + "gz"@ =~= stem + ".gz"@);
    assert(stem + seq!['.'] + "parquet"@ =~= stem + ".parquet"@);
}

/// The parts of a file are those among all files that are its parts, in their order.
pub proof fn law_parts_of_a_file(actual: Seq<Seq<char>>, r: Seq<char>, single: Seq<char>)
    ensures
        parts_of(Seq::empty(), single).len() == 0,
        is_part_of(r, single) ==> parts_of(actual.push(r), single) == parts_of(actual, single).push(
            r,
        ),
        !is_part_of(r, single) ==> parts_of(actual.push(r), single) == parts_of(actual, single),
{
    reveal(Seq::filter);
    assert(actual.push(r).drop_last() =~= actual);
}

/// Each source asks for the parts of its own parquet file, or for the file where no
/// part exists; those of one more source come last.
pub proof fn law_expected_files(rels: Seq<Seq<char>>, rel: Seq<char>, actual: Seq<Seq<char>>)
    ensures
        expected(Seq::empty(), actual).len() == 0,
        parts_of(actual, single_of(rel)).len() == 0 ==> expected(rels.push(rel), actual) == expected(
            rels,
            actual,
        ).push(single_of(rel)),
        parts_of(actual, single_of(rel)).len() > 0 ==> expected(rels.push(rel), actual) == expected(
            rels,
            actual,
        ) + parts_of(actual, single_of(rel)),
{
    assert(rels.push(rel).drop_last() =~= rels);
}

/// One more path is counted exactly where neither the paths before it nor those of
/// the other list hold it.
pub proof fn law_outside_paths_are_counted_once(
    s: Seq<Seq<char>>,
    p: Seq<char>,
    t: Seq<Seq<char>>,
)
    ensures
        count_outside(Seq::empty(), t) == 0,
        (exists|i: int| 0 <= i < s.len() && same_path(#[trigger] s[i], p)) ==> count_outside(
            s.push(p),
            t,
        ) == count_outside(s, t),
        (exists|i: int| 0 <= i < t.len() && same_path(#[trigger] t[i], p)) ==> count_outside(
            s.push(p),
            t,
        ) == count_outside(s, t),
        (forall|i: int| 0 <= i < s.len() ==> !same_path(#[trigger] s[i], p)) && (forall|i: int|
            0 <= i < t.len() ==> !same_path(#[trigger] t[i], p)) ==> count_outside(s.push(p), t)
            == count_outside(s, t) + 1,
{
    assert(s.push(p).drop_last() =~= s);
}

/// One more source without its parquet file adds one failure, which names the source
/// and where its parquet file belongs; one with it adds none.
pub proof fn law_missing_files_are_reported(
    dataset: Seq<char>,
    parquet_dir: Seq<char>,
    rels: Seq<Seq<char>>,
    flags: Seq<bool>,
    rel: Seq<char>,
)
    requires
        flags.len() > rels.len(),
    ensures
        ({
            let before = missing_failures(dataset, parquet_dir, rels, flags);
            let after = missing_failures(dataset, parquet_dir, rels.push(rel), flags);
            &&& flags[rels.len() as int] ==> after == before
            &&& !flags[rels.len() as int] ==> after.len() == before.len() + 1 && after.drop_last()
                == before && after.last().dataset == dataset && after.last().rel_path == Some(rel)
                && after.last().source_path is None && after.last().output_path == Some(
                paths::join_of(paths::join_of(parquet_dir, dataset), single_of(rel)),
            ) && after.last().phase == "structure"@ && after.last().error_message
                == "missing parquet file"@
        }),
{
    assert(rels.push(rel).drop_last() =~= rels);
    let before = missing_failures(dataset, parquet_dir, rels, flags);
    let after = missing_failures(dataset, parquet_dir, rels.push(rel), flags);
    if !flags[rels.len() as int] {
        assert(after.drop_last() =~= before);
    }
}
/// The failure of a pair names the pair and what was found, and is recorded as one of
/// the comparison.
pub proof fn law_failure_of_a_comparison(
    dataset: Seq<char>,
    p: plan::PairView,
    e: Seq<char>,
    recovery: Seq<char>,
)
    ensures
        ({
            let f = metrics_failure(dataset, p, e, recovery);
            &&& f.phase == "verify_metrics"@ && f.dataset == dataset && f.error_message == e
            &&& f.rel_path == Some(p.rel) && f.source_path == Some(p.input_gz) && f.output_path
                == Some(p.output_parquet)
            &&& f.suggested_recovery == Some(recovery)
        }),
{
}

/// Where files are missing or too many, that is one failure more, of the dataset as a
/// whole, which gives both numbers, that of the missing first.
pub proof fn law_wrong_files_are_counted(
    dataset: Seq<char>,
    parquet_dir: Seq<char>,
    rels: Seq<Seq<char>>,
    flags: Seq<bool>,
    actual: Seq<Seq<char>>,
)
    ensures
        ({
            let want = expected(rels, actual);
            let missing = count_outside(want, actual);
            let extra = count_outside(actual, want);
            let all = structure_failures_of(dataset, parquet_dir, rels, flags, actual);
            let each = missing_failures(dataset, parquet_dir, rels, flags);
            &&& missing == 0 && extra == 0 ==> all == each
            &&& missing > 0 || extra > 0 ==> all.len() == each.len() + 1 && all.drop_last() == each
                && all.last().dataset == dataset && all.last().phase == "structure"@
                && all.last().rel_path is None && all.last().output_path == Some(
                paths::join_of(parquet_dir, dataset),
            ) && all.last().error_message == "structure mismatch (missing="@ + text::decimal(missing)
                + ", extra="@ + text::decimal(extra) + ")"@
        }),
{
    let want = expected(rels, actual);
    let missing = count_outside(want, actual);
    let extra = count_outside(actual, want);
    let all = structure_failures_of(dataset, parquet_dir, rels, flags, actual);
    let each = missing_failures(dataset, parquet_dir, rels, flags);
    if missing == 0 && extra == 0 {
        assert(all =~= each);
    } else {
        assert(all.drop_last() =~= each);
    }
}

/// What is known of a file is taken from the cache only where the file has not changed
/// since, and is what the cache holds under its path.
pub proof fn law_known_files(
    cache: MetricCache,
    i: int,
    size: u64,
    mtime_unix: i64,
    need_hash: bool,
)
    requires
        cache.wf(),
        0 <= i < cache.rows@.len(),
    ensures
        ({
            let row = cache.rows@[i];
            let known = known_row(cache, row.rel_path@, (size, mtime_unix), need_hash);
            &&& known is Some <==> row.size == size && row.mtime_unix == mtime_unix && (need_hash
                ==> row.id_hash@.len() > 0)
            &&& known is Some ==> known == Some(row)
        }),
{
    let rel = cache.rows@[i].rel_path@;
    assert(row_at(cache.rows@, i, rel));
    let k = choose|k: int| #[trigger] row_at(cache.rows@, k, rel);
    assert(row_at(cache.rows@, k, rel));
    if k < i {
        assert(cache.rows@[k].rel_path@ != cache.rows@[i].rel_path@);
    } else if i < k {
        assert(cache.rows@[i].rel_path@ != cache.rows@[k].rel_path@);
    }
}

/// The scopes and the levels are shown by their names.
pub proof fn law_names_of_scopes_and_levels(output: Seq<char>, parts: usize)
    ensures
        scope_name(VerifyScope::File) == "File"@,
        scope_name(VerifyScope::Dataset) == "Dataset"@,
        scope_name(VerifyScope::Snapshot) == "Snapshot"@,
        level_name(VerifyMetadataLevel::RowCount) == "RowCount"@,
        level_name(VerifyMetadataLevel::IdHash) == "IdHash"@,
        level_name(VerifyMetadataLevel::Both) == "Both"@,
        shown_parquet(output, 0) == output,
        parts > 0 ==> shown_parquet(output, parts) == output + " (+"@ + text::decimal(parts as nat)
            + " chunks)"@,
{
}
/// What the database says is told as it is of a source; of a parquet file it is told with
/// the file, its parts and what can be done.
pub proof fn law_words_of_the_database(w: FileCheck, e: Seq<char>)
    ensures
        w.source is None ==> w.told_error(e) == e,
        w.source is Some ==> w.told_error(e) == "parquet metrics failed for "@ + shown_parquet(
            w.pair.output_parquet@,
            w.parts@.len() as usize,
        )
            + ". If this parquet is corrupt/truncated, delete it and reconvert matching source file: "@
            + w.pair.rel@ + ": "@ + e,
{
}
} // verus!
