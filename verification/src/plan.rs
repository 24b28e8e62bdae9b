//! The schedule of a conversion: which files are converted in which pass, with
//! how many workers and how much memory.

use vstd::prelude::*;
use vstd::string::*;
use crate::profile::{ProfileDef, ProfileKind, ProfileRegistry, Stratum};
use crate::profile;
use crate::text::{
    lowercase, parse_unsigned, push_decimal, split_lines, split_words, starts_with,
    str_eq, strip_suffix, trimmed, usize_error,
};
use crate::text;

verus! {

/// Worker count and memory per worker, in MB.
#[derive(Clone, Copy, Debug, PartialEq, Eq, Structural)]
pub struct Tuning {
    pub workers: usize,
    pub memory_mb: Option<usize>,
}

pub open spec fn min_int(a: int, b: int) -> int {
    if a <= b {
        a
    } else {
        b
    }
}

pub open spec fn max_int(a: int, b: int) -> int {
    if a >= b {
        a
    } else {
        b
    }
}

/// `percent` of four fifths of `total`, each rounded down.
pub open spec fn share_of_usable(total: int, percent: int) -> int {
    (total * 4 / 5) * percent / 100
}

/// Memory in MB for one worker that runs alone: 45% of the usable RAM, between
/// 8 and 24 GiB.
pub open spec fn single_worker_memory_mb(total_mb: Option<usize>) -> int {
    match total_mb {
        Some(t) => if t > 0 {
            min_int(max_int(share_of_usable(t as int, 45), 8192), 24_576)
        } else {
            8192
        },
        None => 8192,
    }
}

/// Memory in MB for each of several workers: 15% of the usable RAM, between 1
/// and 8 GiB.
pub open spec fn shared_worker_memory_mb(total_mb: Option<usize>) -> int {
    match total_mb {
        Some(t) => if t > 0 {
            min_int(max_int(share_of_usable(t as int, 15), 1024), 8192)
        } else {
            2048
        },
        None => 2048,
    }
}

fn usable_share(total: usize, percent: u128, low: usize, high: usize) -> (r: usize)
    requires
        percent <= 100,
        low <= high,
    ensures
        r == min_int(max_int(share_of_usable(total as int, percent as int), low as int), high as int),
{
    let usable: u128 = total as u128 * 4 / 5;
    assert(usable * percent <= usable * 100) by (nonlinear_arith)
        requires
            percent <= 100,
    ;
    let mb: u128 = usable * percent / 100;
    if mb < low as u128 {
        low
    } else if mb > high as u128 {
        high
    } else {
        mb as usize
    }
}

/// The memory budget of a lone worker of the profile `safe`.
pub fn auto_profile_single_worker_safe_memory_mb(total_mb: Option<usize>) -> (r: usize)
    ensures
        r == single_worker_memory_mb(total_mb),
{
    match total_mb {
        Some(t) => if t > 0 {
            usable_share(t, 45, 8192, 24_576)
        } else {
            8192
        },
        None => 8192,
    }
}

/// The memory budget of each worker of the profile `safe` when there are more.
pub fn auto_profile_safe_memory_mb(total_mb: Option<usize>) -> (r: usize)
    ensures
        r == shared_worker_memory_mb(total_mb),
{
    match total_mb {
        Some(t) => if t > 0 {
            usable_share(t, 15, 1024, 8192)
        } else {
            2048
        },
        None => 2048,
    }
}

/// The memory that the profile `safe` gives each of `workers`.
pub open spec fn safe_memory_mb(workers: int, total_mb: Option<usize>) -> int {
    if workers == 1 {
        max_int(shared_worker_memory_mb(total_mb), single_worker_memory_mb(total_mb))
    } else {
        shared_worker_memory_mb(total_mb)
    }
}

fn safe_memory(workers: usize, total_mb: Option<usize>) -> (r: usize)
    ensures
        r == safe_memory_mb(workers as int, total_mb),
{
    let shared = auto_profile_safe_memory_mb(total_mb);
    if workers == 1 {
        let single = auto_profile_single_worker_safe_memory_mb(total_mb);
        if shared >= single {
            shared
        } else {
            single
        }
    } else {
        shared
    }
}

/// The tuning of commands that mostly read parquet files: as many workers as
/// asked for, else one for each of at most four CPUs, or two where their number
/// is not known; 8 GiB for each unless another amount is asked for.
pub fn light_tuning_with_override(
    workers: usize,
    memory_mb_override: Option<usize>,
    cpus: Option<usize>,
) -> (r: Tuning)
    ensures
        r.workers == (if workers > 0 {
            workers as int
        } else {
            match cpus {
                Some(n) => min_int(n as int, 4),
                None => 2,
            }
        }),
        r.memory_mb == Some(
            match memory_mb_override {
                Some(mb) => mb,
                None => 8192usize,
            },
        ),
{
    let w = if workers > 0 {
        workers
    } else {
        match cpus {
            Some(n) => if n <= 4 {
                n
            } else {
                4
            },
            None => 2,
        }
    };
    let m = match memory_mb_override {
        Some(mb) => mb,
        None => 8192,
    };
    Tuning { workers: w, memory_mb: Some(m) }
}

/// The first stratum without a size bound, else the last one.
pub open spec fn catch_all_or_last(s: Seq<Stratum>, i: int) -> Stratum
    decreases s.len() - i,
{
    if i >= s.len() {
        s.last()
    } else if s[i].max_file_mb is None {
        s[i]
    } else {
        catch_all_or_last(s, i + 1)
    }
}

/// The one pair of workers and memory that stands for a profile in logs and
/// reports.
pub open spec fn representative(
    def: profile::ProfileView,
    workers_override: usize,
    max_memory_mb_override: Option<usize>,
    total_ram_mb: Option<usize>,
) -> (int, Option<int>) {
    match def.kind {
        ProfileKind::Safe => {
            let workers = if workers_override >= 2 { 2int } else { 1 };
            (
                workers,
                Some(
                    match max_memory_mb_override {
                        Some(mb) => mb as int,
                        None => safe_memory_mb(workers, total_ram_mb),
                    },
                ),
            )
        },
        ProfileKind::Stratified => {
            let s = def.strata->0;
            (
                if workers_override > 0 {
                    workers_override as int
                } else if s.len() > 0 {
                    s[0].workers as int
                } else {
                    1
                },
                match max_memory_mb_override {
                    Some(mb) => Some(mb as int),
                    None => if s.len() > 0 {
                        Some(catch_all_or_last(s, 0).per_worker_mb as int)
                    } else {
                        None
                    },
                },
            )
        },
    }
}

/// The tuning that stands for a profile in logs and reports.
pub fn representative_tuning(
    def: &ProfileDef,
    workers_override: usize,
    max_memory_mb_override: Option<usize>,
    total_ram_mb: Option<usize>,
) -> (r: Tuning)
    requires
        def.kind is Stratified ==> def.strata is Some,
    ensures
        ({
            let want = representative(
                def@,
                workers_override,
                max_memory_mb_override,
                total_ram_mb,
            );
            &&& r.workers == want.0
            &&& match r.memory_mb {
                Some(mb) => want.1 == Some(mb as int),
                None => want.1 is None,
            }
        }),
{
    match def.kind {
        ProfileKind::Safe => {
            let workers: usize = if workers_override >= 2 {
                2
            } else {
                1
            };
            let memory = match max_memory_mb_override {
                Some(mb) => mb,
                None => safe_memory(workers, total_ram_mb),
            };
            Tuning { workers, memory_mb: Some(memory) }
        },
        ProfileKind::Stratified => {
            let s: &Vec<Stratum> = match &def.strata {
                Some(s) => s,
                None => {
                    proof {
                        assert(false);
                    }
                    return Tuning { workers: 1, memory_mb: None };
                },
            };
            let workers = if workers_override > 0 {
                workers_override
            } else if s.len() > 0 {
                s[0].workers
            } else {
                1
            };
            if max_memory_mb_override.is_some() {
                return Tuning { workers, memory_mb: max_memory_mb_override };
            }
            if s.len() == 0 {
                return Tuning { workers, memory_mb: None };
            }
            let mut i: usize = 0;
            while i < s.len() && s[i].max_file_mb.is_some()
                invariant
                    i <= s@.len(),
                    catch_all_or_last(s@, 0) == catch_all_or_last(s@, i as int),
                decreases s@.len() - i,
            {
                i += 1;
            }
            let pick = if i < s.len() {
                s[i]
            } else {
                s[s.len() - 1]
            };
            Tuning { workers, memory_mb: Some(pick.per_worker_mb) }
        },
    }
}

/// The tuning of the profile of a name, or the error that there is none.
pub fn profile_tuning(
    registry: &ProfileRegistry,
    profile_name: &str,
    workers_override: usize,
    max_memory_mb_override: Option<usize>,
    total_ram_mb: Option<usize>,
) -> (r: Result<Tuning, String>)
    requires
        registry.wf(),
        registry.usable(),
    ensures
        match r {
            Ok(t) => {
                let want = representative(
                    registry@[profile_name@],
                    workers_override,
                    max_memory_mb_override,
                    total_ram_mb,
                );
                &&& registry@.dom().contains(profile_name@)
                &&& t.workers == want.0
                &&& match t.memory_mb {
                    Some(mb) => want.1 == Some(mb as int),
                    None => want.1 is None,
                }
            },
            Err(e) => {
                &&& !registry@.dom().contains(profile_name@)
                &&& profile::is_unknown_profile_error(registry.entries@, profile_name@, e@)
            },
        },
{
    match registry.get(profile_name) {
        Some(def) => Ok(
            representative_tuning(def, workers_override, max_memory_mb_override, total_ram_mb),
        ),
        None => Err(registry.unknown_profile_error(profile_name)),
    }
}

/// One source file with the parquet file made from it.
#[derive(Debug)]
pub struct FilePair {
    pub input_gz: String,
    pub output_parquet: String,
    /// The path of the source below its dataset.
    pub rel: String,
    pub gz_size_bytes: u64,
}

/// What a `FilePair` says.
#[verifier::ext_equal]
pub struct PairView {
    pub input_gz: Seq<char>,
    pub output_parquet: Seq<char>,
    pub rel: Seq<char>,
    pub gz_size_bytes: u64,
}

impl View for FilePair {
    type V = PairView;

    open spec fn view(&self) -> PairView {
        PairView {
            input_gz: self.input_gz@,
            output_parquet: self.output_parquet@,
            rel: self.rel@,
            gz_size_bytes: self.gz_size_bytes,
        }
    }
}

pub open spec fn pair_views(v: Seq<FilePair>) -> Seq<PairView> {
    Seq::new(v.len(), |i: int| v[i]@)
}

/// Pushing a pair pushes what it says.
pub broadcast proof fn lemma_pair_views_push(v: Seq<FilePair>, p: FilePair)
    ensures
        #[trigger] pair_views(v.push(p)) == pair_views(v).push(p@),
{
    assert(pair_views(v.push(p)) =~= pair_views(v).push(p@));
}

impl Clone for FilePair {
    fn clone(&self) -> (r: Self)
        ensures
            r == *self,
    {
        FilePair {
            input_gz: self.input_gz.clone(),
            output_parquet: self.output_parquet.clone(),
            rel: self.rel.clone(),
            gz_size_bytes: self.gz_size_bytes,
        }
    }
}

/// One pass over some of the files.
pub struct StratumPlan {
    pub workers: usize,
    /// Memory for each worker, in MB.
    pub memory_mb: usize,
    pub files: Vec<FilePair>,
}

/// What a `StratumPlan` says.
#[verifier::ext_equal]
pub struct StratumView {
    pub workers: int,
    pub memory_mb: int,
    pub files: Seq<FilePair>,
}

impl View for StratumPlan {
    type V = StratumView;

    open spec fn view(&self) -> StratumView {
        StratumView {
            workers: self.workers as int,
            memory_mb: self.memory_mb as int,
            files: self.files@,
        }
    }
}

/// The passes of a conversion, in the order in which they run.
pub struct ConvertPlan {
    pub strata: Vec<StratumPlan>,
    /// Whether all files go through one pass.
    pub flat: bool,
    pub profile_name: String,
}

pub open spec fn strata_views(v: Seq<StratumPlan>) -> Seq<StratumView> {
    Seq::new(v.len(), |i: int| v[i]@)
}

/// `s`, which runs from large to small, with `x` behind the files of its size
/// and larger.
pub open spec fn insert_by_size(s: Seq<FilePair>, x: FilePair) -> Seq<FilePair>
    decreases s.len(),
{
    if s.len() == 0 || s.last().gz_size_bytes >= x.gz_size_bytes {
        s.push(x)
    } else {
        insert_by_size(s.drop_last(), x).push(s.last())
    }
}

/// The files from large to small; files of one size stay in their order.
pub open spec fn largest_first(s: Seq<FilePair>) -> Seq<FilePair>
    decreases s.len(),
{
    if s.len() == 0 {
        s
    } else {
        insert_by_size(largest_first(s.drop_last()), s.last())
    }
}

proof fn lemma_insert_by_size(s: Seq<FilePair>, x: FilePair, j: int)
    requires
        0 <= j <= s.len(),
        forall|k: int| j <= k < s.len() ==> (#[trigger] s[k]).gz_size_bytes < x.gz_size_bytes,
        j > 0 ==> s[j - 1].gz_size_bytes >= x.gz_size_bytes,
    ensures
        insert_by_size(s, x) == s.insert(j, x),
    decreases s.len(),
{
    if j == s.len() {
        assert(s.insert(j, x) =~= s.push(x));
    } else {
        lemma_insert_by_size(s.drop_last(), x, j);
        assert(s.insert(j, x) =~= s.drop_last().insert(j, x).push(s.last()));
    }
}

/// The files from large to small.
pub fn sort_largest_first(files: &Vec<FilePair>) -> (r: Vec<FilePair>)
    ensures
        r@ == largest_first(files@),
{
    let mut out: Vec<FilePair> = Vec::new();
    let mut i: usize = 0;
    assert(files@.take(0) =~= Seq::<FilePair>::empty());
    while i < files.len()
        invariant
            i <= files@.len(),
            out@ == largest_first(files@.take(i as int)),
        decreases files@.len() - i,
    {
        let x = files[i].clone();
        let mut j: usize = out.len();
        while j > 0 && out[j - 1].gz_size_bytes < x.gz_size_bytes
            invariant
                j <= out@.len(),
                forall|k: int|
                    j <= k < out@.len() ==> (#[trigger] out@[k]).gz_size_bytes < x.gz_size_bytes,
            decreases j,
        {
            j -= 1;
        }
        proof {
            lemma_insert_by_size(out@, x, j as int);
            assert(files@.take(i + 1).drop_last() =~= files@.take(i as int));
        }
        out.insert(j, x);
        i += 1;
    }
    assert(files@.take(files@.len() as int) =~= files@);
    out
}

/// Whether a file of this size is within the stratum's bound.
pub open spec fn covers(s: Stratum, size: u64) -> bool {
    match s.max_file_mb {
        Some(mb) => size <= mb * 1_048_576,
        None => true,
    }
}

/// The first stratum at position `i` or later whose bound covers the size.
pub open spec fn placement(s: Seq<Stratum>, size: u64, i: int) -> int
    decreases s.len() - i,
{
    if i >= s.len() || covers(s[i], size) {
        i
    } else {
        placement(s, size, i + 1)
    }
}

fn placed_in(s: &Vec<Stratum>, size: u64) -> (r: usize)
    ensures
        r == placement(s@, size, 0),
        r <= s@.len(),
{
    let mut i: usize = 0;
    while i < s.len()
        invariant
            i <= s@.len(),
            placement(s@, size, 0) == placement(s@, size, i as int),
        decreases s@.len() - i,
    {
        let fits = match s[i].max_file_mb {
            Some(mb) => size as u128 <= mb as u128 * 1_048_576,
            None => true,
        };
        if fits {
            return i;
        }
        i += 1;
    }
    i
}

/// The files that go into stratum `k`, from large to small.
pub open spec fn bucket(s: Seq<Stratum>, todo: Seq<FilePair>, k: int) -> Seq<FilePair> {
    largest_first(todo).filter(|f: FilePair| placement(s, f.gz_size_bytes, 0) == k)
}

/// The pass over stratum `k`.
pub open spec fn stratum_pass(
    s: Seq<Stratum>,
    todo: Seq<FilePair>,
    k: int,
    memory_override: Option<usize>,
) -> StratumView {
    StratumView {
        workers: max_int(s[k].workers as int, 1),
        memory_mb: match memory_override {
            Some(mb) => mb as int,
            None => s[k].per_worker_mb as int,
        },
        files: bucket(s, todo, k),
    }
}

/// The passes over the strata from position `k - 1` down to the first, without
/// those that have no file.
pub open spec fn passes_below(
    s: Seq<Stratum>,
    todo: Seq<FilePair>,
    k: int,
    memory_override: Option<usize>,
) -> Seq<StratumView>
    decreases k,
{
    if k <= 0 {
        Seq::empty()
    } else {
        let rest = passes_below(s, todo, k - 1, memory_override);
        if bucket(s, todo, k - 1).len() == 0 {
            rest
        } else {
            seq![stratum_pass(s, todo, k - 1, memory_override)] + rest
        }
    }
}

/// The largest memory per worker of any stratum; 4096 where there is none.
pub open spec fn largest_memory_mb(s: Seq<Stratum>) -> int
    decreases s.len(),
{
    if s.len() == 0 {
        4096
    } else if s.len() == 1 {
        s[0].per_worker_mb as int
    } else {
        max_int(largest_memory_mb(s.drop_last()), s.last().per_worker_mb as int)
    }
}

/// The passes by which the files are converted, and whether there is one for all.
pub open spec fn planned(
    def: profile::ProfileView,
    workers_override: Option<usize>,
    memory_override: Option<usize>,
    total_ram_mb: Option<usize>,
    todo: Seq<FilePair>,
) -> (Seq<StratumView>, bool) {
    match def.kind {
        ProfileKind::Safe => {
            let workers = match workers_override {
                Some(w) => if w >= 2 { 2int } else { 1 },
                None => 1,
            };
            (
                seq![
                    StratumView {
                        workers,
                        memory_mb: match memory_override {
                            Some(mb) => mb as int,
                            None => safe_memory_mb(workers, total_ram_mb),
                        },
                        files: todo,
                    },
                ],
                true,
            )
        },
        ProfileKind::Stratified => {
            let s = def.strata->0;
            match workers_override {
                Some(w) => (
                    seq![
                        StratumView {
                            workers: max_int(w as int, 1),
                            memory_mb: match memory_override {
                                Some(mb) => mb as int,
                                None => largest_memory_mb(s),
                            },
                            files: largest_first(todo),
                        },
                    ],
                    true,
                ),
                None => (passes_below(s, todo, s.len() as int, memory_override), false),
            }
        },
    }
}

fn largest_memory(s: &Vec<Stratum>) -> (r: usize)
    ensures
        r == largest_memory_mb(s@),
{
    if s.len() == 0 {
        return 4096;
    }
    let mut best: usize = s[0].per_worker_mb;
    let mut i: usize = 1;
    assert(s@.take(1)[0] == s@[0]);
    while i < s.len()
        invariant
            1 <= i <= s@.len(),
            best == largest_memory_mb(s@.take(i as int)),
        decreases s@.len() - i,
    {
        assert(s@.take(i + 1).drop_last() =~= s@.take(i as int));
        if s[i].per_worker_mb > best {
            best = s[i].per_worker_mb;
        }
        i += 1;
    }
    assert(s@.take(s@.len() as int) =~= s@);
    best
}

/// The files of `sorted` that go into stratum `k`.
fn fill_bucket(s: &Vec<Stratum>, sorted: &Vec<FilePair>, k: usize) -> (r: Vec<FilePair>)
    ensures
        r@ == sorted@.filter(|f: FilePair| placement(s@, f.gz_size_bytes, 0) == k),
{
    let ghost here = |f: FilePair| placement(s@, f.gz_size_bytes, 0) == k;
    let mut out: Vec<FilePair> = Vec::new();
    let mut i: usize = 0;
    assert(sorted@.take(0).filter(here) =~= Seq::<FilePair>::empty()) by {
        reveal(Seq::filter);
    }
    while i < sorted.len()
        invariant
            i <= sorted@.len(),
            here == (|f: FilePair| placement(s@, f.gz_size_bytes, 0) == k),
            out@ == sorted@.take(i as int).filter(here),
        decreases sorted@.len() - i,
    {
        proof {
            assert(sorted@.take(i + 1) =~= sorted@.take(i as int).push(sorted@[i as int]));
            sorted@.take(i as int).lemma_filter_push(sorted@[i as int], here);
        }
        if placed_in(s, sorted[i].gz_size_bytes) == k {
            out.push(sorted[i].clone());
        }
        i += 1;
    }
    assert(sorted@.take(sorted@.len() as int) =~= sorted@);
    out
}

/// Plans the conversion of the files of `todo` under the profile `profile_name`.
pub fn build_convert_plan(
    profile_name: &str,
    workers_override: Option<usize>,
    max_memory_mb_override: Option<usize>,
    total_ram_mb: Option<usize>,
    todo: &Vec<FilePair>,
    registry: &ProfileRegistry,
) -> (r: Result<ConvertPlan, String>)
    requires
        registry.wf(),
        registry@.dom().contains(profile_name@) && registry@[profile_name@].kind is Stratified
            ==> registry@[profile_name@].strata is Some,
    ensures
        match r {
            Ok(plan) => {
                &&& registry@.dom().contains(profile_name@)
                &&& plan.profile_name@ == profile_name@
                &&& (strata_views(plan.strata@), plan.flat) == planned(
                    registry@[profile_name@],
                    workers_override,
                    max_memory_mb_override,
                    total_ram_mb,
                    todo@,
                )
            },
            Err(e) => {
                &&& !registry@.dom().contains(profile_name@)
                &&& profile::is_unknown_profile_error(registry.entries@, profile_name@, e@)
            },
        },
{
    let def: &ProfileDef = match registry.get(profile_name) {
        Some(d) => d,
        None => {
            return Err(registry.unknown_profile_error(profile_name));
        },
    };
    match def.kind {
        ProfileKind::Safe => {
            let workers: usize = match workers_override {
                Some(w) => if w >= 2 {
                    2
                } else {
                    1
                },
                None => 1,
            };
            let memory_mb = match max_memory_mb_override {
                Some(mb) => mb,
                None => safe_memory(workers, total_ram_mb),
            };
            let files = copy_files(todo);
            let mut strata: Vec<StratumPlan> = Vec::new();
            strata.push(StratumPlan { workers, memory_mb, files });
            let plan = ConvertPlan { strata, flat: true, profile_name: profile_name.to_owned() };
            assert(strata_views(plan.strata@) =~= planned(
                def@,
                workers_override,
                max_memory_mb_override,
                total_ram_mb,
                todo@,
            ).0);
            Ok(plan)
        },
        ProfileKind::Stratified => {
            let s: &Vec<Stratum> = match &def.strata {
                Some(s) => s,
                None => {
                    proof {
                        assert(false);
                    }
                    return Err(String::new());
                },
            };
            let sorted = sort_largest_first(todo);
            if let Some(w) = workers_override {
                let workers = if w >= 1 {
                    w
                } else {
                    1
                };
                let memory_mb = match max_memory_mb_override {
                    Some(mb) => mb,
                    None => largest_memory(s),
                };
                let mut strata: Vec<StratumPlan> = Vec::new();
                strata.push(StratumPlan { workers, memory_mb, files: sorted });
                let plan = ConvertPlan { strata, flat: true, profile_name: profile_name.to_owned() };
                assert(strata_views(plan.strata@) =~= planned(
                    def@,
                    workers_override,
                    max_memory_mb_override,
                    total_ram_mb,
                    todo@,
                ).0);
                return Ok(plan);
            }
            let mut strata: Vec<StratumPlan> = Vec::new();
            let mut k: usize = s.len();
            let ghost whole = passes_below(s@, todo@, s@.len() as int, max_memory_mb_override);
            assert(strata_views(strata@) =~= Seq::<StratumView>::empty());
            assert(whole =~= strata_views(strata@) + whole);
            while k > 0
                invariant
                    k <= s@.len(),
                    sorted@ == largest_first(todo@),
                    whole == strata_views(strata@) + passes_below(
                        s@,
                        todo@,
                        k as int,
                        max_memory_mb_override,
                    ),
                decreases k,
            {
                let files = fill_bucket(s, &sorted, k - 1);
                assert(files@ == bucket(s@, todo@, k - 1));
                let ghost before = strata@;
                let ghost rest = passes_below(s@, todo@, k - 1, max_memory_mb_override);
                if files.len() > 0 {
                    let memory_mb = match max_memory_mb_override {
                        Some(mb) => mb,
                        None => s[k - 1].per_worker_mb,
                    };
                    let workers = if s[k - 1].workers >= 1 {
                        s[k - 1].workers
                    } else {
                        1
                    };
                    strata.push(StratumPlan { workers, memory_mb, files });
                    let ghost pass = stratum_pass(s@, todo@, k - 1, max_memory_mb_override);
                    assert(strata@.last()@ == pass);
                    assert(strata_views(strata@) =~= strata_views(before).push(pass));
                    assert(strata_views(before) + (seq![pass] + rest) =~= strata_views(strata@)
                        + rest);
                }
                k -= 1;
            }
            assert(strata_views(strata@) =~= whole);
            Ok(ConvertPlan { strata, flat: false, profile_name: profile_name.to_owned() })
        },
    }
}

/// A copy of a list of files.
pub fn copy_files(files: &Vec<FilePair>) -> (r: Vec<FilePair>)
    ensures
        r@ == files@,
{
    let mut out: Vec<FilePair> = Vec::new();
    let mut i: usize = 0;
    while i < files.len()
        invariant
            i <= files@.len(),
            out@ == files@.take(i as int),
        decreases files@.len() - i,
    {
        out.push(files[i].clone());
        i += 1;
        assert(files@.take(i as int) =~= files@.take(i - 1).push(files@[i - 1]));
    }
    assert(files@.take(files@.len() as int) =~= files@);
    out
}

/// The files of several passes, one pass after the other.
pub open spec fn all_files(passes: Seq<StratumView>) -> Seq<FilePair>
    decreases passes.len(),
{
    if passes.len() == 0 {
        Seq::empty()
    } else {
        passes[0].files + all_files(passes.drop_first())
    }
}

proof fn lemma_insert_by_size_multiset(s: Seq<FilePair>, x: FilePair)
    ensures
        insert_by_size(s, x).to_multiset() == s.to_multiset().insert(x),
    decreases s.len(),
{
    broadcast use vstd::seq_lib::to_multiset_build;

    if s.len() == 0 || s.last().gz_size_bytes >= x.gz_size_bytes {
    } else {
        lemma_insert_by_size_multiset(s.drop_last(), x);
        assert(s.drop_last().push(s.last()) =~= s);
        assert(s.drop_last().to_multiset().insert(s.last()) =~= s.to_multiset());
        assert(s.drop_last().to_multiset().insert(x).insert(s.last())
            =~= s.drop_last().to_multiset().insert(s.last()).insert(x));
    }
}

/// Whether no file is larger than one before it.
pub open spec fn descending(s: Seq<FilePair>) -> bool {
    forall|i: int, j: int|
        0 <= i < j < s.len() ==> (#[trigger] s[i]).gz_size_bytes >= (#[trigger] s[j]).gz_size_bytes
}

proof fn lemma_insert_by_size_descending(s: Seq<FilePair>, x: FilePair)
    requires
        descending(s),
    ensures
        descending(insert_by_size(s, x)),
        forall|i: int|
            0 <= i < insert_by_size(s, x).len() ==> (#[trigger] insert_by_size(s, x)[i]) == x
                || s.contains(insert_by_size(s, x)[i]),
    decreases s.len(),
{
    if s.len() == 0 || s.last().gz_size_bytes >= x.gz_size_bytes {
        let r = s.push(x);
        assert forall|i: int, j: int| 0 <= i < j < r.len() implies (#[trigger] r[i]).gz_size_bytes
            >= (#[trigger] r[j]).gz_size_bytes by {
            if j == s.len() {
                if i < s.len() - 1 {
                    assert(s[i].gz_size_bytes >= s[s.len() - 1].gz_size_bytes);
                }
            }
        }
        assert forall|i: int| 0 <= i < r.len() implies (#[trigger] r[i]) == x || s.contains(r[i]) by {
            if i < s.len() {
                assert(s[i] == r[i]);
            }
        }
    } else {
        let init = s.drop_last();
        lemma_insert_by_size_descending(init, x);
        let t = insert_by_size(init, x);
        let r = t.push(s.last());
        assert forall|i: int| 0 <= i < r.len() implies (#[trigger] r[i]) == x || s.contains(r[i]) by {
            if i < t.len() {
                assert(r[i] == t[i]);
                if t[i] != x {
                    let k = choose|k: int| 0 <= k < init.len() && init[k] == t[i];
                    assert(s[k] == t[i]);
                }
            } else {
                assert(s[s.len() - 1] == r[i]);
            }
        }
        assert forall|i: int, j: int| 0 <= i < j < r.len() implies (#[trigger] r[i]).gz_size_bytes
            >= (#[trigger] r[j]).gz_size_bytes by {
            if j == t.len() {
                if t[i] != x {
                    let k = choose|k: int| 0 <= k < init.len() && init[k] == t[i];
                    assert(s[k].gz_size_bytes >= s[s.len() - 1].gz_size_bytes);
                }
            } else {
                assert(r[i] == t[i] && r[j] == t[j]);
            }
        }
    }
}

/// Sorting from large to small keeps every file, as often as it occurs, and puts
/// no file behind a smaller one.
pub proof fn law_largest_first(s: Seq<FilePair>)
    ensures
        largest_first(s).to_multiset() == s.to_multiset(),
        descending(largest_first(s)),
    decreases s.len(),
{
    if s.len() > 0 {
        broadcast use vstd::seq_lib::to_multiset_build;

        law_largest_first(s.drop_last());
        lemma_insert_by_size_multiset(largest_first(s.drop_last()), s.last());
        lemma_insert_by_size_descending(largest_first(s.drop_last()), s.last());
        assert(s.drop_last().push(s.last()) =~= s);
    }
}

proof fn lemma_placement_bound(s: Seq<Stratum>, size: u64, i: int)
    requires
        0 <= i < s.len(),
        s.last().max_file_mb is None,
    ensures
        i <= placement(s, size, i) < s.len(),
        covers(s[placement(s, size, i)], size),
        forall|k: int| i <= k < placement(s, size, i) ==> !covers(#[trigger] s[k], size),
    decreases s.len() - i,
{
    if !covers(s[i], size) {
        lemma_placement_bound(s, size, i + 1);
    }
}

/// Every file of the pass over a stratum is within the stratum's bound and above
/// the bounds of all strata before it.
pub proof fn law_files_go_to_their_stratum(
    s: Seq<Stratum>,
    todo: Seq<FilePair>,
    k: int,
    f: FilePair,
)
    requires
        0 <= k < s.len(),
        s.last().max_file_mb is None,
        bucket(s, todo, k).contains(f),
    ensures
        covers(s[k], f.gz_size_bytes),
        forall|j: int| 0 <= j < k ==> !covers(#[trigger] s[j], f.gz_size_bytes),
{
    let here = |f: FilePair| placement(s, f.gz_size_bytes, 0) == k;
    let i = choose|i: int| 0 <= i < bucket(s, todo, k).len() && bucket(s, todo, k)[i] == f;
    largest_first(todo).lemma_filter_pred(here, i);
    lemma_placement_bound(s, f.gz_size_bytes, 0);
}

/// The files of `t` that are placed below `k`, split into those placed at
/// `k - 1` and those placed below that.
proof fn lemma_filter_split(s: Seq<Stratum>, t: Seq<FilePair>, k: int)
    ensures
        t.filter(|f: FilePair| placement(s, f.gz_size_bytes, 0) < k).to_multiset() == t.filter(
            |f: FilePair| placement(s, f.gz_size_bytes, 0) == k - 1,
        ).to_multiset().add(
            t.filter(|f: FilePair| placement(s, f.gz_size_bytes, 0) < k - 1).to_multiset(),
        ),
    decreases t.len(),
{
    let below = |f: FilePair| placement(s, f.gz_size_bytes, 0) < k;
    let at = |f: FilePair| placement(s, f.gz_size_bytes, 0) == k - 1;
    let lower = |f: FilePair| placement(s, f.gz_size_bytes, 0) < k - 1;
    broadcast use vstd::seq_lib::to_multiset_build;

    reveal(Seq::filter);
    if t.len() == 0 {
        assert(t.filter(below) =~= Seq::<FilePair>::empty());
        assert(t.filter(at) =~= Seq::<FilePair>::empty());
        assert(t.filter(lower) =~= Seq::<FilePair>::empty());
        assert(Seq::<FilePair>::empty().to_multiset().add(Seq::<FilePair>::empty().to_multiset())
            =~= Seq::<FilePair>::empty().to_multiset()) by {
            broadcast use vstd::seq_lib::group_to_multiset_ensures;

        }
    } else {
        let init = t.drop_last();
        let x = t.last();
        lemma_filter_split(s, init, k);
        assert(t.filter(below).to_multiset() =~= t.filter(at).to_multiset().add(
            t.filter(lower).to_multiset(),
        ));
    }
}

proof fn lemma_passes_files(
    s: Seq<Stratum>,
    todo: Seq<FilePair>,
    k: int,
    memory_override: Option<usize>,
)
    requires
        0 <= k <= s.len(),
    ensures
        all_files(passes_below(s, todo, k, memory_override)).to_multiset() == largest_first(
            todo,
        ).filter(|f: FilePair| placement(s, f.gz_size_bytes, 0) < k).to_multiset(),
    decreases k,
{
    let t = largest_first(todo);
    let below = |f: FilePair| placement(s, f.gz_size_bytes, 0) < k;
    if k == 0 {
        assert forall|f: FilePair| !#[trigger] below(f) by {
            lemma_placement_nonneg(s, f.gz_size_bytes, 0);
        }
        t.lemma_all_neg_filter_empty(below);
        assert(t.filter(below) =~= Seq::<FilePair>::empty());
        assert(all_files(passes_below(s, todo, k, memory_override)) =~= Seq::<FilePair>::empty());
    } else {
        let rest = passes_below(s, todo, k - 1, memory_override);
        let b = bucket(s, todo, k - 1);
        lemma_passes_files(s, todo, k - 1, memory_override);
        lemma_filter_split(s, t, k);
        vstd::seq_lib::lemma_multiset_commutative(b, all_files(rest));
        if b.len() == 0 {
            assert(b + all_files(rest) =~= all_files(rest));
        } else {
            let pass = stratum_pass(s, todo, k - 1, memory_override);
            assert((seq![pass] + rest).drop_first() =~= rest);
        }
    }
}

proof fn lemma_placement_nonneg(s: Seq<Stratum>, size: u64, i: int)
    ensures
        placement(s, size, i) >= i,
    decreases s.len() - i,
{
    if !(i >= s.len() || covers(s[i], size)) {
        lemma_placement_nonneg(s, size, i + 1);
    }
}

/// A plan made with a usable profile converts every file exactly once.
pub proof fn law_plan_converts_each_file_once(
    name: Seq<char>,
    def: profile::ProfileView,
    workers_override: Option<usize>,
    memory_override: Option<usize>,
    total_ram_mb: Option<usize>,
    todo: Seq<FilePair>,
)
    requires
        profile::profile_error(name, def) is None,
    ensures
        all_files(
            planned(def, workers_override, memory_override, total_ram_mb, todo).0,
        ).to_multiset() == todo.to_multiset(),
{
    let p = planned(def, workers_override, memory_override, total_ram_mb, todo).0;
    law_largest_first(todo);
    if planned(def, workers_override, memory_override, total_ram_mb, todo).1 {
        reveal_with_fuel(all_files, 2);
        assert(p.drop_first() =~= Seq::<StratumView>::empty());
        assert(all_files(p) =~= p[0].files);
    } else {
        let s = def.strata->0;
        let t = largest_first(todo);
        let n = s.len() as int;
        let below = |f: FilePair| placement(s, f.gz_size_bytes, 0) < n;
        lemma_passes_files(s, todo, n, memory_override);
        assert forall|f: FilePair| #[trigger] below(f) by {
            lemma_placement_bound(s, f.gz_size_bytes, 0);
        }
        lemma_filter_all(t, below);
    }
}

proof fn lemma_filter_all(t: Seq<FilePair>, p: spec_fn(FilePair) -> bool)
    requires
        forall|f: FilePair| #[trigger] p(f),
    ensures
        t.filter(p) == t,
    decreases t.len(),
{
    reveal(Seq::filter);
    if t.len() > 0 {
        lemma_filter_all(t.drop_last(), p);
        assert(t.drop_last().push(t.last()) =~= t);
    } else {
        assert(t.filter(p) =~= t);
    }
}

/// The number before the unit of a size, and what the unit multiplies it by.
pub open spec fn size_unit(t: Seq<char>) -> (Seq<char>, int) {
    if text::has_suffix(t, "gib"@) {
        (t.take(t.len() - 3), 1_073_741_824)
    } else if text::has_suffix(t, "mib"@) {
        (t.take(t.len() - 3), 1_048_576)
    } else if text::has_suffix(t, "kib"@) {
        (t.take(t.len() - 3), 1024)
    } else if text::has_suffix(t, "gb"@) {
        (t.take(t.len() - 2), 1_000_000_000)
    } else if text::has_suffix(t, "mb"@) {
        (t.take(t.len() - 2), 1_000_000)
    } else if text::has_suffix(t, "kb"@) {
        (t.take(t.len() - 2), 1000)
    } else if text::has_suffix(t, "b"@) {
        (t.take(t.len() - 1), 1)
    } else {
        (t, 1)
    }
}

/// The number of bytes that a size in trimmed small letters denotes.
pub open spec fn size_bytes(t: Seq<char>) -> Option<int> {
    if t == "0"@ {
        Some(0)
    } else {
        match text::unsigned_of(text::trim(size_unit(t).0), usize::MAX as nat) {
            Some(n) => Some(n * size_unit(t).1),
            None => None,
        }
    }
}

/// What is wrong with a text in trimmed small letters that is no size: what was expected,
/// and why the number before the unit is none.
pub open spec fn size_error(t: Seq<char>) -> Seq<char> {
    "invalid size '"@ + t + "': expected number with optional suffix (kb/mb/gb/kib/mib/gib): "@
        + text::usize_error_of(text::trim(size_unit(t).0))
}

/// A size as it is read: trimmed, in small letters.
pub open spec fn size_text(s: Seq<char>) -> Seq<char> {
    text::lowercase_of(text::trim(s))
}

/// The number and the multiplier of a size in trimmed small letters, or what is
/// wrong with it.
pub fn size_parts(t: &str) -> (r: Result<(usize, usize), String>)
    ensures
        match r {
            Ok((n, m)) => size_bytes(t@) == Some(n * m),
            Err(e) => size_bytes(t@) is None && e@ == size_error(t@),
        },
{
    if str_eq(t, "0") {
        return Ok((0, 1));
    }
    proof {
        reveal_strlit("gib");
        reveal_strlit("mib");
        reveal_strlit("kib");
        reveal_strlit("gb");
        reveal_strlit("mb");
        reveal_strlit("kb");
        reveal_strlit("b");
    }
    let (number, unit): (String, usize) = if let Some(p) = strip_suffix(t, "gib") {
        (p, 1_073_741_824)
    } else if let Some(p) = strip_suffix(t, "mib") {
        (p, 1_048_576)
    } else if let Some(p) = strip_suffix(t, "kib") {
        (p, 1024)
    } else if let Some(p) = strip_suffix(t, "gb") {
        (p, 1_000_000_000)
    } else if let Some(p) = strip_suffix(t, "mb") {
        (p, 1_000_000)
    } else if let Some(p) = strip_suffix(t, "kb") {
        (p, 1000)
    } else if let Some(p) = strip_suffix(t, "b") {
        (p, 1)
    } else {
        (t.to_owned(), 1)
    };
    let digits = trimmed(number.as_str());
    match parse_unsigned(digits.as_str(), usize::MAX as u128) {
        Some(n) => Ok((n as usize, unit)),
        None => {
            let mut m = "invalid size '".to_owned();
            m.append(t);
            m.append("': expected number with optional suffix (kb/mb/gb/kib/mib/gib): ");
            let why = usize_error(digits.as_str());
            m.append(why.as_str());
            Err(m)
        },
    }
}

/// Reads a size such as `256mb`. "0" stands for no limit. The letters may be
/// small or capital.
pub fn parse_size_str(s: &str) -> (r: Result<usize, String>)
    requires
        size_bytes(size_text(s@)) matches Some(n) ==> n <= usize::MAX,
    ensures
        match r {
            Ok(n) => size_bytes(size_text(s@)) == Some(n as int),
            Err(e) => size_bytes(size_text(s@)) is None && e@ == size_error(size_text(s@)),
        },
{
    let trimmed_text = trimmed(s);
    let t = lowercase(trimmed_text.as_str());
    match size_parts(t.as_str()) {
        Ok((n, m)) => Ok(n * m),
        Err(e) => Err(e),
    }
}

/// As `parse_size_str`; nothing where the size is beyond what a `usize` holds.
pub fn parse_size_checked(s: &str) -> (r: Option<Result<usize, String>>)
    ensures
        match r {
            Some(Ok(n)) => size_bytes(size_text(s@)) == Some(n as int),
            Some(Err(e)) => size_bytes(size_text(s@)) is None && e@ == size_error(size_text(s@)),
            None => size_bytes(size_text(s@)) matches Some(n) && n > usize::MAX,
        },
{
    let trimmed_text = trimmed(s);
    let t = lowercase(trimmed_text.as_str());
    if let Ok((n, m)) = size_parts(t.as_str()) {
        assert(n as u128 * m as u128 <= u64::MAX as u128 * u64::MAX as u128) by (nonlinear_arith)
            requires
                n <= u64::MAX,
                m <= u64::MAX,
        ;
        if n as u128 * m as u128 > usize::MAX as u128 {
            return None;
        }
    }
    Some(parse_size_str(s))
}

/// The first of the lines that starts with `MemTotal:`, from position `i` on.
pub open spec fn memory_line(lines: Seq<Seq<char>>, i: int) -> Option<Seq<char>>
    decreases lines.len() - i,
{
    if i >= lines.len() {
        None
    } else if text::has_prefix(lines[i], "MemTotal:"@) {
        Some(lines[i])
    } else {
        memory_line(lines, i + 1)
    }
}

/// The RAM in MiB that the text of `/proc/meminfo` states.
pub fn meminfo_total_mb(meminfo: &str) -> (r: Option<usize>)
    ensures
        r == (match memory_line(text::lines(meminfo@), 0) {
            Some(line) => if text::words(line).len() > 1 {
                match text::unsigned_of(text::words(line)[1], u128::MAX as nat) {
                    Some(kb) => Some((kb / 1024) as usize),
                    None => None,
                }
            } else {
                None
            },
            None => None,
        }),
{
    let lines = split_lines(meminfo);
    let ghost all = text::lines(meminfo@);
    assert(text::texts(lines@).len() == lines@.len());
    let mut i: usize = 0;
    while i < lines.len()
        invariant
            i <= lines@.len(),
            all == text::lines(meminfo@),
            all == text::texts(lines@),
            memory_line(all, 0) == memory_line(all, i as int),
        decreases lines@.len() - i,
    {
        assert(all[i as int] == lines@[i as int]@);
        if starts_with(lines[i].as_str(), "MemTotal:") {
            let words = split_words(lines[i].as_str());
            assert(text::texts(words@).len() == words@.len());
            if words.len() > 1 {
                assert(text::texts(words@)[1] == words@[1]@);
                return match parse_unsigned(words[1].as_str(), u128::MAX) {
                    Some(kb) => Some((kb / 1024) as usize),
                    None => None,
                };
            }
            return None;
        }
        i += 1;
    }
    None
}

/// The RAM in MiB that a number of bytes in decimal stands for.
pub fn byte_text_total_mb(bytes: &str) -> (r: Option<usize>)
    ensures
        r == (match text::unsigned_of(text::trim(bytes@), u128::MAX as nat) {
            Some(n) => Some((n / 1_048_576) as usize),
            None => None,
        }),
{
    let t = trimmed(bytes);
    match parse_unsigned(t.as_str(), u128::MAX) {
        Some(n) => Some((n / 1_048_576) as usize),
        None => None,
    }
}

/// Workers and memory per worker of a baseline stratum, in proportion to the
/// RAM of another host.
#[derive(Clone, Copy, Debug, PartialEq, Eq, Structural)]
pub struct ScaledStratum {
    pub workers: usize,
    pub per_worker_mb: usize,
}

/// `base` with its scaled values, within what the host can carry.
pub open spec fn derived_stratum(
    base: Stratum,
    scaled: ScaledStratum,
    cpu_cap: int,
    parallel_cap_mb: int,
    single_cap_mb: int,
) -> (Option<u64>, int, int) {
    let workers = max_int(min_int(max_int(scaled.workers as int, 1), cpu_cap), 1);
    let wanted = max_int(
        scaled.per_worker_mb as int,
        profile::STRATIFIED_MIN_PER_WORKER_MB as int,
    );
    let cap = if workers == 1 { single_cap_mb } else { parallel_cap_mb };
    let per_worker = if min_int(workers * wanted, usize::MAX as int) > cap {
        max_int(cap / workers, profile::STRATIFIED_MIN_PER_WORKER_MB as int)
    } else {
        wanted
    };
    (base.max_file_mb, workers, per_worker)
}

/// A derived stratum has no more workers than there may be, gives each of them the least
/// memory at least, and keeps all of them together to the cap, unless even the least memory
/// goes beyond it.
pub proof fn law_derived_strata_keep_to_their_caps(
    base: Stratum,
    scaled: ScaledStratum,
    cpu_cap: int,
    parallel_cap_mb: int,
    single_cap_mb: int,
)
    requires
        cpu_cap >= 1,
        0 <= parallel_cap_mb < usize::MAX,
        0 <= single_cap_mb < usize::MAX,
    ensures
        ({
            let (bound, workers, mb) = derived_stratum(
                base,
                scaled,
                cpu_cap,
                parallel_cap_mb,
                single_cap_mb,
            );
            let least = profile::STRATIFIED_MIN_PER_WORKER_MB as int;
            &&& bound == base.max_file_mb
            &&& 1 <= workers <= cpu_cap
            &&& mb >= least
            &&& mb == least || workers * mb <= (if workers == 1 {
                single_cap_mb
            } else {
                parallel_cap_mb
            })
        }),
{
    let workers = max_int(min_int(max_int(scaled.workers as int, 1), cpu_cap), 1);
    let cap = if workers == 1 {
        single_cap_mb
    } else {
        parallel_cap_mb
    };
    assert(workers * (cap / workers) <= cap) by (nonlinear_arith)
        requires
            workers >= 1,
            cap >= 0,
    ;
}

/// Strata with the bounds of the baseline, with workers and with enough memory for each of
/// them make a usable profile under every name.
proof fn lemma_scaled_baseline_is_usable(name: Seq<char>, def: profile::ProfileView)
    requires
        def.kind is Stratified,
        def.strata matches Some(s) && s.len() == 4 && forall|i: int|
            0 <= i < 4 ==> (#[trigger] s[i]).max_file_mb
                == profile::baseline_strata()[i].max_file_mb && s[i].workers >= 1
                && s[i].per_worker_mb >= profile::STRATIFIED_MIN_PER_WORKER_MB,
    ensures
        profile::profile_error(name, def) is None,
{
    let s = def.strata->Some_0;
    let base = profile::baseline_strata();
    assert(s[0].max_file_mb == base[0].max_file_mb);
    assert(s[1].max_file_mb == base[1].max_file_mb);
    assert(s[2].max_file_mb == base[2].max_file_mb);
    assert(s[3].max_file_mb == base[3].max_file_mb);
    reveal_with_fuel(profile::catch_all_count, 5);
    reveal_with_fuel(profile::strata_error, 5);
    reveal_with_fuel(profile::last_bound, 4);
    assert(s.drop_last().drop_last().drop_last().drop_last() =~= Seq::<Stratum>::empty());
}

/// A profile for a host with `total_ram_mb` MB of RAM: the baseline strata in
/// proportion, with at most as many workers as there are CPUs and with caps on
/// the memory of all workers together. Where the RAM is not known, one stratum
/// with one worker. The profile is usable under every name, whatever the host is, and the
/// host has the memory that it is meant for.
pub fn derive_stratified_profile_for_ram(
    total_ram_mb: Option<usize>,
    cpus: Option<usize>,
    scaled: &Vec<ScaledStratum>,
    parallel_cap_mb: usize,
    single_cap_mb: usize,
) -> (r: ProfileDef)
    requires
        total_ram_mb matches Some(mb) ==> mb + 512 <= usize::MAX,
        total_ram_mb matches Some(mb) ==> mb > 0 ==> scaled@.len() == 4,
    ensures
        r@.kind is Stratified,
        r@.min_ram_gb == (match total_ram_mb {
            Some(mb) => Some(((mb + 512) / 1024) as usize),
            None => None,
        }),
        r@.description == Some(
            "Auto-derived from "@ + (match total_ram_mb {
                Some(mb) => text::decimal(((mb + 512) / 1024) as nat),
                None => "unknown"@,
            }) + " GB system RAM (scaled from the 36 GB baseline)"@,
        ),
        forall|name: Seq<char>| #[trigger] profile::profile_error(name, r@) is None,
        !profile::short_of_ram(r@, total_ram_mb),
        r@.strata is Some,
        total_ram_mb matches Some(mb) && mb > 0 ==> {
            let cpu_cap = match cpus {
                Some(n) => min_int(n as int, profile::STRATIFIED_MAX_WORKERS as int),
                None => profile::STRATIFIED_MAX_WORKERS as int,
            };
            &&& r@.strata->0.len() == 4
            &&& forall|i: int|
                0 <= i < 4 ==> ({
                    let s = #[trigger] r@.strata->0[i];
                    (s.max_file_mb, s.workers as int, s.per_worker_mb as int) == derived_stratum(
                        profile::baseline_strata()[i],
                        scaled@[i],
                        cpu_cap,
                        parallel_cap_mb as int,
                        single_cap_mb as int,
                    )
                })
        },
        !(total_ram_mb matches Some(mb) && mb > 0) ==> r@.strata->0 == seq![
            Stratum { max_file_mb: None, workers: 1, per_worker_mb: 4096 },
        ],
{
    let cpu_cap: usize = match cpus {
        Some(n) => if n <= profile::STRATIFIED_MAX_WORKERS {
            n
        } else {
            profile::STRATIFIED_MAX_WORKERS
        },
        None => profile::STRATIFIED_MAX_WORKERS,
    };
    let known = match total_ram_mb {
        Some(mb) => mb > 0,
        None => false,
    };
    let mut strata: Vec<Stratum> = Vec::new();
    if known {
        let base = profile::stratified_baseline_36gb_strata();
        let mut i: usize = 0;
        while i < base.len()
            invariant
                i <= base@.len(),
                base@ == profile::baseline_strata(),
                base@.len() == 4,
                scaled@.len() == 4,
                strata@.len() == i,
                forall|k: int|
                    0 <= k < i ==> ({
                        let s = #[trigger] strata@[k];
                        (s.max_file_mb, s.workers as int, s.per_worker_mb as int)
                            == derived_stratum(
                            base@[k],
                            scaled@[k],
                            cpu_cap as int,
                            parallel_cap_mb as int,
                            single_cap_mb as int,
                        )
                    }),
            decreases base@.len() - i,
        {
            let one: usize = 1;
            let asked = if scaled[i].workers >= 1 {
                scaled[i].workers
            } else {
                one
            };
            let within = if asked <= cpu_cap {
                asked
            } else {
                cpu_cap
            };
            let workers = if within >= 1 {
                within
            } else {
                one
            };
            let least = profile::STRATIFIED_MIN_PER_WORKER_MB;
            let wanted = if scaled[i].per_worker_mb >= least {
                scaled[i].per_worker_mb
            } else {
                least
            };
            let cap = if workers == 1 {
                single_cap_mb
            } else {
                parallel_cap_mb
            };
            let ghost exact = workers * wanted;
            assert(workers as u128 * wanted as u128 <= u64::MAX as u128 * u64::MAX as u128)
                by (nonlinear_arith)
                requires
                    workers <= u64::MAX,
                    wanted <= u64::MAX,
            ;
            let product: u128 = workers as u128 * wanted as u128;
            assert(product == exact);
            let over = if product > usize::MAX as u128 {
                usize::MAX > cap
            } else {
                product > cap as u128
            };
            let per_worker_mb = if over {
                let share = cap / workers;
                if share >= least {
                    share
                } else {
                    least
                }
            } else {
                wanted
            };
            strata.push(Stratum { max_file_mb: base[i].max_file_mb, workers, per_worker_mb });
            i += 1;
        }
    } else {
        strata.push(Stratum { max_file_mb: None, workers: 1, per_worker_mb: 4096 });
        assert(strata@ =~= seq![Stratum { max_file_mb: None, workers: 1, per_worker_mb: 4096 }]);
    }
    let mut description = "Auto-derived from ".to_owned();
    let min_ram_gb = match total_ram_mb {
        Some(mb) => {
            let gb = (mb + 512) / 1024;
            push_decimal(&mut description, gb as u128);
            Some(gb)
        },
        None => {
            description.append("unknown");
            None
        },
    };
    description.append(" GB system RAM (scaled from the 36 GB baseline)");
    let def = ProfileDef {
        kind: ProfileKind::Stratified,
        description: Some(description),
        min_ram_gb,
        strata: Some(strata),
    };
    proof {
        assert forall|name: Seq<char>| #[trigger] profile::profile_error(name, def@) is None by {
            if known {
                lemma_scaled_baseline_is_usable(name, def@);
            } else {
                reveal_with_fuel(profile::catch_all_count, 2);
                reveal_with_fuel(profile::strata_error, 2);
            }
        }
    }
    def
}

/// The lesser and the greater of two numbers are those two numbers, in order.
pub proof fn law_lesser_and_greater(a: int, b: int)
    ensures
        min_int(a, b) <= a && min_int(a, b) <= b,
        max_int(a, b) >= a && max_int(a, b) >= b,
        min_int(a, b) + max_int(a, b) == a + b,
{
}

/// A single worker gets 45 of a hundred parts of four fifths of the memory, at least
/// 8 GiB and at most 24 GiB; one of several 15 of a hundred parts, at least one GiB
/// and at most 8 GiB. Where the memory is not known they get 8 GiB and 2 GiB.
pub proof fn law_memory_of_a_worker(total: usize, usable: int, single: int, shared: int)
    requires
        total > 0,
        5 * usable <= 4 * total < 5 * usable + 5,
        100 * single <= 45 * usable < 100 * single + 100,
        100 * shared <= 15 * usable < 100 * shared + 100,
    ensures
        8192 <= single <= 24576 ==> safe_memory_mb(1, Some(total)) == single,
        single < 8192 ==> safe_memory_mb(1, Some(total)) == 8192,
        single > 24576 ==> safe_memory_mb(1, Some(total)) == 24576,
        1024 <= shared <= 8192 ==> safe_memory_mb(2, Some(total)) == shared,
        shared < 1024 ==> safe_memory_mb(2, Some(total)) == 1024,
        shared > 8192 ==> safe_memory_mb(2, Some(total)) == 8192,
        safe_memory_mb(1, None) == 8192,
        safe_memory_mb(2, None) == 2048,
        safe_memory_mb(1, Some(0)) == 8192,
        safe_memory_mb(2, Some(0)) == 2048,
{
    assert(total * 4 / 5 == usable) by {
        assert(usable == (4 * total) / 5);
    }
    assert(usable * 45 / 100 == single);
    assert(usable * 15 / 100 == shared);
}

/// A stratum takes files up to its bound in MiB, the bound included; one without a
/// bound takes every file.
pub proof fn law_bounds_of_a_stratum(s: Stratum, size: u64)
    ensures
        s.max_file_mb matches Some(mb) ==> (covers(s, size) <==> size <= mb * 1024 * 1024),
        s.max_file_mb is None ==> covers(s, size),
{
}

/// The workers and the memory that stand for a cautious profile are those of its one
/// pass, which takes the files as they come.
pub proof fn law_cautious_plan(
    def: profile::ProfileView,
    workers: usize,
    memory_mb: Option<usize>,
    total_ram_mb: Option<usize>,
    todo: Seq<FilePair>,
)
    requires
        def.kind is Safe,
    ensures
        ({
            let passes = planned(def, Some(workers), memory_mb, total_ram_mb, todo).0;
            let (w, m) = representative(def, workers, memory_mb, total_ram_mb);
            &&& passes.len() == 1
            &&& passes[0].workers == w && Some(passes[0].memory_mb) == m && passes[0].files == todo
            &&& w == 1 || w == 2
            &&& w == 2 <==> workers >= 2
            &&& memory_mb matches Some(mb) ==> m == Some(mb as int)
            &&& memory_mb is None ==> m == Some(safe_memory_mb(w, total_ram_mb))
        }),
        planned(def, None, memory_mb, total_ram_mb, todo).0.len() == 1,
        planned(def, None, memory_mb, total_ram_mb, todo).0[0].workers == 1,
        planned(def, None, memory_mb, total_ram_mb, todo).0[0].files == todo,
{
}

/// The memory that serves every stratum is that of the one that asks for most.
pub proof fn law_largest_memory(s: Seq<Stratum>)
    ensures
        s.len() == 0 ==> largest_memory_mb(s) == 4096,
        s.len() > 0 ==> exists|i: int|
            0 <= i < s.len() && (#[trigger] s[i]).per_worker_mb == largest_memory_mb(s),
        forall|i: int|
            0 <= i < s.len() ==> (#[trigger] s[i]).per_worker_mb <= largest_memory_mb(s),
    decreases s.len(),
{
    if s.len() == 1 {
        assert(s[0].per_worker_mb == largest_memory_mb(s));
    } else if s.len() > 1 {
        let init = s.drop_last();
        law_largest_memory(init);
        let i = choose|i: int|
            0 <= i < init.len() && (#[trigger] init[i]).per_worker_mb == largest_memory_mb(init);
        assert(s[i] == init[i]);
        assert(s[s.len() - 1] == s.last());
        assert forall|j: int| 0 <= j < s.len() implies (#[trigger] s[j]).per_worker_mb
            <= largest_memory_mb(s) by {
            if j < s.len() - 1 {
                assert(init[j] == s[j]);
            }
        }
    }
}

/// Where the number of workers is set, a stratified profile makes one pass over all
/// files, the largest first, with at least one worker and the memory that was set or
/// that serves every stratum.
pub proof fn law_plan_with_workers_set(
    def: profile::ProfileView,
    workers: usize,
    memory_mb: Option<usize>,
    total_ram_mb: Option<usize>,
    todo: Seq<FilePair>,
)
    requires
        def.kind is Stratified,
    ensures
        ({
            let passes = planned(def, Some(workers), memory_mb, total_ram_mb, todo).0;
            &&& passes.len() == 1
            &&& workers >= 1 ==> passes[0].workers == workers
            &&& workers == 0 ==> passes[0].workers == 1
            &&& memory_mb matches Some(mb) ==> passes[0].memory_mb == mb
            &&& memory_mb is None ==> passes[0].memory_mb == largest_memory_mb(def.strata->0)
            &&& descending(passes[0].files)
            &&& passes[0].files.to_multiset() == todo.to_multiset()
        }),
{
    law_largest_first(todo);
}

/// One stratum more makes a pass of its own, before all others, where any file falls
/// to it, with its workers, its memory or the memory that was set, and its files.
pub proof fn law_passes_by_stratum(
    s: Seq<Stratum>,
    todo: Seq<FilePair>,
    k: int,
    memory_mb: Option<usize>,
)
    requires
        0 <= k < s.len(),
        s[k].workers >= 1,
    ensures
        passes_below(s, todo, 0, memory_mb).len() == 0,
        bucket(s, todo, k).len() == 0 ==> passes_below(s, todo, k + 1, memory_mb) == passes_below(
            s,
            todo,
            k,
            memory_mb,
        ),
        bucket(s, todo, k).len() > 0 ==> {
            let p = passes_below(s, todo, k + 1, memory_mb);
            &&& p.len() == passes_below(s, todo, k, memory_mb).len() + 1
            &&& p.drop_first() == passes_below(s, todo, k, memory_mb)
            &&& p[0].workers == s[k].workers
            &&& memory_mb matches Some(mb) ==> p[0].memory_mb == mb
            &&& memory_mb is None ==> p[0].memory_mb == s[k].per_worker_mb
            &&& p[0].files == bucket(s, todo, k)
        },
{
    let p = passes_below(s, todo, k + 1, memory_mb);
    if bucket(s, todo, k).len() > 0 {
        assert(p.drop_first() =~= passes_below(s, todo, k, memory_mb));
    }
}

proof fn lemma_catch_all(s: Seq<Stratum>, i: int, k: int)
    requires
        0 <= i <= k < s.len(),
        s[k].max_file_mb is None,
        forall|j: int| i <= j < k ==> (#[trigger] s[j]).max_file_mb is Some,
    ensures
        catch_all_or_last(s, i) == s[k],
    decreases k - i,
{
    if i < k {
        lemma_catch_all(s, i + 1, k);
    }
}

/// A stratified profile is represented by the workers of its first stratum and the
/// memory of the one without a bound, unless others are set.
pub proof fn law_representative_of_a_stratified_profile(
    def: profile::ProfileView,
    workers: usize,
    memory_mb: Option<usize>,
    total_ram_mb: Option<usize>,
    k: int,
)
    requires
        def.kind is Stratified,
        def.strata is Some,
        0 <= k < def.strata->0.len(),
        (def.strata->0)[k].max_file_mb is None,
        forall|j: int| 0 <= j < k ==> (#[trigger] (def.strata->0)[j]).max_file_mb is Some,
    ensures
        ({
            let (w, m) = representative(def, workers, memory_mb, total_ram_mb);
            &&& workers > 0 ==> w == workers
            &&& workers == 0 ==> w == (def.strata->0)[0].workers
            &&& memory_mb matches Some(mb) ==> m == Some(mb as int)
            &&& memory_mb is None ==> m == Some((def.strata->0)[k].per_worker_mb as int)
        }),
{
    lemma_catch_all(def.strata->0, 0, k);
}

proof fn lemma_number_with_unit(n: nat, unit: Seq<char>)
    requires
        n <= usize::MAX,
        unit.len() > 0,
        !text::is_digit(unit[0]),
    ensures
        (text::decimal(n) + unit).take(text::decimal(n).len() as int) == text::decimal(n),
        text::unsigned_of(text::trim(text::decimal(n)), usize::MAX as nat) == Some(n),
        text::decimal(n) + unit != "0"@,
        text::is_digit(text::decimal(n).last()),
        text::decimal(n).len() > 0,
{
    reveal_strlit("0");
    let d = text::decimal(n);
    text::law_decimal_round_trip(n);
    text::law_unsigned_reading(d, usize::MAX as nat);
    assert(text::is_decimal(d));
    assert((d + unit).take(d.len() as int) =~= d);
    assert(text::is_digit(d[0]) && text::is_digit(d[d.len() - 1]));
    assert(Seq::<char>::empty() + d + Seq::<char>::empty() =~= d);
    text::law_trim(Seq::empty(), d, Seq::empty());
    assert((d + unit).len() > 1);
}

/// A number behind which a unit stands is that number of units: the units of two
/// letters are powers of a thousand, those of three letters powers of 1024, and
/// neither a `b` nor no unit at all changes the number.
pub proof fn law_sizes(n: nat)
    requires
        n <= usize::MAX,
    ensures
        size_bytes(text::decimal(n)) == Some(n as int),
        size_bytes(text::decimal(n) + "b"@) == Some(n as int),
        size_bytes(text::decimal(n) + "kb"@) == Some(n as int * 1000),
        size_bytes(text::decimal(n) + "mb"@) == Some(n as int * 1000 * 1000),
        size_bytes(text::decimal(n) + "gb"@) == Some(n as int * 1000 * 1000 * 1000),
        size_bytes(text::decimal(n) + "kib"@) == Some(n as int * 1024),
        size_bytes(text::decimal(n) + "mib"@) == Some(n as int * 1024 * 1024),
        size_bytes(text::decimal(n) + "gib"@) == Some(n as int * 1024 * 1024 * 1024),
{
    reveal_strlit("0");
    reveal_strlit("b");
    reveal_strlit("kb");
    reveal_strlit("mb");
    reveal_strlit("gb");
    reveal_strlit("kib");
    reveal_strlit("mib");
    reveal_strlit("gib");
    let d = text::decimal(n);
    lemma_number_with_unit(n, "b"@);
    lemma_number_with_unit(n, "kb"@);
    lemma_number_with_unit(n, "mb"@);
    lemma_number_with_unit(n, "gb"@);
    lemma_number_with_unit(n, "kib"@);
    lemma_number_with_unit(n, "mib"@);
    lemma_number_with_unit(n, "gib"@);
    lemma_ends(d, d);
    lemma_ends(d, d + "b"@);
    lemma_ends(d, d + "kb"@);
    lemma_ends(d, d + "mb"@);
    lemma_ends(d, d + "gb"@);
    lemma_ends(d, d + "kib"@);
    lemma_ends(d, d + "mib"@);
    lemma_ends(d, d + "gib"@);
    let none = Seq::<char>::empty();
    assert(d + none =~= d);
    if d == "0"@ {
        text::law_decimal_round_trip(n);
        reveal_with_fuel(text::decimal_value, 2);
        assert(n == 0);
    } else {
        lemma_size(n, none, 1);
    }
    lemma_size(n, "b"@, 1);
    lemma_size(n, "kb"@, 1000);
    lemma_size(n, "mb"@, 1_000_000);
    lemma_size(n, "gb"@, 1_000_000_000);
    lemma_size(n, "kib"@, 1024);
    lemma_size(n, "mib"@, 1_048_576);
    lemma_size(n, "gib"@, 1_073_741_824);
}

proof fn lemma_size(n: nat, unit: Seq<char>, k: int)
    requires
        n <= usize::MAX,
        text::decimal(n) + unit != "0"@,
        size_unit(text::decimal(n) + unit).0 == text::decimal(n),
        size_unit(text::decimal(n) + unit).1 == k,
    ensures
        size_bytes(text::decimal(n) + unit) == Some(n * k),
{
    reveal_strlit("b");
    lemma_number_with_unit(n, "b"@);
}

/// What the last characters of a text say of its ends.
proof fn lemma_ends(d: Seq<char>, t: Seq<char>)
    requires
        t.len() > 0,
    ensures
        text::has_suffix(t, "b"@) <==> t.last() == 'b',
        text::has_suffix(t, "kb"@) <==> t.len() >= 2 && t.last() == 'b' && t[t.len() - 2] == 'k',
        text::has_suffix(t, "mb"@) <==> t.len() >= 2 && t.last() == 'b' && t[t.len() - 2] == 'm',
        text::has_suffix(t, "gb"@) <==> t.len() >= 2 && t.last() == 'b' && t[t.len() - 2] == 'g',
        text::has_suffix(t, "kib"@) <==> t.len() >= 3 && t.last() == 'b' && t[t.len() - 2] == 'i'
            && t[t.len() - 3] == 'k',
        text::has_suffix(t, "mib"@) <==> t.len() >= 3 && t.last() == 'b' && t[t.len() - 2] == 'i'
            && t[t.len() - 3] == 'm',
        text::has_suffix(t, "gib"@) <==> t.len() >= 3 && t.last() == 'b' && t[t.len() - 2] == 'i'
            && t[t.len() - 3] == 'g',
{
    reveal_strlit("b");
    reveal_strlit("kb");
    reveal_strlit("mb");
    reveal_strlit("gb");
    reveal_strlit("kib");
    reveal_strlit("mib");
    reveal_strlit("gib");
    let n = t.len() as int;
    if n >= 1 {
        assert(t.skip(n - 1)[0] == t.last());
        assert(t.last() == 'b' ==> t.skip(n - 1) =~= "b"@);
    }
    if n >= 2 {
        let e = t.skip(n - 2);
        assert(e[0] == t[n - 2] && e[1] == t[n - 1]);
        assert(t[n - 1] == 'b' && t[n - 2] == 'k' ==> e =~= "kb"@);
        assert(t[n - 1] == 'b' && t[n - 2] == 'm' ==> e =~= "mb"@);
        assert(t[n - 1] == 'b' && t[n - 2] == 'g' ==> e =~= "gb"@);
    }
    if n >= 3 {
        let e = t.skip(n - 3);
        assert(e[0] == t[n - 3] && e[1] == t[n - 2] && e[2] == t[n - 1]);
        assert(t[n - 1] == 'b' && t[n - 2] == 'i' && t[n - 3] == 'k' ==> e =~= "kib"@);
        assert(t[n - 1] == 'b' && t[n - 2] == 'i' && t[n - 3] == 'm' ==> e =~= "mib"@);
        assert(t[n - 1] == 'b' && t[n - 2] == 'i' && t[n - 3] == 'g' ==> e =~= "gib"@);
    }
}

/// The line that names the memory is the first that begins with `MemTotal:`.
pub proof fn law_memory_line_is_the_first(lines: Seq<Seq<char>>, k: int)
    requires
        0 <= k <= lines.len(),
        forall|i: int|
            0 <= i < k ==> !((#[trigger] lines[i]).len() >= 9 && lines[i].take(9) == "MemTotal:"@),
    ensures
        k == lines.len() ==> memory_line(lines, 0) is None,
        k < lines.len() && lines[k].len() >= 9 && lines[k].take(9) == "MemTotal:"@ ==> memory_line(
            lines,
            0,
        ) == Some(lines[k]),
{
    reveal_strlit("MemTotal:");
    lemma_memory_line(lines, 0, k);
}

proof fn lemma_memory_line(lines: Seq<Seq<char>>, from: int, k: int)
    requires
        0 <= from <= k <= lines.len(),
        forall|i: int|
            from <= i < k ==> !text::has_prefix(#[trigger] lines[i], "MemTotal:"@),
    ensures
        k == lines.len() ==> memory_line(lines, from) is None,
        k < lines.len() && text::has_prefix(lines[k], "MemTotal:"@) ==> memory_line(lines, from)
            == Some(lines[k]),
    decreases k - from,
{
    if from < k {
        lemma_memory_line(lines, from + 1, k);
    }
}

/// A stratum scaled within its caps keeps its scaled workers and memory: both are
/// raised only to the least that is allowed.
pub proof fn law_scaled_strata_within_caps(
    base: Stratum,
    scaled: ScaledStratum,
    cpu_cap: int,
    parallel_cap_mb: int,
    single_cap_mb: int,
)
    requires
        1 <= scaled.workers <= cpu_cap,
        scaled.per_worker_mb >= 1280,
        scaled.workers * scaled.per_worker_mb <= usize::MAX,
        scaled.workers * scaled.per_worker_mb <= (if scaled.workers == 1 {
            single_cap_mb
        } else {
            parallel_cap_mb
        }),
    ensures
        derived_stratum(base, scaled, cpu_cap, parallel_cap_mb, single_cap_mb) == (
            base.max_file_mb,
            scaled.workers as int,
            scaled.per_worker_mb as int,
        ),
{
}
} // verus!
