//! Source files, the parquet files made from them, and which of them a command
//! works on.

use vstd::prelude::*;
use vstd::string::*;
use crate::order::sorted_strings;
use crate::order;
use crate::paths::{
    has_extension, is_absolute, join_path, path_key, strip_base, with_extension, PathKey,
};
use crate::paths;
use crate::plan::FilePair;
use crate::plan;
use crate::layout::source_dir;
use crate::layout;
use crate::text::{chars_eq, replaced, str_eq};
use crate::text;

verus! {

/// The datasets that a command works on: the one that it is given, or for `all`
/// those that have sources, by name, without the list of merged ids.
pub open spec fn is_dataset_choice(
    r: Seq<Seq<char>>,
    dataset_arg: Seq<char>,
    found: Seq<Seq<char>>,
) -> bool {
    if dataset_arg == "all"@ {
        order::ascending(r) && r.to_multiset() == found.filter(
            |n: Seq<char>| n != "merged_ids"@,
        ).to_multiset()
    } else {
        r == seq![dataset_arg]
    }
}

/// The datasets that a command works on; `found` are the names of the
/// directories with sources.
pub fn resolve_datasets(dataset_arg: &str, found: &Vec<String>) -> (r: Vec<String>)
    ensures
        is_dataset_choice(text::texts(r@), dataset_arg@, text::texts(found@)),
{
    broadcast use text::lemma_texts_push;

    if !str_eq(dataset_arg, "all") {
        let mut one: Vec<String> = Vec::new();
        one.push(dataset_arg.to_owned());
        assert(text::texts(one@) =~= seq![dataset_arg@]);
        return one;
    }
    let ghost keep = |n: Seq<char>| n != "merged_ids"@;
    let ghost all = text::texts(found@);
    let mut out: Vec<String> = Vec::new();
    let mut i: usize = 0;
    proof {
        reveal(Seq::filter);
        assert(text::texts(out@) =~= all.take(0).filter(keep));
    }
    while i < found.len()
        invariant
            i <= found@.len(),
            all == text::texts(found@),
            keep == (|n: Seq<char>| n != "merged_ids"@),
            text::texts(out@) == all.take(i as int).filter(keep),
        decreases found@.len() - i,
    {
        broadcast use text::lemma_texts_push;

        proof {
            reveal(Seq::filter);
            assert(all.take(i + 1).drop_last() =~= all.take(i as int));
        }
        if !str_eq(found[i].as_str(), "merged_ids") {
            out.push(found[i].clone());
        }
        i += 1;
    }
    assert(all.take(i as int) =~= all);
    sorted_strings(&out)
}

/// The order of paths, component by component.
pub open spec fn by_path() -> spec_fn(Seq<char>, Seq<char>) -> bool {
    |a: Seq<char>, b: Seq<char>| paths::path_lt(a, b)
}

/// The order of pairs by the path of the source below its dataset.
pub open spec fn by_rel() -> spec_fn(plan::PairView, plan::PairView) -> bool {
    |a: plan::PairView, b: plan::PairView| paths::path_lt(a.rel, b.rel)
}

/// The order of paths is one.
pub proof fn lemma_path_orders()
    ensures
        order::is_order(by_path()),
        order::is_order(by_rel()),
{
    assert forall|a: Seq<char>, b: Seq<char>| #[trigger] by_path()(a, b) implies !by_path()(b, a) by {
        paths::lemma_list_lt_asymmetric(paths::sort_texts(a), paths::sort_texts(b));
    }
    assert forall|a: Seq<char>, b: Seq<char>, c: Seq<char>|
        !#[trigger] by_path()(a, b) && !#[trigger] by_path()(b, c) implies !by_path()(a, c) by {
        paths::lemma_list_not_lt_transitive(
            paths::sort_texts(a),
            paths::sort_texts(b),
            paths::sort_texts(c),
        );
    }
    assert forall|a: plan::PairView, b: plan::PairView| #[trigger] by_rel()(a, b) implies !by_rel()(
        b,
        a,
    ) by {
        assert(by_path()(a.rel, b.rel));
    }
    assert forall|a: plan::PairView, b: plan::PairView, c: plan::PairView|
        !#[trigger] by_rel()(a, b) && !#[trigger] by_rel()(b, c) implies !by_rel()(a, c) by {
        assert(!by_path()(a.rel, b.rel) && !by_path()(b.rel, c.rel));
    }
}

/// The paths in order.
pub fn sorted_paths(v: &Vec<String>) -> (r: Vec<String>)
    ensures
        text::texts(r@) == order::sorted_by(text::texts(v@), by_path()),
{
    let mut out: Vec<String> = Vec::new();
    let mut keys: Vec<PathKey> = Vec::new();
    let ghost all = text::texts(v@);
    let mut i: usize = 0;
    assert(text::texts(out@) =~= order::sorted_by(all.take(0), by_path()));
    while i < v.len()
        invariant
            i <= v@.len(),
            all == text::texts(v@),
            text::texts(out@) == order::sorted_by(all.take(i as int), by_path()),
            keys@.len() == out@.len(),
            forall|k: int| 0 <= k < keys@.len() ==> (#[trigger] keys@[k])@ == paths::sort_texts(
                out@[k]@,
            ),
        decreases v@.len() - i,
    {
        let key = path_key(v[i].as_str());
        let mut j: usize = out.len();
        let ghost x = v@[i as int]@;
        while j > 0 && key.comes_before(&keys[j - 1])
            invariant
                j <= out@.len(),
                keys@.len() == out@.len(),
                key@ == paths::sort_texts(x),
                forall|k: int| 0 <= k < keys@.len() ==> (#[trigger] keys@[k])@ == paths::sort_texts(
                    out@[k]@,
                ),
                forall|k: int|
                    j <= k < out@.len() ==> by_path()(x, #[trigger] text::texts(out@)[k]),
            decreases j,
        {
            j -= 1;
        }
        proof {
            if j > 0 {
                assert(keys@[j - 1]@ == paths::sort_texts(out@[j - 1]@));
                assert(text::texts(out@)[j - 1] == out@[j - 1]@);
            }
            order::lemma_insert_by(text::texts(out@), x, by_path(), j as int);
            assert(all.take(i + 1).drop_last() =~= all.take(i as int));
        }
        let ghost before = out@;
        out.insert(j, v[i].clone());
        keys.insert(j, key);
        assert(text::texts(out@) =~= text::texts(before).insert(j as int, x));
        i += 1;
    }
    assert(all.take(i as int) =~= all);
    out
}

/// Whether one of the paths stands at the same place as `p` in their order.
pub open spec fn has_equal(s: Seq<Seq<char>>, p: Seq<char>) -> bool {
    exists|i: int| 0 <= i < s.len() && paths::sort_texts(#[trigger] s[i]) == paths::sort_texts(p)
}

/// The paths in order, each once.
pub open spec fn path_set(s: Seq<Seq<char>>) -> Seq<Seq<char>>
    decreases s.len(),
{
    if s.len() == 0 {
        s
    } else {
        let rest = path_set(s.drop_last());
        if has_equal(rest, s.last()) {
            rest
        } else {
            order::insert_by(rest, s.last(), by_path())
        }
    }
}

/// The paths in order, each once.
pub fn distinct_paths(v: &Vec<String>) -> (r: Vec<String>)
    ensures
        text::texts(r@) == path_set(text::texts(v@)),
{
    let mut out: Vec<String> = Vec::new();
    let mut keys: Vec<PathKey> = Vec::new();
    let ghost all = text::texts(v@);
    let mut i: usize = 0;
    assert(text::texts(out@) =~= path_set(all.take(0)));
    while i < v.len()
        invariant
            i <= v@.len(),
            all == text::texts(v@),
            text::texts(out@) == path_set(all.take(i as int)),
            keys@.len() == out@.len(),
            forall|k: int| 0 <= k < keys@.len() ==> (#[trigger] keys@[k])@ == paths::sort_texts(
                out@[k]@,
            ),
        decreases v@.len() - i,
    {
        let key = path_key(v[i].as_str());
        let ghost x = v@[i as int]@;
        let ghost before = text::texts(out@);
        assert(all.take(i + 1).drop_last() =~= all.take(i as int));
        let mut again = false;
        let mut m: usize = 0;
        while m < keys.len() && !again
            invariant
                m <= keys@.len() == out@.len(),
                before == text::texts(out@),
                key@ == paths::sort_texts(x),
                forall|k: int| 0 <= k < keys@.len() ==> (#[trigger] keys@[k])@ == paths::sort_texts(
                    out@[k]@,
                ),
                again ==> has_equal(before, x),
                !again ==> forall|k: int|
                    0 <= k < m ==> paths::sort_texts(#[trigger] before[k]) != paths::sort_texts(x),
            decreases keys@.len() - m,
        {
            assert(keys@[m as int]@ == paths::sort_texts(before[m as int]));
            if same_key(&keys[m], &key) {
                again = true;
            }
            m += 1;
        }
        if !again {
            let mut j: usize = out.len();
            while j > 0 && key.comes_before(&keys[j - 1])
                invariant
                    j <= out@.len(),
                    keys@.len() == out@.len(),
                    key@ == paths::sort_texts(x),
                    forall|k: int| 0 <= k < keys@.len() ==> (#[trigger] keys@[k])@
                        == paths::sort_texts(out@[k]@),
                    forall|k: int|
                        j <= k < out@.len() ==> by_path()(x, #[trigger] text::texts(out@)[k]),
                decreases j,
            {
                j -= 1;
            }
            proof {
                if j > 0 {
                    assert(keys@[j - 1]@ == paths::sort_texts(out@[j - 1]@));
                    assert(text::texts(out@)[j - 1] == out@[j - 1]@);
                }
                order::lemma_insert_by(text::texts(out@), x, by_path(), j as int);
            }
            out.insert(j, v[i].clone());
            keys.insert(j, key);
            assert(text::texts(out@) =~= before.insert(j as int, x));
        }
        i += 1;
    }
    assert(all.take(i as int) =~= all);
    out
}

/// Whether two paths have the same components.
pub fn same_key(a: &PathKey, b: &PathKey) -> (r: bool)
    ensures
        r == (a@ == b@),
{
    if a.parts.len() != b.parts.len() {
        assert(a@.len() != b@.len());
        return false;
    }
    let mut i: usize = 0;
    while i < a.parts.len()
        invariant
            i <= a.parts@.len() == b.parts@.len(),
            forall|k: int| 0 <= k < i ==> #[trigger] a.parts@[k]@ == b.parts@[k]@,
        decreases a.parts@.len() - i,
    {
        if !chars_eq(&a.parts[i], &b.parts[i]) {
            assert(a@[i as int] != b@[i as int]);
            return false;
        }
        i += 1;
    }
    assert(a@ =~= b@);
    true
}

fn sorted_pairs(v: &Vec<FilePair>) -> (r: Vec<FilePair>)
    ensures
        plan::pair_views(r@) == order::sorted_by(plan::pair_views(v@), by_rel()),
{
    let mut out: Vec<FilePair> = Vec::new();
    let mut keys: Vec<PathKey> = Vec::new();
    let ghost all = plan::pair_views(v@);
    let mut i: usize = 0;
    assert(plan::pair_views(out@) =~= order::sorted_by(all.take(0), by_rel()));
    while i < v.len()
        invariant
            i <= v@.len(),
            all == plan::pair_views(v@),
            plan::pair_views(out@) == order::sorted_by(all.take(i as int), by_rel()),
            keys@.len() == out@.len(),
            forall|k: int| 0 <= k < keys@.len() ==> (#[trigger] keys@[k])@ == paths::sort_texts(
                out@[k].rel@,
            ),
        decreases v@.len() - i,
    {
        let key = path_key(v[i].rel.as_str());
        let mut j: usize = out.len();
        let ghost x = v@[i as int]@;
        while j > 0 && key.comes_before(&keys[j - 1])
            invariant
                j <= out@.len(),
                keys@.len() == out@.len(),
                key@ == paths::sort_texts(x.rel),
                forall|k: int| 0 <= k < keys@.len() ==> (#[trigger] keys@[k])@ == paths::sort_texts(
                    out@[k].rel@,
                ),
                forall|k: int|
                    j <= k < out@.len() ==> by_rel()(x, #[trigger] plan::pair_views(out@)[k]),
            decreases j,
        {
            j -= 1;
        }
        proof {
            if j > 0 {
                assert(keys@[j - 1]@ == paths::sort_texts(out@[j - 1].rel@));
                assert(plan::pair_views(out@)[j - 1] == out@[j - 1]@);
            }
            order::lemma_insert_by(plan::pair_views(out@), x, by_rel(), j as int);
            assert(all.take(i + 1).drop_last() =~= all.take(i as int));
        }
        let ghost before = out@;
        out.insert(j, v[i].clone());
        keys.insert(j, key);
        assert(plan::pair_views(out@) =~= plan::pair_views(before).insert(j as int, x));
        i += 1;
    }
    assert(all.take(i as int) =~= all);
    out
}

/// Whether a file is a compressed source.
pub open spec fn is_gz(p: Seq<char>) -> bool {
    paths::extension_of(p) == Some("gz"@)
}

/// A file that was found, with its size.
#[derive(Debug)]
pub struct FoundFile {
    pub path: String,
    pub size: u64,
}

/// What a `FoundFile` says.
pub open spec fn found_views(v: Seq<FoundFile>) -> Seq<(Seq<char>, u64)> {
    Seq::new(v.len(), |i: int| (v[i].path@, v[i].size))
}

/// The pair of a source file: its parquet file stands at the same place below
/// the parquet directory of the dataset.
pub open spec fn pair_of(
    snapshot_dir: Seq<char>,
    parquet_dir: Seq<char>,
    dataset: Seq<char>,
    f: (Seq<char>, u64),
) -> plan::PairView {
    let rel = paths::relative_to(f.0, layout::source_dir_of(snapshot_dir, dataset)).unwrap_or(
        Seq::empty(),
    );
    plan::PairView {
        input_gz: f.0,
        output_parquet: paths::join_of(
            paths::join_of(parquet_dir, dataset),
            paths::with_extension_of(rel, "parquet"@),
        ),
        rel,
        gz_size_bytes: f.1,
    }
}

/// The pairs of those of the files that are sources.
pub open spec fn pairs_of(
    snapshot_dir: Seq<char>,
    parquet_dir: Seq<char>,
    dataset: Seq<char>,
    found: Seq<(Seq<char>, u64)>,
) -> Seq<plan::PairView>
    decreases found.len(),
{
    if found.len() == 0 {
        Seq::empty()
    } else {
        let rest = pairs_of(snapshot_dir, parquet_dir, dataset, found.drop_last());
        if is_gz(found.last().0) {
            rest.push(pair_of(snapshot_dir, parquet_dir, dataset, found.last()))
        } else {
            rest
        }
    }
}

/// Whether some source was found outside the directory of its dataset.
pub open spec fn has_stray(
    snapshot_dir: Seq<char>,
    dataset: Seq<char>,
    found: Seq<(Seq<char>, u64)>,
) -> bool {
    exists|i: int|
        0 <= i < found.len() && is_gz((#[trigger] found[i]).0) && paths::relative_to(
            found[i].0,
            layout::source_dir_of(snapshot_dir, dataset),
        ) is None
}

/// The sources of a dataset with their parquet files, in the order of their
/// paths; `found` are the files below the directory of the dataset.
pub fn enumerate_pairs(
    snapshot_dir: &str,
    parquet_dir: &str,
    dataset: &str,
    found: &Vec<FoundFile>,
) -> (r: Result<Vec<FilePair>, String>)
    ensures
        match r {
            Ok(v) => !has_stray(snapshot_dir@, dataset@, found_views(found@)) && plan::pair_views(v@)
                == order::sorted_by(
                pairs_of(snapshot_dir@, parquet_dir@, dataset@, found_views(found@)),
                by_rel(),
            ),
            Err(e) => has_stray(snapshot_dir@, dataset@, found_views(found@)) && e@
                == "prefix not found"@,
        },
{
    let base = source_dir(snapshot_dir, dataset);
    let out_root = join_path(parquet_dir, dataset);
    let ghost all = found_views(found@);
    let mut pairs: Vec<FilePair> = Vec::new();
    let mut i: usize = 0;
    assert(plan::pair_views(pairs@) =~= pairs_of(snapshot_dir@, parquet_dir@, dataset@, all.take(0)));
    while i < found.len()
        invariant
            i <= found@.len(),
            all == found_views(found@),
            base@ == layout::source_dir_of(snapshot_dir@, dataset@),
            out_root@ == paths::join_of(parquet_dir@, dataset@),
            plan::pair_views(pairs@) == pairs_of(
                snapshot_dir@,
                parquet_dir@,
                dataset@,
                all.take(i as int),
            ),
            forall|k: int|
                0 <= k < i && is_gz((#[trigger] all[k]).0) ==> paths::relative_to(all[k].0, base@)
                    is Some,
        decreases found@.len() - i,
    {
        broadcast use plan::lemma_pair_views_push;

        assert(all.take(i + 1).drop_last() =~= all.take(i as int));
        assert(all[i as int] == (found@[i as int].path@, found@[i as int].size));
        if has_extension(found[i].path.as_str(), "gz") {
            match strip_base(found[i].path.as_str(), base.as_str()) {
                None => {
                    return Err("prefix not found".to_owned());
                },
                Some(rel) => {
                    let out_rel = with_extension(rel.as_str(), "parquet");
                    let output_parquet = join_path(out_root.as_str(), out_rel.as_str());
                    let pair = FilePair {
                        input_gz: found[i].path.clone(),
                        output_parquet,
                        rel,
                        gz_size_bytes: found[i].size,
                    };
                    assert(pair@ =~= pair_of(snapshot_dir@, parquet_dir@, dataset@, all[i as int]));
                    pairs.push(pair);
                },
            }
        }
        i += 1;
    }
    assert(all.take(i as int) =~= all);
    Ok(sorted_pairs(&pairs))
}

/// Every source of a dataset is paired exactly once, and the pairs stand in the
/// order of their paths.
pub proof fn law_every_source_is_paired(
    snapshot_dir: Seq<char>,
    parquet_dir: Seq<char>,
    dataset: Seq<char>,
    found: Seq<(Seq<char>, u64)>,
)
    ensures
        ({
            let pairs = pairs_of(snapshot_dir, parquet_dir, dataset, found);
            let sorted = order::sorted_by(pairs, by_rel());
            &&& sorted.to_multiset() == pairs.to_multiset()
            &&& order::in_order_by(sorted, by_rel())
            &&& pairs.len() == found.filter(|f: (Seq<char>, u64)| is_gz(f.0)).len()
        }),
    decreases found.len(),
{
    lemma_path_orders();
    order::law_sorted_by(pairs_of(snapshot_dir, parquet_dir, dataset, found), by_rel());
    reveal(Seq::filter);
    if found.len() > 0 {
        law_every_source_is_paired(snapshot_dir, parquet_dir, dataset, found.drop_last());
    }
}

/// A path with `/` for every `\`.
pub open spec fn slashed(p: Seq<char>) -> Seq<char> {
    text::replace_char(p, '\\', "/"@)
}

/// Whether `input`, as it was asked for, means the source `p`. An absolute path
/// means the file itself; any other means a place below the dataset.
pub open spec fn asks_for(
    input: Seq<char>,
    p: plan::PairView,
    snapshot_dir: Seq<char>,
    dataset: Seq<char>,
) -> bool {
    if paths::is_rooted(input) {
        ||| slashed(input) == slashed(p.input_gz)
        ||| paths::relative_to(input, layout::source_dir_of(snapshot_dir, dataset)) matches Some(rel)
            && slashed(rel) == slashed(p.rel)
    } else {
        slashed(input) == slashed(p.rel)
    }
}

pub open spec fn is_asked_for(
    inputs: Seq<Seq<char>>,
    p: plan::PairView,
    snapshot_dir: Seq<char>,
    dataset: Seq<char>,
) -> bool {
    exists|i: int|
        0 <= i < inputs.len() && #[trigger] asks_for(inputs[i], p, snapshot_dir, dataset)
}

fn input_means(input: &str, p: &FilePair, snapshot_dir: &str, dataset: &str) -> (r: bool)
    ensures
        r == asks_for(input@, p@, snapshot_dir@, dataset@),
{
    let want = replaced(input, '\\', "/");
    if is_absolute(input) {
        let abs = replaced(p.input_gz.as_str(), '\\', "/");
        if str_eq(want.as_str(), abs.as_str()) {
            return true;
        }
        let base = source_dir(snapshot_dir, dataset);
        match strip_base(input, base.as_str()) {
            Some(rel) => {
                let have = replaced(p.rel.as_str(), '\\', "/");
                let want_rel = replaced(rel.as_str(), '\\', "/");
                str_eq(want_rel.as_str(), have.as_str())
            },
            None => false,
        }
    } else {
        let have = replaced(p.rel.as_str(), '\\', "/");
        str_eq(want.as_str(), have.as_str())
    }
}

/// Those of the pairs that were asked for.
pub fn filter_pairs_by_input_files(
    pairs: &Vec<FilePair>,
    inputs: &Vec<String>,
    snapshot_dir: &str,
    dataset: &str,
) -> (r: Vec<FilePair>)
    ensures
        r@ == pairs@.filter(
            |p: FilePair| is_asked_for(text::texts(inputs@), p@, snapshot_dir@, dataset@),
        ),
{
    let ghost want = |p: FilePair|
        is_asked_for(text::texts(inputs@), p@, snapshot_dir@, dataset@);
    let mut out: Vec<FilePair> = Vec::new();
    let mut i: usize = 0;
    proof {
        reveal(Seq::filter);
        assert(out@ =~= pairs@.take(0).filter(want));
    }
    while i < pairs.len()
        invariant
            i <= pairs@.len(),
            want == (|p: FilePair|
                is_asked_for(text::texts(inputs@), p@, snapshot_dir@, dataset@)),
            out@ == pairs@.take(i as int).filter(want),
        decreases pairs@.len() - i,
    {
        proof {
            reveal(Seq::filter);
            assert(pairs@.take(i + 1).drop_last() =~= pairs@.take(i as int));
        }
        let mut found = false;
        let mut k: usize = 0;
        while k < inputs.len() && !found
            invariant
                k <= inputs@.len(),
                i < pairs@.len(),
                found ==> is_asked_for(
                    text::texts(inputs@),
                    pairs@[i as int]@,
                    snapshot_dir@,
                    dataset@,
                ),
                !found ==> forall|m: int|
                    0 <= m < k ==> !#[trigger] asks_for(
                        text::texts(inputs@)[m],
                        pairs@[i as int]@,
                        snapshot_dir@,
                        dataset@,
                    ),
            decreases inputs@.len() - k,
        {
            assert(text::texts(inputs@)[k as int] == inputs@[k as int]@);
            if input_means(inputs[k].as_str(), &pairs[i], snapshot_dir, dataset) {
                found = true;
            }
            k += 1;
        }
        assert(found == want(pairs@[i as int]));
        if found {
            out.push(pairs[i].clone());
        }
        i += 1;
    }
    assert(pairs@.take(i as int) =~= pairs@);
    out
}

/// The files with one extension, in the order of their paths.
pub open spec fn with_ending(found: Seq<Seq<char>>, ext: Seq<char>) -> Seq<Seq<char>> {
    order::sorted_by(
        found.filter(|p: Seq<char>| paths::extension_of(p) == Some(ext)),
        by_path(),
    )
}

/// The files with one extension, in the order of their paths.
pub fn list_with_extension(found: &Vec<String>, ext: &str) -> (r: Vec<String>)
    ensures
        text::texts(r@) == with_ending(text::texts(found@), ext@),
{
    let ghost keep = |p: Seq<char>| paths::extension_of(p) == Some(ext@);
    let ghost all = text::texts(found@);
    let mut out: Vec<String> = Vec::new();
    let mut i: usize = 0;
    proof {
        reveal(Seq::filter);
        assert(text::texts(out@) =~= all.take(0).filter(keep));
    }
    while i < found.len()
        invariant
            i <= found@.len(),
            all == text::texts(found@),
            keep == (|p: Seq<char>| paths::extension_of(p) == Some(ext@)),
            text::texts(out@) == all.take(i as int).filter(keep),
        decreases found@.len() - i,
    {
        broadcast use text::lemma_texts_push;

        proof {
            reveal(Seq::filter);
            assert(all.take(i + 1).drop_last() =~= all.take(i as int));
        }
        if has_extension(found[i].as_str(), ext) {
            out.push(found[i].clone());
        }
        i += 1;
    }
    assert(all.take(i as int) =~= all);
    sorted_paths(&out)
}

/// The parquet files among the files found below a directory.
pub fn list_parquet_files(found: &Vec<String>) -> (r: Vec<String>)
    ensures
        text::texts(r@) == with_ending(text::texts(found@), "parquet"@),
{
    list_with_extension(found, "parquet")
}

/// The compressed sources among the files found below a directory.
pub fn list_scoped_gz_files(found: &Vec<String>) -> (r: Vec<String>)
    ensures
        text::texts(r@) == with_ending(text::texts(found@), "gz"@),
{
    list_with_extension(found, "gz")
}

/// Where the sources in scope stand: those of one dataset, or of all.
pub open spec fn scope_root_of(snapshot_dir: Seq<char>, dataset: Seq<char>) -> Seq<char> {
    if dataset == "all"@ {
        paths::join_of(snapshot_dir, "data"@)
    } else {
        layout::source_dir_of(snapshot_dir, dataset)
    }
}

/// Where the sources in scope stand: those of one dataset, or of all.
pub fn scope_root(snapshot_dir: &str, dataset: &str) -> (r: String)
    ensures
        r@ == scope_root_of(snapshot_dir@, dataset@),
{
    if str_eq(dataset, "all") {
        join_path(snapshot_dir, "data")
    } else {
        source_dir(snapshot_dir, dataset)
    }
}

/// The size of the compressed sources together.
pub open spec fn source_bytes(found: Seq<(Seq<char>, u64)>) -> int
    decreases found.len(),
{
    if found.len() == 0 {
        0
    } else if is_gz(found.last().0) {
        source_bytes(found.drop_last()) + found.last().1
    } else {
        source_bytes(found.drop_last())
    }
}

/// The size of the compressed sources together, or the largest number where it
/// cannot be held.
pub fn estimate_convert_input_bytes_precise(found: &Vec<FoundFile>) -> (r: u64)
    ensures
        r == plan::min_int(source_bytes(found_views(found@)), u64::MAX as int),
{
    let ghost all = found_views(found@);
    let mut total: u64 = 0;
    let mut i: usize = 0;
    while i < found.len()
        invariant
            i <= found@.len(),
            all == found_views(found@),
            total == plan::min_int(source_bytes(all.take(i as int)), u64::MAX as int),
        decreases found@.len() - i,
    {
        assert(all.take(i + 1).drop_last() =~= all.take(i as int));
        if has_extension(found[i].path.as_str(), "gz") {
            total = if total <= u64::MAX - found[i].size {
                total + found[i].size
            } else {
                u64::MAX
            };
        }
        i += 1;
    }
    assert(all.take(i as int) =~= all);
    total
}

/// A source that stands at `rel` below its dataset is paired with the parquet file at
/// the same place below the dataset's parquet files, under the ending of those.
pub proof fn law_source_and_parquet_stand_alike(
    snapshot_dir: Seq<char>,
    parquet_dir: Seq<char>,
    dataset: Seq<char>,
    dir: Seq<char>,
    stem: Seq<char>,
    size: u64,
)
    requires
        paths::is_tidy(dir),
        !paths::is_rooted(dir),
        paths::is_component(stem),
        paths::body_start(paths::join_of(dir, stem + ".gz"@)) == 0,
    ensures
        ({
            let rel = paths::join_of(dir, stem + ".gz"@);
            let source = paths::join_of(
                paths::join_of(paths::join_of(snapshot_dir, "data"@), dataset),
                rel,
            );
            let p = pair_of(snapshot_dir, parquet_dir, dataset, (source, size));
            &&& p.input_gz == source
            &&& p.rel == rel
            &&& p.gz_size_bytes == size
            &&& p.output_parquet == paths::join_of(
                paths::join_of(parquet_dir, dataset),
                paths::join_of(dir, stem + ".parquet"@),
            )
        }),
{
    reveal_strlit("gz");
    reveal_strlit(".gz");
    reveal_strlit("parquet");
    reveal_strlit(".parquet");
    let rel = paths::join_of(dir, stem + ".gz"@);
    let base = layout::source_dir_of(snapshot_dir, dataset);
    assert(stem + seq!['.'] + "gz"@ =~= stem + ".gz"@);
    assert(stem + seq!['.'] + "parquet"@ =~= stem + ".parquet"@);
    paths::law_stem_and_extension(dir, stem, "gz"@, "parquet"@);
    assert((stem + ".gz"@).len() > 0);
    assert(rel.last() == 'z');
    assert(!paths::is_rooted(stem + ".gz"@)) by {
        if (stem + ".gz"@)[0] == '/' {
            assert(stem[0] == '/');
            assert(stem.contains(stem[0]));
        }
    }
    paths::law_joined_path_goes_through_both(dir, stem + ".gz"@);
    paths::law_joined_path_is_below_its_base(base, rel);
}

/// A file is a source exactly where its name ends in `.gz`: one with another ending is
/// not paired and adds nothing to the size of the sources.
pub proof fn law_only_compressed_files_are_sources(
    snapshot_dir: Seq<char>,
    parquet_dir: Seq<char>,
    dataset: Seq<char>,
    found: Seq<(Seq<char>, u64)>,
    f: (Seq<char>, u64),
)
    ensures
        paths::extension_of(f.0) == Some("gz"@) ==> {
            &&& pairs_of(snapshot_dir, parquet_dir, dataset, found.push(f)) == pairs_of(
                snapshot_dir,
                parquet_dir,
                dataset,
                found,
            ).push(pair_of(snapshot_dir, parquet_dir, dataset, f))
            &&& source_bytes(found.push(f)) == source_bytes(found) + f.1
        },
        paths::extension_of(f.0) != Some("gz"@) ==> {
            &&& pairs_of(snapshot_dir, parquet_dir, dataset, found.push(f)) == pairs_of(
                snapshot_dir,
                parquet_dir,
                dataset,
                found,
            )
            &&& source_bytes(found.push(f)) == source_bytes(found)
        },
        pairs_of(snapshot_dir, parquet_dir, dataset, Seq::empty()).len() == 0,
        source_bytes(Seq::empty()) == 0,
{
    assert(found.push(f).drop_last() =~= found);
}

/// A source is asked for by its place below the dataset, by its own path, and by its
/// place below the dataset's directory; a place seen from the dataset asks for no other
/// source, however its parts are divided.
pub proof fn law_sources_are_asked_for(
    input: Seq<char>,
    p: plan::PairView,
    snapshot_dir: Seq<char>,
    dataset: Seq<char>,
)
    ensures
        !paths::is_rooted(p.rel) ==> asks_for(p.rel, p, snapshot_dir, dataset),
        paths::is_rooted(p.input_gz) ==> asks_for(p.input_gz, p, snapshot_dir, dataset),
        !paths::is_rooted(input) && !input.contains('\\') && !p.rel.contains('\\') && asks_for(
            input,
            p,
            snapshot_dir,
            dataset,
        ) ==> input == p.rel,
        paths::is_rooted(input) && !input.contains('\\') && !p.input_gz.contains('\\')
            && !p.rel.contains('\\') && asks_for(input, p, snapshot_dir, dataset) ==> input
            == p.input_gz || (paths::relative_to(input, layout::source_dir_of(snapshot_dir, dataset)) matches Some(
            rel,
        ) && slashed(rel) == p.rel),
        slashed(seq!['\\']) == seq!['/'],
{
    reveal_strlit("/");
    if !input.contains('\\') {
        text::law_replacing_what_is_not_there(input, '\\', "/"@);
    }
    if !p.rel.contains('\\') {
        text::law_replacing_what_is_not_there(p.rel, '\\', "/"@);
    }
    if !p.input_gz.contains('\\') {
        text::law_replacing_what_is_not_there(p.input_gz, '\\', "/"@);
    }
    let none = Seq::<char>::empty();
    text::law_replacing(none, '\\', none, "/"@);
    text::law_replacing_what_is_not_there(none, '\\', "/"@);
    assert(none + seq!['\\'] + none =~= seq!['\\']);
    assert(none + "/"@ + none =~= seq!['/']);
}

/// The sources of all datasets stand in one directory, and those of each dataset in the
/// one of its name below it.
pub proof fn law_scope_of_all_datasets(snapshot_dir: Seq<char>, dataset: Seq<char>)
    ensures
        scope_root_of(snapshot_dir, "all"@) == paths::join_of(snapshot_dir, "data"@),
        dataset != "all"@ ==> scope_root_of(snapshot_dir, dataset) == paths::join_of(
            scope_root_of(snapshot_dir, "all"@),
            dataset,
        ),
{
}

/// The datasets that are worked on are, for `all`, those that were found, but for the
/// merged ids, and otherwise the one that was named.
pub proof fn law_chosen_datasets(
    r: Seq<Seq<char>>,
    dataset: Seq<char>,
    found: Seq<Seq<char>>,
    name: Seq<char>,
)
    requires
        is_dataset_choice(r, dataset, found),
    ensures
        dataset == "all"@ ==> (r.contains(name) <==> found.contains(name) && name
            != "merged_ids"@),
        dataset != "all"@ ==> (r.contains(name) <==> name == dataset) && r.len() == 1,
{
    if dataset == "all"@ {
        broadcast use vstd::seq_lib::group_to_multiset_ensures;

        let keep = |n: Seq<char>| n != "merged_ids"@;
        let kept = found.filter(keep);
        assert(r.contains(name) <==> kept.contains(name)) by {
            assert(r.to_multiset().count(name) == kept.to_multiset().count(name));
        }
        if kept.contains(name) {
            let i = choose|i: int| 0 <= i < kept.len() && kept[i] == name;
            found.lemma_filter_pred(keep, i);
            lemma_kept_is_found(found, keep, name);
        }
        if found.contains(name) && name != "merged_ids"@ {
            found.lemma_filter_contains_rev(keep, name);
        }
    } else {
        assert(r[0] == dataset);
    }
}

proof fn lemma_kept_is_found(
    found: Seq<Seq<char>>,
    keep: spec_fn(Seq<char>) -> bool,
    name: Seq<char>,
)
    requires
        found.filter(keep).contains(name),
    ensures
        found.contains(name),
    decreases found.len(),
{
    reveal(Seq::filter);
    if found.len() > 0 {
        let init = found.drop_last();
        let kept = init.filter(keep);
        if name == found.last() {
            assert(found[found.len() - 1] == name);
        } else {
            let all = found.filter(keep);
            let i = choose|i: int| 0 <= i < all.len() && all[i] == name;
            if keep(found.last()) {
                assert(all == kept.push(found.last()));
                assert(kept[i] == name);
            }
            assert(kept.contains(name));
            lemma_kept_is_found(init, keep, name);
            let k = choose|k: int| 0 <= k < init.len() && init[k] == name;
            assert(found[k] == name);
        }
    }
}

/// A set of paths holds every path that was given, and no two that go through the same
/// components.
pub proof fn law_path_set(s: Seq<Seq<char>>, p: Seq<char>)
    ensures
        path_set(Seq::empty()).len() == 0,
        has_equal(path_set(s), p) ==> path_set(s.push(p)) == path_set(s),
        !has_equal(path_set(s), p) ==> path_set(s.push(p)).to_multiset() == path_set(
            s,
        ).to_multiset().insert(p),
        has_equal(path_set(s.push(p)), p),
{
    broadcast use vstd::seq_lib::group_to_multiset_ensures;

    assert(s.push(p).drop_last() =~= s);
    if !has_equal(path_set(s), p) {
        order::lemma_insert_by_multiset(path_set(s), p, by_path());
        let r = path_set(s.push(p));
        assert(r.to_multiset().count(p) > 0);
        assert(r.contains(p));
        let i = choose|i: int| 0 <= i < r.len() && r[i] == p;
        assert(paths::sort_texts(r[i]) == paths::sort_texts(p));
    }
}
/// The files of one ending are those found with it, in the order of paths.
pub proof fn law_files_of_an_ending(found: Seq<Seq<char>>, ext: Seq<char>, p: Seq<char>)
    ensures
        with_ending(found, ext).contains(p) <==> found.contains(p) && paths::extension_of(p)
            == Some(ext),
        order::in_order_by(with_ending(found, ext), by_path()),
        forall|a: Seq<char>, b: Seq<char>|
            #[trigger] by_path()(a, b) <==> paths::path_lt(a, b),
{
    broadcast use vstd::seq_lib::group_to_multiset_ensures;

    let keep = |p: Seq<char>| paths::extension_of(p) == Some(ext);
    let kept = found.filter(keep);
    assert forall|a: Seq<char>, b: Seq<char>| #[trigger] by_path()(a, b) implies !by_path()(b, a) by {
        paths::lemma_list_lt_asymmetric(paths::sort_texts(a), paths::sort_texts(b));
    }
    assert forall|a: Seq<char>, b: Seq<char>, c: Seq<char>|
        !#[trigger] by_path()(a, b) && !#[trigger] by_path()(b, c) implies !by_path()(a, c) by {
        paths::lemma_list_not_lt_transitive(
            paths::sort_texts(a),
            paths::sort_texts(b),
            paths::sort_texts(c),
        );
    }
    order::law_sorted_by(kept, by_path());
    let r = with_ending(found, ext);
    assert(r.to_multiset().count(p) == kept.to_multiset().count(p));
    assert(r.contains(p) <==> kept.contains(p));
    if kept.contains(p) {
        let i = choose|i: int| 0 <= i < kept.len() && kept[i] == p;
        found.lemma_filter_pred(keep, i);
        lemma_kept_is_found(found, keep, p);
    }
    if found.contains(p) && keep(p) {
        found.lemma_filter_contains_rev(keep, p);
    }
}

/// A source that does not stand below its dataset is a stray one.
pub proof fn law_strays(
    snapshot_dir: Seq<char>,
    dataset: Seq<char>,
    found: Seq<(Seq<char>, u64)>,
    f: (Seq<char>, u64),
)
    ensures
        has_stray(snapshot_dir, dataset, found.push(f)) <==> has_stray(snapshot_dir, dataset, found)
            || (paths::extension_of(f.0) == Some("gz"@) && paths::relative_to(
            f.0,
            layout::source_dir_of(snapshot_dir, dataset),
        ) is None),
        !has_stray(snapshot_dir, dataset, Seq::empty()),
{
    let dir = layout::source_dir_of(snapshot_dir, dataset);
    let all = found.push(f);
    assert(all[found.len() as int] == f);
    if has_stray(snapshot_dir, dataset, found) {
        let i = choose|i: int|
            0 <= i < found.len() && is_gz((#[trigger] found[i]).0) && paths::relative_to(
                found[i].0,
                dir,
            ) is None;
        assert(all[i] == found[i]);
    }
    if has_stray(snapshot_dir, dataset, all) {
        let i = choose|i: int|
            0 <= i < all.len() && is_gz((#[trigger] all[i]).0) && paths::relative_to(
                all[i].0,
                dir,
            ) is None;
        if i < found.len() {
            assert(found[i] == all[i]);
        }
    }
}
} // verus!
