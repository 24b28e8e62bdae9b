//! Extracting rows by their ids: which dataset an id belongs to, what was found of
//! what was asked for, and how it is accounted for.

use vstd::prelude::*;
use vstd::string::*;
use crate::convert::show_option;
use crate::convert;
use crate::csvfile::{read_table, write_one, write_pair, write_three, CsvTable};
use crate::csvfile;
use crate::files::distinct_paths;
use crate::files;
use crate::order::sorted_set;
use crate::order;
use crate::paths::{file_stem, join_path, parent};
use crate::paths;
use crate::plan::Tuning;
use crate::plan;
use crate::report::{failure, report_arg, DatasetReportSummary, ReportArg, RunReport};
use crate::report;
use crate::sql;
use crate::text::{
    ascii_lower_text, chars_of, decimal_string, find_char, member, push_signed, starts_with,
    str_eq, string_of, strip_prefix, trimmed, trimmed_of,
};
use crate::text;
use crate::textmap::TextMap;

verus! {

/// An id without white space and quotes around it.
pub open spec fn bare_id(id: Seq<char>) -> Seq<char> {
    text::trim_char(text::trim_char(text::trim(id), '"'), '\'')
}

fn make_bare(id: &str) -> (r: String)
    ensures
        r@ == bare_id(id@),
{
    let a = trimmed(id);
    let b = trimmed_of(a.as_str(), '"');
    trimmed_of(b.as_str(), '\'')
}

/// An id in its short form, without the address in front of it.
pub open spec fn normalized_id(id: Seq<char>) -> Seq<char> {
    let t = bare_id(id);
    let rest = match text::without_prefix(t, "https://openalex.org/"@) {
        Some(r) => r,
        None => match text::without_prefix(t, "http://openalex.org/"@) {
            Some(r) => r,
            None => t,
        },
    };
    text::trim_char(rest, '/')
}

/// An id in its short form, without the address in front of it.
pub fn normalize_openalex_id(id: &str) -> (r: String)
    ensures
        r@ == normalized_id(id@),
{
    let t = make_bare(id);
    let rest = match strip_prefix(t.as_str(), "https://openalex.org/") {
        Some(r) => r,
        None => match strip_prefix(t.as_str(), "http://openalex.org/") {
            Some(r) => r,
            None => t,
        },
    };
    trimmed_of(rest.as_str(), '/')
}

/// An id in its long form, as the index has it.
pub open spec fn canonical_id(raw: Seq<char>) -> Seq<char> {
    let t = bare_id(raw);
    if text::has_prefix(t, "https://openalex.org/"@) || text::has_prefix(t, "http://openalex.org/"@) {
        t
    } else {
        "https://openalex.org/"@ + text::trim_char(t, '/')
    }
}

/// An id in its long form, as the index has it.
pub fn canonical_openalex_id(raw: &str) -> (r: String)
    ensures
        r@ == canonical_id(raw@),
{
    let t = make_bare(raw);
    if starts_with(t.as_str(), "https://openalex.org/") || starts_with(
        t.as_str(),
        "http://openalex.org/",
    ) {
        t
    } else {
        let short = trimmed_of(t.as_str(), '/');
        let mut s = "https://openalex.org/".to_owned();
        s.append(short.as_str());
        s
    }
}

/// The dataset of the ids that begin with a letter.
pub open spec fn dataset_of_letter(c: char) -> Option<Seq<char>> {
    if c == 'W' {
        Some("works"@)
    } else if c == 'A' {
        Some("authors"@)
    } else if c == 'S' {
        Some("sources"@)
    } else if c == 'I' {
        Some("institutions"@)
    } else if c == 'T' {
        Some("topics"@)
    } else if c == 'K' {
        Some("keywords"@)
    } else if c == 'P' {
        Some("publishers"@)
    } else if c == 'F' {
        Some("funders"@)
    } else if c == 'G' {
        Some("awards"@)
    } else if c == 'C' {
        Some("concepts"@)
    } else {
        None
    }
}

/// Whether a name stands in front of the ids of a taxonomy; the dataset has the
/// same name.
pub open spec fn is_namespace(n: Seq<char>) -> bool {
    n == "institution-types"@ || n == "work-types"@ || n == "source-types"@ || n == "licenses"@ || n
        == "countries"@ || n == "continents"@ || n == "languages"@ || n == "domains"@ || n
        == "fields"@ || n == "subfields"@ || n == "sdgs"@
}

/// The dataset that an id in its short form belongs to.
pub open spec fn dataset_of_id(id: Seq<char>) -> Option<Seq<char>> {
    let t = text::trim(id);
    if t.len() == 0 {
        None
    } else if t.contains('/') {
        let ns = text::ascii_lowered(text::before_char(t, '/'));
        if is_namespace(ns) {
            Some(ns)
        } else {
            None
        }
    } else {
        dataset_of_letter(text::ascii_upper(t[0]))
    }
}

fn letter_dataset(c: char) -> (r: Option<String>)
    ensures
        report::opt(r) == dataset_of_letter(text::ascii_upper(c)),
{
    let name = match c {
        'W' | 'w' => "works",
        'A' | 'a' => "authors",
        'S' | 's' => "sources",
        'I' | 'i' => "institutions",
        'T' | 't' => "topics",
        'K' | 'k' => "keywords",
        'P' | 'p' => "publishers",
        'F' | 'f' => "funders",
        'G' | 'g' => "awards",
        'C' | 'c' => "concepts",
        _ => {
            return None;
        },
    };
    Some(name.to_owned())
}

fn namespace(n: &str) -> (r: bool)
    ensures
        r == is_namespace(n@),
{
    str_eq(n, "institution-types") || str_eq(n, "work-types") || str_eq(n, "source-types") || str_eq(
        n,
        "licenses",
    ) || str_eq(n, "countries") || str_eq(n, "continents") || str_eq(n, "languages") || str_eq(
        n,
        "domains",
    ) || str_eq(n, "fields") || str_eq(n, "subfields") || str_eq(n, "sdgs")
}

/// The dataset that an id in its short form belongs to.
pub fn extract_dataset_from_id(id: &str) -> (r: Option<String>)
    ensures
        report::opt(r) == dataset_of_id(id@),
{
    let t = trimmed(id);
    let v = chars_of(t.as_str());
    if v.len() == 0 {
        return None;
    }
    match find_char(&v, '/') {
        Some(i) => {
            let head = string_of(&v, 0, i);
            let ns = ascii_lower_text(head.as_str());
            proof {
                assert(t@[i as int] == '/');
                text::lemma_before_char(t@, '/', i as int);
                assert(head@ =~= t@.take(i as int));
            }
            if namespace(ns.as_str()) {
                Some(ns)
            } else {
                None
            }
        },
        None => letter_dataset(v[0]),
    }
}

/// One id that was asked for.
#[derive(Debug)]
pub struct ExtractInput {
    pub raw: String,
    pub normalized: String,
    pub canonical: String,
    pub dataset: Option<String>,
}

/// What an `ExtractInput` says.
#[verifier::ext_equal]
pub struct InputView {
    pub raw: Seq<char>,
    pub normalized: Seq<char>,
    pub canonical: Seq<char>,
    pub dataset: Option<Seq<char>>,
}

impl View for ExtractInput {
    type V = InputView;

    open spec fn view(&self) -> InputView {
        InputView {
            raw: self.raw@,
            normalized: self.normalized@,
            canonical: self.canonical@,
            dataset: report::opt(self.dataset),
        }
    }
}

pub open spec fn input_views(v: Seq<ExtractInput>) -> Seq<InputView> {
    Seq::new(v.len(), |i: int| v[i]@)
}

/// An id as it was asked for, with what follows from it.
pub open spec fn input_of(raw: Seq<char>) -> InputView {
    InputView {
        raw,
        normalized: normalized_id(raw),
        canonical: canonical_id(raw),
        dataset: dataset_of_id(normalized_id(raw)),
    }
}

fn make_input(raw: String) -> (r: ExtractInput)
    ensures
        r@ == input_of(raw@),
{
    let normalized = normalize_openalex_id(raw.as_str());
    let canonical = canonical_openalex_id(raw.as_str());
    let dataset = extract_dataset_from_id(normalized.as_str());
    ExtractInput { raw, normalized, canonical, dataset }
}

/// Whether a column holds ids.
pub open spec fn is_id_column(h: Seq<char>) -> bool {
    h == "id"@ || h == "openalex_id"@ || h == "work_id"@
}

/// The first column from `i` on that holds ids; the first of all where there is
/// none.
pub open spec fn id_column(headers: Seq<Seq<char>>, i: int) -> int
    decreases headers.len() - i,
{
    if i >= headers.len() {
        0
    } else if is_id_column(headers[i]) {
        i
    } else {
        id_column(headers, i + 1)
    }
}

fn find_id_column(headers: &Vec<String>) -> (r: usize)
    ensures
        r == id_column(text::texts(headers@), 0),
{
    let ghost h = text::texts(headers@);
    let mut i: usize = 0;
    while i < headers.len()
        invariant
            i <= headers@.len(),
            h == text::texts(headers@),
            id_column(h, 0) == id_column(h, i as int),
        decreases headers@.len() - i,
    {
        let name = headers[i].as_str();
        assert(h[i as int] == name@);
        if str_eq(name, "id") || str_eq(name, "openalex_id") || str_eq(name, "work_id") {
            return i;
        }
        i += 1;
    }
    0
}

/// The id in a record, without white space around it.
pub open spec fn id_in(record: Seq<Seq<char>>, column: int) -> Seq<char> {
    if 0 <= column < record.len() {
        text::trim(record[column])
    } else {
        Seq::empty()
    }
}

/// The ids in the records, or the first error among them. A record without an id
/// is passed over.
pub open spec fn ids_in(records: Seq<Result<Seq<Seq<char>>, Seq<char>>>, column: int) -> Result<
    Seq<InputView>,
    Seq<char>,
>
    decreases records.len(),
{
    if records.len() == 0 {
        Ok(Seq::empty())
    } else {
        match ids_in(records.drop_last(), column) {
            Err(e) => Err(e),
            Ok(v) => match records.last() {
                Err(e) => Err(e),
                Ok(r) => if id_in(r, column).len() == 0 {
                    Ok(v)
                } else {
                    Ok(v.push(input_of(id_in(r, column))))
                },
            },
        }
    }
}

/// The ids in a table, or the first error in it.
pub open spec fn table_ids(t: csvfile::TableView) -> Result<Seq<InputView>, Seq<char>> {
    match t.headers {
        Err(e) => Err(e),
        Ok(h) => ids_in(t.records, id_column(h, 0)),
    }
}

pub open spec fn inputs_view(r: Result<Vec<ExtractInput>, String>) -> Result<
    Seq<InputView>,
    Seq<char>,
> {
    match r {
        Ok(v) => Ok(input_views(v@)),
        Err(e) => Err(e@),
    }
}

proof fn lemma_ids_error(records: Seq<Result<Seq<Seq<char>>, Seq<char>>>, column: int, i: int)
    requires
        0 <= i <= records.len(),
        ids_in(records.take(i), column) is Err,
    ensures
        ids_in(records, column) == ids_in(records.take(i), column),
    decreases records.len(),
{
    if i == records.len() {
        assert(records.take(i) =~= records);
    } else {
        assert(records.drop_last().take(i) =~= records.take(i));
        lemma_ids_error(records.drop_last(), column, i);
    }
}

/// The ids in a table.
pub fn extract_inputs(table: &CsvTable) -> (r: Result<Vec<ExtractInput>, String>)
    ensures
        inputs_view(r) == table_ids(table@),
{
    let column: usize = match &table.headers {
        Ok(h) => find_id_column(h),
        Err(e) => {
            return Err(e.clone());
        },
    };
    let ghost all = table@.records;
    let mut out: Vec<ExtractInput> = Vec::new();
    let mut i: usize = 0;
    assert(input_views(out@) =~= Seq::<InputView>::empty());
    while i < table.records.len()
        invariant
            i <= table.records@.len(),
            all == table@.records,
            table_ids(table@) == ids_in(all, column as int),
            ids_in(all.take(i as int), column as int) == Ok::<Seq<InputView>, Seq<char>>(
                input_views(out@),
            ),
        decreases table.records@.len() - i,
    {
        proof {
            assert(all.take(i + 1).drop_last() =~= all.take(i as int));
            assert(all.take(i + 1).last() == csvfile::line_view(table.records@[i as int]));
        }
        match &table.records[i] {
            Err(e) => {
                proof {
                    lemma_ids_error(all, column as int, i + 1);
                }
                return Err(e.clone());
            },
            Ok(record) => {
                let raw = if column < record.len() {
                    assert(text::texts(record@)[column as int] == record@[column as int]@);
                    trimmed(record[column].as_str())
                } else {
                    String::new()
                };
                assert(raw@ =~= id_in(text::texts(record@), column as int));
                if !raw.as_str().is_empty() {
                    let ghost before = out@;
                    let input = make_input(raw);
                    let ghost iv = input@;
                    out.push(input);
                    assert(input_views(out@) =~= input_views(before).push(iv));
                }
            },
        }
        i += 1;
    }
    assert(all.take(i as int) =~= all);
    Ok(out)
}

/// Reads the ids that are asked for out of a CSV file.
pub fn read_extract_ids(data: &[u8]) -> (r: Result<Vec<ExtractInput>, String>)
    ensures
        inputs_view(r) == table_ids(csvfile::table_of(data@)),
{
    let table = read_table(data);
    extract_inputs(&table)
}

/// An id that is not looked for, and why.
#[derive(Debug)]
pub struct UnknownId {
    pub raw: String,
    pub normalized: String,
    pub reason: String,
}

pub open spec fn unknown_views(v: Seq<UnknownId>) -> Seq<(Seq<char>, Seq<char>, Seq<char>)> {
    Seq::new(v.len(), |i: int| (v[i].raw@, v[i].normalized@, v[i].reason@))
}

/// Why an id is not looked for, where it is not; `only` is the dataset that is
/// asked for, where it is one.
pub open spec fn unknown_reason(x: InputView, only: Option<Seq<char>>) -> Option<Seq<char>> {
    match (x.dataset, only) {
        (None, _) => Some("unmapped id format/prefix"@),
        (Some(d), Some(o)) if d != o => Some("filtered by --dataset="@ + o),
        _ => None,
    }
}

/// The ids that are not looked for.
pub open spec fn unknown_ids(v: Seq<InputView>, only: Option<Seq<char>>) -> Seq<
    (Seq<char>, Seq<char>, Seq<char>),
>
    decreases v.len(),
{
    if v.len() == 0 {
        Seq::empty()
    } else {
        match unknown_reason(v.last(), only) {
            Some(why) => unknown_ids(v.drop_last(), only).push(
                (v.last().raw, v.last().normalized, why),
            ),
            None => unknown_ids(v.drop_last(), only),
        }
    }
}

/// The ids that are looked for, with their datasets.
pub open spec fn routed_ids(v: Seq<InputView>, only: Option<Seq<char>>) -> Seq<(Seq<char>, Seq<char>)>
    decreases v.len(),
{
    if v.len() == 0 {
        Seq::empty()
    } else if unknown_reason(v.last(), only) is None {
        routed_ids(v.drop_last(), only).push((v.last().dataset->Some_0, v.last().canonical))
    } else {
        routed_ids(v.drop_last(), only)
    }
}

/// The ids of one dataset that are looked for.
#[derive(Debug)]
pub struct IdGroup {
    pub dataset: String,
    /// In order, each once.
    pub ids: Vec<String>,
}

pub open spec fn group_datasets(g: Seq<IdGroup>) -> Seq<Seq<char>> {
    Seq::new(g.len(), |i: int| g[i].dataset@)
}

pub open spec fn firsts(r: Seq<(Seq<char>, Seq<char>)>) -> Seq<Seq<char>> {
    Seq::new(r.len(), |i: int| r[i].0)
}

/// The second parts of the pairs that begin with `name`.
pub open spec fn seconds_of(r: Seq<(Seq<char>, Seq<char>)>, name: Seq<char>) -> Seq<Seq<char>>
    decreases r.len(),
{
    if r.len() == 0 {
        Seq::empty()
    } else if r.last().0 == name {
        seconds_of(r.drop_last(), name).push(r.last().1)
    } else {
        seconds_of(r.drop_last(), name)
    }
}

/// Whether the groups hold the routed ids: each dataset once and in order, each
/// with its ids in order and each id once.
pub open spec fn are_groups_of(g: Seq<IdGroup>, routed: Seq<(Seq<char>, Seq<char>)>) -> bool {
    &&& order::is_set_of(group_datasets(g), firsts(routed))
    &&& forall|i: int|
        0 <= i < g.len() ==> order::is_set_of(
            text::texts((#[trigger] g[i]).ids@),
            seconds_of(routed, g[i].dataset@),
        )
}

/// The ids that were asked for: those that are looked for, by dataset, and the
/// others.
pub struct Routed {
    pub unknown: Vec<UnknownId>,
    pub groups: Vec<IdGroup>,
}

pub open spec fn zipped(a: Seq<String>, b: Seq<String>) -> Seq<(Seq<char>, Seq<char>)> {
    Seq::new(a.len(), |i: int| (a[i]@, b[i]@))
}

fn pick_seconds(a: &Vec<String>, b: &Vec<String>, name: &str) -> (r: Vec<String>)
    requires
        a@.len() == b@.len(),
    ensures
        text::texts(r@) == seconds_of(zipped(a@, b@), name@),
{
    let ghost z = zipped(a@, b@);
    let mut out: Vec<String> = Vec::new();
    let mut i: usize = 0;
    assert(text::texts(out@) =~= seconds_of(z.take(0), name@));
    while i < a.len()
        invariant
            i <= a@.len() == b@.len(),
            z == zipped(a@, b@),
            text::texts(out@) == seconds_of(z.take(i as int), name@),
        decreases a@.len() - i,
    {
        broadcast use text::lemma_texts_push;

        assert(z.take(i + 1).drop_last() =~= z.take(i as int));
        if str_eq(a[i].as_str(), name) {
            out.push(b[i].clone());
        }
        i += 1;
    }
    assert(z.take(i as int) =~= z);
    out
}

fn why_unknown(x: &ExtractInput, only: Option<&str>) -> (r: Option<String>)
    ensures
        report::opt(r) == unknown_reason(x@, report::opt_text(only)),
{
    match (&x.dataset, only) {
        (None, _) => Some("unmapped id format/prefix".to_owned()),
        (Some(d), Some(o)) => {
            if str_eq(d.as_str(), o) {
                None
            } else {
                let mut m = "filtered by --dataset=".to_owned();
                m.append(o);
                Some(m)
            }
        },
        (Some(_), None) => None,
    }
}

/// Sorts out the ids that were asked for; `only` is the dataset that is asked for,
/// where it is one.
pub fn route_ids(inputs: &Vec<ExtractInput>, only: Option<&str>) -> (r: Routed)
    ensures
        unknown_views(r.unknown@) == unknown_ids(input_views(inputs@), report::opt_text(only)),
        are_groups_of(r.groups@, routed_ids(input_views(inputs@), report::opt_text(only))),
{
    let ghost all = input_views(inputs@);
    let ghost o = report::opt_text(only);
    let mut unknown: Vec<UnknownId> = Vec::new();
    let mut names: Vec<String> = Vec::new();
    let mut ids: Vec<String> = Vec::new();
    let mut i: usize = 0;
    assert(unknown_views(unknown@) =~= unknown_ids(all.take(0), o));
    assert(zipped(names@, ids@) =~= routed_ids(all.take(0), o));
    while i < inputs.len()
        invariant
            i <= inputs@.len(),
            all == input_views(inputs@),
            o == report::opt_text(only),
            names@.len() == ids@.len(),
            unknown_views(unknown@) == unknown_ids(all.take(i as int), o),
            zipped(names@, ids@) == routed_ids(all.take(i as int), o),
        decreases inputs@.len() - i,
    {
        let x = &inputs[i];
        proof {
            assert(all.take(i + 1).drop_last() =~= all.take(i as int));
            assert(all.take(i + 1).last() == x@);
        }
        let ghost u0 = unknown@;
        let ghost n0 = names@;
        let ghost i0 = ids@;
        match why_unknown(x, only) {
            Some(reason) => {
                let ghost rv = reason@;
                unknown.push(
                    UnknownId { raw: x.raw.clone(), normalized: x.normalized.clone(), reason },
                );
                assert(unknown_views(unknown@) =~= unknown_views(u0).push(
                    (x.raw@, x.normalized@, rv),
                ));
            },
            None => {
                if let Some(d) = &x.dataset {
                    names.push(d.clone());
                    ids.push(x.canonical.clone());
                    assert(zipped(names@, ids@) =~= zipped(n0, i0).push((d@, x.canonical@)));
                }
            },
        }
        i += 1;
    }
    assert(all.take(i as int) =~= all);
    let ghost routed = routed_ids(all, o);
    let set = sorted_set(&names);
    assert(text::texts(names@) =~= firsts(routed));
    let mut groups: Vec<IdGroup> = Vec::new();
    let mut k: usize = 0;
    while k < set.len()
        invariant
            k <= set@.len(),
            names@.len() == ids@.len(),
            zipped(names@, ids@) == routed,
            groups@.len() == k,
            forall|m: int| 0 <= m < k ==> (#[trigger] groups@[m]).dataset@ == set@[m]@,
            forall|m: int|
                0 <= m < k ==> order::is_set_of(
                    text::texts((#[trigger] groups@[m]).ids@),
                    seconds_of(routed, groups@[m].dataset@),
                ),
        decreases set@.len() - k,
    {
        let here = pick_seconds(&names, &ids, set[k].as_str());
        let sorted = sorted_set(&here);
        groups.push(IdGroup { dataset: set[k].clone(), ids: sorted });
        k += 1;
    }
    assert(group_datasets(groups@) =~= text::texts(set@));
    Routed { unknown, groups }
}

/// No id is lost: each is looked for or reported as unknown, and none is both.
pub proof fn law_every_id_is_routed_once(v: Seq<InputView>, only: Option<Seq<char>>)
    ensures
        unknown_ids(v, only).len() + routed_ids(v, only).len() == v.len(),
    decreases v.len(),
{
    if v.len() > 0 {
        law_every_id_is_routed_once(v.drop_last(), only);
    }
}

/// Only ids of the dataset that is asked for are looked for.
pub proof fn law_only_the_asked_dataset(v: Seq<InputView>, only: Seq<char>, i: int)
    requires
        0 <= i < routed_ids(v, Some(only)).len(),
    ensures
        routed_ids(v, Some(only))[i].0 == only,
    decreases v.len(),
{
    if v.len() > 0 && i < routed_ids(v.drop_last(), Some(only)).len() {
        law_only_the_asked_dataset(v.drop_last(), only, i);
    }
}

/// What a filter keeps and what it drops are all there is.
proof fn lemma_filter_splits(s: Seq<Seq<char>>, keep: spec_fn(Seq<char>) -> bool)
    requires
        order::strictly_ascending(s),
    ensures
        s.filter(keep).len() + s.filter(|x: Seq<char>| !keep(x)).len() == s.len(),
        s.filter(keep).no_duplicates(),
        forall|x: Seq<char>| #[trigger] s.filter(keep).contains(x) <==> s.contains(x) && keep(x),
    decreases s.len(),
{
    reveal(Seq::filter);
    let drop = |x: Seq<char>| !keep(x);
    if s.len() > 0 {
        let init = s.drop_last();
        let a = s.last();
        assert(order::strictly_ascending(init));
        lemma_filter_splits(init, keep);
        assert(!init.contains(a)) by {
            if init.contains(a) {
                let i = choose|i: int| 0 <= i < init.len() && init[i] == a;
                assert(text::text_lt(s[i], s[s.len() - 1]));
                text::lemma_text_lt_irreflexive(a);
            }
        }
        let kept = init.filter(keep);
        assert(s.filter(keep) == if keep(a) {
            kept.push(a)
        } else {
            kept
        });
        assert(s.filter(drop) == if drop(a) {
            init.filter(drop).push(a)
        } else {
            init.filter(drop)
        });
        assert(!kept.contains(a));
        assert forall|i: int, j: int|
            0 <= i < s.filter(keep).len() && 0 <= j < s.filter(keep).len() && i
                != j implies s.filter(keep)[i] != s.filter(keep)[j] by {
            assert(i < kept.len() ==> kept.contains(kept[i]));
            assert(j < kept.len() ==> kept.contains(kept[j]));
        }
        assert forall|x: Seq<char>| #[trigger] s.filter(keep).contains(x) <==> s.contains(x) && keep(
            x,
        ) by {
            if s.filter(keep).contains(x) {
                let i = choose|i: int| 0 <= i < s.filter(keep).len() && s.filter(keep)[i] == x;
                if i < kept.len() {
                    assert(kept[i] == x);
                    assert(kept.contains(x));
                    let j = choose|j: int| 0 <= j < init.len() && init[j] == x;
                    assert(s[j] == x);
                } else {
                    assert(s[s.len() - 1] == x);
                }
            }
            if s.contains(x) && keep(x) {
                let j = choose|j: int| 0 <= j < s.len() && s[j] == x;
                if j < init.len() {
                    assert(init[j] == x);
                    assert(kept.contains(x));
                    let i = choose|i: int| 0 <= i < kept.len() && kept[i] == x;
                    assert(s.filter(keep)[i] == x);
                } else {
                    assert(s.filter(keep)[kept.len() as int] == x);
                }
            }
        }
    }
}

/// Every id that was looked for in a dataset is counted once, as found or as missing,
/// as long as the index tells of no id that was not looked for: `asked` are the ids of a
/// group, `found` what the index tells of, and `matched` the ids that are extracted.
pub proof fn law_asked_ids_add_up(
    asked: Seq<Seq<char>>,
    found: Seq<Seq<char>>,
    matched: Seq<Seq<char>>,
)
    requires
        order::strictly_ascending(asked),
        order::is_set_of(matched, found),
        forall|x: Seq<char>| #[trigger] found.contains(x) ==> asked.contains(x),
    ensures
        matched.len() + asked.filter(|x: Seq<char>| !found.contains(x)).len() == asked.len(),
{
    let keep = |x: Seq<char>| found.contains(x);
    lemma_filter_splits(asked, keep);
    let hit = asked.filter(keep);
    assert(matched.no_duplicates()) by {
        assert forall|i: int, j: int|
            0 <= i < matched.len() && 0 <= j < matched.len() && i != j implies matched[i]
            != matched[j] by {
            text::lemma_text_lt_irreflexive(matched[i]);
            if i < j {
                assert(text::text_lt(matched[i], matched[j]));
            } else {
                assert(text::text_lt(matched[j], matched[i]));
            }
        }
    }
    assert(hit.to_set() =~= matched.to_set()) by {
        assert forall|x: Seq<char>| hit.to_set().contains(x) <==> matched.to_set().contains(x) by {
            assert(hit.contains(x) <==> asked.contains(x) && keep(x));
            assert(matched.contains(x) <==> found.contains(x));
        }
    }
    hit.unique_seq_to_set();
    matched.unique_seq_to_set();
    assert(asked.filter(|x: Seq<char>| !found.contains(x)) == asked.filter(
        |x: Seq<char>| !keep(x),
    )) by {
        let f = |x: Seq<char>| !found.contains(x);
        let g = |x: Seq<char>| !keep(x);
        assert(f =~= g);
    }
}

/// The dataset that is asked for, where it is one.
pub fn only_dataset(dataset: &str) -> (r: Option<String>)
    ensures
        report::opt(r) == (if dataset@ == "all"@ {
            None
        } else {
            Some(dataset@)
        }),
{
    if str_eq(dataset, "all") {
        None
    } else {
        Some(dataset.to_owned())
    }
}

/// What the index knows of the ids that were looked for.
pub struct Matched {
    /// The ids that it knows, in order.
    pub ids: Vec<String>,
    /// The files that their rows stand in, in order.
    pub files: Vec<String>,
    /// The ids that it does not know, in order.
    pub missing: Vec<String>,
}

/// What the rows say under a name, where they say anything.
pub open spec fn column_of(rows: Seq<Map<Seq<char>, Seq<char>>>, name: Seq<char>) -> Seq<Seq<char>>
    decreases rows.len(),
{
    if rows.len() == 0 {
        Seq::empty()
    } else if rows.last().dom().contains(name) {
        column_of(rows.drop_last(), name).push(rows.last()[name])
    } else {
        column_of(rows.drop_last(), name)
    }
}

/// What the rows say under a name, where they say anything.
pub fn column_texts(rows: &Vec<TextMap>, name: &str) -> (r: Vec<String>)
    requires
        forall|i: int| 0 <= i < rows@.len() ==> (#[trigger] rows@[i]).wf(),
    ensures
        text::texts(r@) == column_of(sql::row_views(rows@), name@),
{
    let ghost all = sql::row_views(rows@);
    let mut out: Vec<String> = Vec::new();
    let mut i: usize = 0;
    assert(text::texts(out@) =~= column_of(all.take(0), name@));
    while i < rows.len()
        invariant
            i <= rows@.len(),
            all == sql::row_views(rows@),
            forall|i: int| 0 <= i < rows@.len() ==> (#[trigger] rows@[i]).wf(),
            text::texts(out@) == column_of(all.take(i as int), name@),
        decreases rows@.len() - i,
    {
        broadcast use text::lemma_texts_push;

        proof {
            assert(all.take(i + 1).drop_last() =~= all.take(i as int));
            assert(all.take(i + 1).last() == rows@[i as int]@);
        }
        if let Some(s) = rows[i].get(name) {
            out.push(s);
        }
        i += 1;
    }
    assert(all.take(i as int) =~= all);
    out
}

/// Files below a directory.
pub open spec fn below(dir: Seq<char>, rels: Seq<Seq<char>>) -> Seq<Seq<char>> {
    Seq::new(rels.len(), |i: int| paths::join_of(dir, rels[i]))
}

/// What the index knows of the ids that were looked for; `rows` is what the
/// database found.
pub fn match_ids(ids: &Vec<String>, rows: &Vec<TextMap>, parquet_dir: &str) -> (r: Matched)
    requires
        forall|i: int| 0 <= i < rows@.len() ==> (#[trigger] rows@[i]).wf(),
    ensures
        order::is_set_of(text::texts(r.ids@), column_of(sql::row_views(rows@), "id"@)),
        text::texts(r.files@) == files::path_set(
            below(parquet_dir@, column_of(sql::row_views(rows@), "parquet_file"@)),
        ),
        text::texts(r.missing@) == text::texts(ids@).filter(
            |x: Seq<char>| !column_of(sql::row_views(rows@), "id"@).contains(x),
        ),
{
    let found = column_texts(rows, "id");
    let known = sorted_set(&found);
    let rels = column_texts(rows, "parquet_file");
    let mut all_files: Vec<String> = Vec::new();
    let mut i: usize = 0;
    let ghost want = below(parquet_dir@, text::texts(rels@));
    assert(text::texts(all_files@) =~= want.take(0));
    while i < rels.len()
        invariant
            i <= rels@.len(),
            want == below(parquet_dir@, text::texts(rels@)),
            text::texts(all_files@) == want.take(i as int),
        decreases rels@.len() - i,
    {
        broadcast use text::lemma_texts_push;

        all_files.push(join_path(parquet_dir, rels[i].as_str()));
        i += 1;
        assert(want.take(i as int) =~= want.take(i - 1).push(want[i - 1]));
    }
    assert(want.take(i as int) =~= want);
    let distinct = distinct_paths(&all_files);
    let ghost gone = |x: Seq<char>| !column_of(sql::row_views(rows@), "id"@).contains(x);
    let ghost asked = text::texts(ids@);
    let mut missing: Vec<String> = Vec::new();
    let mut k: usize = 0;
    proof {
        reveal(Seq::filter);
        assert(text::texts(missing@) =~= asked.take(0).filter(gone));
    }
    while k < ids.len()
        invariant
            k <= ids@.len(),
            asked == text::texts(ids@),
            gone == (|x: Seq<char>| !column_of(sql::row_views(rows@), "id"@).contains(x)),
            order::is_set_of(text::texts(known@), column_of(sql::row_views(rows@), "id"@)),
            text::texts(missing@) == asked.take(k as int).filter(gone),
        decreases ids@.len() - k,
    {
        broadcast use text::lemma_texts_push;

        proof {
            reveal(Seq::filter);
            assert(asked.take(k + 1).drop_last() =~= asked.take(k as int));
            assert(text::texts(known@).contains(asked[k as int]) <==> column_of(
                sql::row_views(rows@),
                "id"@,
            ).contains(asked[k as int]));
        }
        if !member(&known, ids[k].as_str()) {
            missing.push(ids[k].clone());
        }
        k += 1;
    }
    assert(asked.take(k as int) =~= asked);
    Matched { ids: known, files: distinct, missing }
}

/// Where the rows of a dataset are written.
pub open spec fn output_path_of(base: Seq<char>, dataset: Seq<char>) -> Seq<char> {
    paths::join_of(
        paths::parent_of(base).unwrap_or(Seq::empty()),
        paths::file_stem_of(base).unwrap_or("extract"@) + "_"@ + dataset + ".parquet"@,
    )
}

/// Where the rows of a dataset are written.
pub fn extract_output_path(base: &str, dataset: &str) -> (r: String)
    ensures
        r@ == output_path_of(base@, dataset@),
{
    let dir = match parent(base) {
        Some(d) => d,
        None => String::new(),
    };
    let mut name = match file_stem(base) {
        Some(s) => s,
        None => "extract".to_owned(),
    };
    name.append("_");
    name.append(dataset);
    name.append(".parquet");
    join_path(dir.as_str(), name.as_str())
}

/// The start of the work on the ids of a dataset: all of them are scanned.
pub fn start_extract(dataset: &str, ids: usize) -> (r: DatasetReportSummary)
    ensures
        r.dataset@ == dataset@,
        r.items_scanned == ids,
        r.succeeded == 0,
        r.failed == 0,
        r.skipped == 0,
{
    let mut ds = DatasetReportSummary::new(dataset);
    ds.items_scanned = ids as u64;
    ds
}

/// Why the index of a dataset cannot be read.
pub enum IndexFault {
    Missing,
    Unreadable(String),
}

pub open spec fn index_fault_failure(
    dataset: Seq<char>,
    root_dir: Seq<char>,
    index_file: Seq<char>,
    fault: IndexFault,
) -> report::FailureView {
    report::FailureView {
        dataset,
        phase: "extract_index_read"@,
        rel_path: None,
        source_path: Some(index_file),
        output_path: None,
        error_message: match fault {
            IndexFault::Missing => "index file missing"@,
            IndexFault::Unreadable(e) => e@,
        },
        suggested_recovery: Some(
            match fault {
                IndexFault::Missing => "run openalex-snapshot index --root-dir "@ + root_dir
                    + " --dataset "@ + dataset,
                IndexFault::Unreadable(_) => "rebuild index and retry extract"@,
            },
        ),
    }
}

/// Gives a dataset up whose index cannot be read: all its ids count as failed, and
/// one where there is none.
pub fn give_up_index(
    report: &mut RunReport,
    ds: DatasetReportSummary,
    root_dir: &str,
    index_file: &str,
    fault: IndexFault,
)
    requires
        ds.failed + ds.items_scanned < u64::MAX,
    ensures
        *final(report) == (RunReport {
            failures: final(report).failures,
            datasets: final(report).datasets,
            ..*old(report)
        }),
        report::failure_views(final(report).failures@) == report::failure_views(
            old(report).failures@,
        ).push(index_fault_failure(ds.dataset@, root_dir@, index_file@, fault)),
        final(report).datasets@ == old(report).datasets@.push(
            (DatasetReportSummary {
                failed: (ds.failed + plan::max_int(ds.items_scanned as int, 1)) as u64,
                ..ds
            }),
        ),
{
    broadcast use report::lemma_failure_views_push;

    let (message, recovery) = match fault {
        IndexFault::Missing => {
            let mut m = "run openalex-snapshot index --root-dir ".to_owned();
            m.append(root_dir);
            m.append(" --dataset ");
            m.append(ds.dataset.as_str());
            ("index file missing".to_owned(), m)
        },
        IndexFault::Unreadable(e) => (e, "rebuild index and retry extract".to_owned()),
    };
    let f = failure(
        ds.dataset.as_str(),
        "extract_index_read",
        None,
        Some(index_file),
        None,
        message,
        Some(recovery),
    );
    report.failures.push(f);
    let mut ds = ds;
    let all: u64 = if ds.items_scanned >= 1 {
        ds.items_scanned
    } else {
        1
    };
    ds.failed = ds.failed + all;
    report.datasets.push(ds);
}

pub open spec fn output_failure(
    dataset: Seq<char>,
    index_file: Seq<char>,
    out_path: Seq<char>,
    e: Seq<char>,
) -> report::FailureView {
    report::FailureView {
        dataset,
        phase: "extract_write_output"@,
        rel_path: None,
        source_path: Some(index_file),
        output_path: Some(out_path),
        error_message: e,
        suggested_recovery: Some("verify parquet/index and retry extract"@),
    }
}

/// Ends the work on a dataset. Ids that the index does not know count as skipped;
/// `written` says how writing the rows of the others went, and is missing where
/// there are none.
pub fn end_extract(
    report: &mut RunReport,
    ds: DatasetReportSummary,
    matched: &Matched,
    index_file: &str,
    out_path: &str,
    written: Option<Result<(), String>>,
)
    requires
        written is Some <==> matched.ids@.len() > 0,
        ds.failed + matched.ids@.len() <= u64::MAX,
    ensures
        *final(report) == (RunReport {
            failures: final(report).failures,
            datasets: final(report).datasets,
            ..*old(report)
        }),
        match written {
            Some(Err(e)) => report::failure_views(final(report).failures@) == report::failure_views(
                old(report).failures@,
            ).push(output_failure(ds.dataset@, index_file@, out_path@, e@)),
            _ => final(report).failures@ == old(report).failures@,
        },
        final(report).datasets@ == old(report).datasets@.push(
            match written {
                None => DatasetReportSummary {
                    skipped: matched.missing@.len() as u64,
                    succeeded: 0,
                    ..ds
                },
                Some(Ok(_)) => DatasetReportSummary {
                    skipped: matched.missing@.len() as u64,
                    succeeded: matched.ids@.len() as u64,
                    ..ds
                },
                Some(Err(_)) => DatasetReportSummary {
                    skipped: matched.missing@.len() as u64,
                    failed: (ds.failed + matched.ids@.len()) as u64,
                    ..ds
                },
            },
        ),
{
    broadcast use report::lemma_failure_views_push;

    let mut ds = ds;
    ds.skipped = matched.missing.len() as u64;
    match written {
        None => {
            ds.succeeded = 0;
        },
        Some(Ok(_)) => {
            ds.succeeded = matched.ids.len() as u64;
        },
        Some(Err(e)) => {
            ds.failed = ds.failed + matched.ids.len() as u64;
            let f = failure(
                ds.dataset.as_str(),
                "extract_write_output",
                None,
                Some(index_file),
                Some(out_path),
                e,
                Some("verify parquet/index and retry extract".to_owned()),
            );
            report.failures.push(f);
        },
    }
    report.datasets.push(ds);
}

/// A list of ids as it is handed to the database: a column with its name on top.
pub open spec fn id_lines(ids: Seq<Seq<char>>) -> Seq<char>
    decreases ids.len(),
{
    if ids.len() == 0 {
        csvfile::record_line(seq!["id"@])
    } else {
        id_lines(ids.drop_last()) + csvfile::record_line(seq![ids.last()])
    }
}

/// A list of ids as it is handed to the database.
pub fn id_list_csv(ids: &Vec<String>) -> (r: String)
    ensures
        r@ == id_lines(text::texts(ids@)),
{
    let ghost all = text::texts(ids@);
    let mut out = write_one("id");
    let mut i: usize = 0;
    assert(all.take(0) =~= Seq::<Seq<char>>::empty());
    while i < ids.len()
        invariant
            i <= ids@.len(),
            all == text::texts(ids@),
            out@ == id_lines(all.take(i as int)),
        decreases ids@.len() - i,
    {
        assert(all.take(i + 1).drop_last() =~= all.take(i as int));
        let line = write_one(ids[i].as_str());
        out.append(line.as_str());
        i += 1;
    }
    assert(all.take(i as int) =~= all);
    out
}

/// The table of the ids that were not looked for.
pub open spec fn unknown_lines(v: Seq<(Seq<char>, Seq<char>, Seq<char>)>) -> Seq<char>
    decreases v.len(),
{
    if v.len() == 0 {
        csvfile::record_line(seq!["raw_id"@, "normalized_id"@, "reason"@])
    } else {
        unknown_lines(v.drop_last()) + csvfile::record_line(
            seq![v.last().0, v.last().1, v.last().2],
        )
    }
}

/// The table of the ids that were not looked for.
pub fn unknown_csv(v: &Vec<UnknownId>) -> (r: String)
    ensures
        r@ == unknown_lines(unknown_views(v@)),
{
    let ghost all = unknown_views(v@);
    let mut out = write_three("raw_id", "normalized_id", "reason");
    let mut i: usize = 0;
    assert(all.take(0) =~= Seq::<(Seq<char>, Seq<char>, Seq<char>)>::empty());
    while i < v.len()
        invariant
            i <= v@.len(),
            all == unknown_views(v@),
            out@ == unknown_lines(all.take(i as int)),
        decreases v@.len() - i,
    {
        assert(all.take(i + 1).drop_last() =~= all.take(i as int));
        let line = write_three(v[i].raw.as_str(), v[i].normalized.as_str(), v[i].reason.as_str());
        out.append(line.as_str());
        i += 1;
    }
    assert(all.take(i as int) =~= all);
    out
}

/// An id that the index of its dataset does not know.
#[derive(Debug)]
pub struct MissingId {
    pub dataset: String,
    pub id: String,
}

pub open spec fn missing_views(v: Seq<MissingId>) -> Seq<(Seq<char>, Seq<char>)> {
    Seq::new(v.len(), |i: int| (v[i].dataset@, v[i].id@))
}

/// Adds the ids that the index of a dataset does not know.
pub fn note_missing(out: &mut Vec<MissingId>, dataset: &str, missing: &Vec<String>)
    ensures
        missing_views(final(out)@) == missing_views(old(out)@) + Seq::new(
            missing@.len(),
            |i: int| (dataset@, missing@[i]@),
        ),
{
    let ghost before = missing_views(out@);
    let ghost more = Seq::new(missing@.len(), |i: int| (dataset@, missing@[i]@));
    let mut i: usize = 0;
    assert(missing_views(out@) =~= before + more.take(0));
    while i < missing.len()
        invariant
            i <= missing@.len(),
            more == Seq::new(missing@.len(), |i: int| (dataset@, missing@[i]@)),
            missing_views(out@) == before + more.take(i as int),
        decreases missing@.len() - i,
    {
        let ghost o = out@;
        out.push(MissingId { dataset: dataset.to_owned(), id: missing[i].clone() });
        i += 1;
        assert(missing_views(out@) =~= missing_views(o).push(more[i - 1]));
        assert(before + more.take(i as int) =~= (before + more.take(i - 1)).push(more[i - 1]));
    }
    assert(more.take(i as int) =~= more);
}

/// The table of the ids that the indexes do not know.
pub fn missing_csv(v: &Vec<MissingId>) -> (r: String)
    ensures
        r@ == csvfile::pair_lines(seq![("dataset"@, "id"@)] + missing_views(v@)),
{
    let ghost all = seq![("dataset"@, "id"@)] + missing_views(v@);
    let mut out = write_pair("dataset", "id");
    let mut i: usize = 0;
    proof {
        reveal_with_fuel(csvfile::pair_lines, 2);
        assert(all.take(1).drop_last() =~= Seq::<(Seq<char>, Seq<char>)>::empty());
        assert(out@ =~= csvfile::pair_lines(all.take(1)));
    }
    while i < v.len()
        invariant
            i <= v@.len(),
            all == seq![("dataset"@, "id"@)] + missing_views(v@),
            out@ == csvfile::pair_lines(all.take(i + 1)),
        decreases v@.len() - i,
    {
        assert(all.take(i + 2).drop_last() =~= all.take(i + 1));
        assert(all.take(i + 2).last() == (v@[i as int].dataset@, v@[i as int].id@));
        let line = write_pair(v[i].dataset.as_str(), v[i].id.as_str());
        out.append(line.as_str());
        i += 1;
    }
    assert(all.take(i + 1) =~= all);
    out
}

/// A file of a run, named by its time.
pub open spec fn stamped_name(prefix: Seq<char>, ts: i64) -> Seq<char> {
    prefix + text::signed_decimal(ts as int) + ".csv"@
}

/// A file of a run below the reports, named by its time.
pub fn stamped_file(reports_dir: &str, prefix: &str, ts: i64) -> (r: String)
    ensures
        r@ == paths::join_of(reports_dir@, stamped_name(prefix@, ts)),
{
    let mut name = prefix.to_owned();
    push_signed(&mut name, ts);
    name.append(".csv");
    join_path(reports_dir, name.as_str())
}

/// The settings that the report of an extraction records.
pub fn extract_args(
    root_dir: &str,
    ids: &str,
    output: &str,
    dataset: &str,
    tuning: &Tuning,
    state_flush_every: usize,
) -> (r: Vec<ReportArg>)
    ensures
        convert::arg_views(r@) == seq![
            ("root_dir"@, root_dir@),
            ("ids"@, ids@),
            ("output"@, output@),
            ("dataset"@, dataset@),
            ("workers"@, text::decimal(tuning.workers as nat)),
            ("memory_mb"@, convert::shown_option(tuning.memory_mb)),
            ("state_flush_every"@, text::decimal(state_flush_every as nat)),
        ],
{
    let mut v: Vec<ReportArg> = Vec::new();
    let workers = decimal_string(tuning.workers as u128);
    let memory = show_option(tuning.memory_mb);
    let flush = decimal_string(state_flush_every as u128);
    v.push(report_arg("root_dir", root_dir));
    v.push(report_arg("ids", ids));
    v.push(report_arg("output", output));
    v.push(report_arg("dataset", dataset));
    v.push(report_arg("workers", workers.as_str()));
    v.push(report_arg("memory_mb", memory.as_str()));
    v.push(report_arg("state_flush_every", flush.as_str()));
    v
}

pub open spec fn one_or_none(present: bool, name: Seq<char>, value: Seq<char>) -> Seq<
    (Seq<char>, Seq<char>),
> {
    if present {
        seq![(name, value)]
    } else {
        Seq::empty()
    }
}

/// What the report of an extraction records at its end: where unknown and missing
/// ids are listed, where there are any, and how many there are.
pub fn extract_outcome_args(
    unknown_report: &str,
    unknown: usize,
    missing_report: &str,
    missing: usize,
) -> (r: Vec<ReportArg>)
    ensures
        convert::arg_views(r@) == one_or_none(unknown > 0, "unknown_report"@, unknown_report@)
            + one_or_none(missing > 0, "missing_report"@, missing_report@) + seq![
            ("unknown_ids"@, text::decimal(unknown as nat)),
            ("missing_ids"@, text::decimal(missing as nat)),
        ],
{
    let mut v: Vec<ReportArg> = Vec::new();
    if unknown > 0 {
        v.push(report_arg("unknown_report", unknown_report));
    }
    if missing > 0 {
        v.push(report_arg("missing_report", missing_report));
    }
    let n = decimal_string(unknown as u128);
    let m = decimal_string(missing as u128);
    v.push(report_arg("unknown_ids", n.as_str()));
    v.push(report_arg("missing_ids", m.as_str()));
    v
}

/// Whether nothing has to be taken off an id at this end.
pub open spec fn is_plain_end(c: char) -> bool {
    !text::is_space(c) && c != '"' && c != '\'' && c != '/'
}

/// Nothing is taken twice off the same end.
proof fn lemma_trim_char_stays(s: Seq<char>, c: char)
    ensures
        text::trim_char(text::trim_char(s, c), c) == text::trim_char(s, c),
{
    lemma_trim_start_char(s, c);
    lemma_trim_end_char(text::trim_start_char(s, c), c);
}

proof fn lemma_trim_start_char(s: Seq<char>, c: char)
    ensures
        ({
            let t = text::trim_start_char(s, c);
            t.len() == 0 || t[0] != c
        }),
    decreases s.len(),
{
    if s.len() > 0 && s[0] == c {
        lemma_trim_start_char(s.skip(1), c);
    }
}

proof fn lemma_trim_end_char(s: Seq<char>, c: char)
    ensures
        ({
            let t = text::trim_end_char(s, c);
            &&& t.len() <= s.len()
            &&& t == s.take(t.len() as int)
            &&& t.len() == 0 || t.last() != c
        }),
    decreases s.len(),
{
    if s.len() > 0 && s.last() == c {
        lemma_trim_end_char(s.drop_last(), c);
        let t = text::trim_end_char(s, c);
        assert(s.take(t.len() as int) =~= s.drop_last().take(t.len() as int));
    } else {
        assert(s.take(s.len() as int) =~= s);
    }
}

/// Whether an id in its long form ends in something that belongs to it.
pub open spec fn has_plain_end(id: Seq<char>) -> bool {
    id.len() > 0 && !text::is_space(id.last()) && id.last() != '"' && id.last() != '\''
}

/// The short form of an id is that of its long form, and the long form of the long form is
/// that form itself, unless white space or a quote stands at the end of the long form.
pub proof fn law_forms_of_an_id_agree(raw: Seq<char>)
    requires
        has_plain_end(canonical_id(raw)),
    ensures
        normalized_id(canonical_id(raw)) == normalized_id(raw),
        canonical_id(canonical_id(raw)) == canonical_id(raw),
{
    let t = bare_id(raw);
    let long = canonical_id(raw);
    let https = "https://openalex.org/"@;
    let http = "http://openalex.org/"@;
    reveal_strlit("https://openalex.org/");
    reveal_strlit("http://openalex.org/");
    if !text::has_prefix(t, https) && !text::has_prefix(t, http) {
        let short = text::trim_char(t, '/');
        lemma_trim_char_stays(t, '/');
        assert(long.take(https.len() as int) =~= https);
        assert(long.skip(https.len() as int) =~= short);
    } else if text::has_prefix(t, https) {
        assert(t[0] == t.take(https.len() as int)[0]);
    } else {
        assert(t[0] == t.take(http.len() as int)[0]);
    }
    assert(long[0] == 'h');
    assert(bare_id(long) == long);
}

/// The short form of an id without white space and quotes is that of its long form, and the
/// long form of the long form is that form itself.
pub proof fn law_forms_of_a_plain_id_agree(raw: Seq<char>)
    requires
        forall|i: int|
            0 <= i < raw.len() ==> !text::is_space(#[trigger] raw[i]) && raw[i] != '"' && raw[i]
                != '\'',
    ensures
        normalized_id(canonical_id(raw)) == normalized_id(raw),
        canonical_id(canonical_id(raw)) == canonical_id(raw),
{
    reveal_strlit("https://openalex.org/");
    reveal_strlit("http://openalex.org/");
    assert(bare_id(raw) == raw);
    let long = canonical_id(raw);
    if long == raw {
        assert(has_plain_end(long)) by {
            assert(raw.len() > 0);
        }
    } else {
        let short = text::trim_char(raw, '/');
        lemma_trim_start_keeps(raw, '/');
        lemma_trim_end_char(text::trim_start_char(raw, '/'), '/');
        if short.len() > 0 {
            assert(long.last() == short.last());
            assert(raw.contains(short.last()));
        }
    }
    law_forms_of_an_id_agree(raw);
}

/// What is left is a part of what there was.
proof fn lemma_trim_start_keeps(s: Seq<char>, c: char)
    ensures
        forall|i: int|
            0 <= i < text::trim_start_char(s, c).len() ==> s.contains(
                #[trigger] text::trim_start_char(s, c)[i],
            ),
    decreases s.len(),
{
    if s.len() > 0 && s[0] == c {
        let rest = s.skip(1);
        lemma_trim_start_keeps(rest, c);
        assert forall|i: int| 0 <= i < text::trim_start_char(s, c).len() implies s.contains(
            #[trigger] text::trim_start_char(s, c)[i],
        ) by {
            let x = text::trim_start_char(rest, c)[i];
            let k = choose|k: int| 0 <= k < rest.len() && rest[k] == x;
            assert(s[k + 1] == x);
        }
    }
}

/// An id that is given in its short form has the long form with the address in front
/// of it, and each form has the same short and the same long form.
pub proof fn law_long_form_of_a_short_id(short: Seq<char>)
    requires
        short.len() > 0,
        is_plain_end(short[0]),
        is_plain_end(short.last()),
        !text::has_prefix(short, "http://openalex.org/"@),
        !text::has_prefix(short, "https://openalex.org/"@),
    ensures
        normalized_id(short) == short,
        normalized_id("https://openalex.org/"@ + short) == short,
        canonical_id(short) == "https://openalex.org/"@ + short,
        canonical_id("https://openalex.org/"@ + short) == "https://openalex.org/"@ + short,
{
    let long = "https://openalex.org/"@ + short;
    reveal_strlit("https://openalex.org/");
    assert(long[0] == 'h');
    assert(long.last() == short.last());
    assert(bare_id(short) == short);
    assert(bare_id(long) == long);
    assert(long.take("https://openalex.org/"@.len() as int) =~= "https://openalex.org/"@);
    assert(long.skip("https://openalex.org/"@.len() as int) =~= short);
}

/// An id without a namespace belongs to the dataset of the letter that it begins with, be it
/// small or a capital: W, A, S, I, T, K, P, F, G and C stand for works, authors, sources,
/// institutions, topics, keywords, publishers, funders, awards and concepts. An id that begins
/// otherwise belongs to none.
pub proof fn law_ids_go_by_their_letter(id: Seq<char>)
    requires
        text::trim(id).len() > 0,
        !text::trim(id).contains('/'),
    ensures
        text::trim(id)[0] == 'W' || text::trim(id)[0] == 'w' ==> dataset_of_id(id) == Some(
            "works"@,
        ),
        text::trim(id)[0] == 'A' || text::trim(id)[0] == 'a' ==> dataset_of_id(id) == Some(
            "authors"@,
        ),
        text::trim(id)[0] == 'S' || text::trim(id)[0] == 's' ==> dataset_of_id(id) == Some(
            "sources"@,
        ),
        text::trim(id)[0] == 'I' || text::trim(id)[0] == 'i' ==> dataset_of_id(id) == Some(
            "institutions"@,
        ),
        text::trim(id)[0] == 'T' || text::trim(id)[0] == 't' ==> dataset_of_id(id) == Some(
            "topics"@,
        ),
        text::trim(id)[0] == 'K' || text::trim(id)[0] == 'k' ==> dataset_of_id(id) == Some(
            "keywords"@,
        ),
        text::trim(id)[0] == 'P' || text::trim(id)[0] == 'p' ==> dataset_of_id(id) == Some(
            "publishers"@,
        ),
        text::trim(id)[0] == 'F' || text::trim(id)[0] == 'f' ==> dataset_of_id(id) == Some(
            "funders"@,
        ),
        text::trim(id)[0] == 'G' || text::trim(id)[0] == 'g' ==> dataset_of_id(id) == Some(
            "awards"@,
        ),
        text::trim(id)[0] == 'C' || text::trim(id)[0] == 'c' ==> dataset_of_id(id) == Some(
            "concepts"@,
        ),
        !("WASITKPFGCwasitkpfgc"@.contains(text::trim(id)[0])) ==> dataset_of_id(id) is None,
{
    let c = text::trim(id)[0];
    let all = "WASITKPFGCwasitkpfgc"@;
    reveal_strlit("WASITKPFGCwasitkpfgc");
    assert(all[0] == 'W' && all[1] == 'A' && all[2] == 'S' && all[3] == 'I' && all[4] == 'T'
        && all[5] == 'K' && all[6] == 'P' && all[7] == 'F' && all[8] == 'G' && all[9] == 'C');
    assert(all[10] == 'w' && all[11] == 'a' && all[12] == 's' && all[13] == 'i' && all[14] == 't'
        && all[15] == 'k' && all[16] == 'p' && all[17] == 'f' && all[18] == 'g' && all[19] == 'c');
    assert(forall|k: int| 0 <= k < 20 ==> all.contains(#[trigger] all[k]));
    assert(text::ascii_upper('w') == 'W' && text::ascii_upper('a') == 'A' && text::ascii_upper('s')
        == 'S' && text::ascii_upper('i') == 'I' && text::ascii_upper('t') == 'T'
        && text::ascii_upper('k') == 'K' && text::ascii_upper('p') == 'P' && text::ascii_upper('f')
        == 'F' && text::ascii_upper('g') == 'G' && text::ascii_upper('c') == 'C');
    if 'a' <= c <= 'z' {
        assert(text::ascii_upper(c) as int == c as int - 32);
    }
}

/// An id with a namespace belongs to the dataset of that name, however the letters of the
/// namespace are written, where it is one of the taxonomies, and to none otherwise.
pub proof fn law_ids_go_by_their_namespace(id: Seq<char>, ns: Seq<char>, rest: Seq<char>)
    requires
        text::trim(id) == ns + seq!['/'] + rest,
        !ns.contains('/'),
    ensures
        dataset_of_id(id) == (if seq![
            "institution-types"@,
            "work-types"@,
            "source-types"@,
            "licenses"@,
            "countries"@,
            "continents"@,
            "languages"@,
            "domains"@,
            "fields"@,
            "subfields"@,
            "sdgs"@,
        ].contains(text::ascii_lowered(ns)) {
            Some(text::ascii_lowered(ns))
        } else {
            None
        }),
{
    let all = seq![
        "institution-types"@,
        "work-types"@,
        "source-types"@,
        "licenses"@,
        "countries"@,
        "continents"@,
        "languages"@,
        "domains"@,
        "fields"@,
        "subfields"@,
        "sdgs"@,
    ];
    text::law_parted(ns, '/', rest);
    let t = text::trim(id);
    assert(t[ns.len() as int] == '/');
    assert(t.contains('/'));
    let l = text::ascii_lowered(ns);
    assert(all[0] == "institution-types"@ && all[1] == "work-types"@ && all[2] == "source-types"@
        && all[3] == "licenses"@ && all[4] == "countries"@ && all[5] == "continents"@ && all[6]
        == "languages"@ && all[7] == "domains"@ && all[8] == "fields"@ && all[9] == "subfields"@
        && all[10] == "sdgs"@);
    assert(forall|k: int| 0 <= k < 11 ==> all.contains(#[trigger] all[k]));
}

/// An id is found under the same letters whichever form it is asked for in: with the address
/// in front of it, over `https` or `http`, or without. It is looked up under the address, and
/// in the dataset that its short form belongs to.
pub proof fn law_asked_ids(short: Seq<char>)
    requires
        short.len() > 0,
        is_plain_end(short[0]),
        is_plain_end(short.last()),
        !text::has_prefix(short, "http://openalex.org/"@),
        !text::has_prefix(short, "https://openalex.org/"@),
    ensures
        input_of(short).raw == short,
        input_of(short).normalized == short,
        input_of(short).canonical == "https://openalex.org/"@ + short,
        input_of("https://openalex.org/"@ + short).normalized == short,
        input_of("https://openalex.org/"@ + short).canonical == "https://openalex.org/"@ + short,
        input_of("http://openalex.org/"@ + short).normalized == short,
        input_of(short).dataset == dataset_of_id(short),
        input_of("https://openalex.org/"@ + short).dataset == dataset_of_id(short),
        input_of("http://openalex.org/"@ + short).dataset == dataset_of_id(short),
{
    law_long_form_of_a_short_id(short);
    reveal_strlit("https://openalex.org/");
    reveal_strlit("http://openalex.org/");
    let long = "http://openalex.org/"@ + short;
    assert(long[0] == 'h');
    assert(long.last() == short.last());
    assert(bare_id(long) == long);
    assert(long.take("http://openalex.org/"@.len() as int) =~= "http://openalex.org/"@);
    assert(long.skip("http://openalex.org/"@.len() as int) =~= short);
    assert(long[4] == ':');
    if text::has_prefix(long, "https://openalex.org/"@) {
        assert(long.take("https://openalex.org/"@.len() as int)[4] == 's');
    }
}

/// Ids are read from the first column that is named `id`, `openalex_id` or `work_id`, and
/// from the first column of all where none is.
pub proof fn law_id_column(headers: Seq<Seq<char>>, i: int)
    requires
        0 <= i <= headers.len(),
        forall|k: int|
            0 <= k < i ==> (#[trigger] headers[k]) != "id"@ && headers[k] != "openalex_id"@
                && headers[k] != "work_id"@,
        i < headers.len() ==> headers[i] == "id"@ || headers[i] == "openalex_id"@ || headers[i]
            == "work_id"@,
    ensures
        id_column(headers, 0) == (if i < headers.len() {
            i
        } else {
            0
        }),
{
    lemma_id_column(headers, 0, i);
}

proof fn lemma_id_column(headers: Seq<Seq<char>>, k: int, i: int)
    requires
        0 <= k <= i <= headers.len(),
        forall|m: int| k <= m < i ==> !is_id_column(#[trigger] headers[m]),
        i < headers.len() ==> is_id_column(headers[i]),
    ensures
        id_column(headers, k) == (if i < headers.len() {
            i
        } else {
            0
        }),
    decreases i - k,
{
    if k < i {
        lemma_id_column(headers, k + 1, i);
    }
}

/// Every record adds the id that it holds in the column, without the white space around it;
/// a record without an id adds nothing.
pub proof fn law_ids_of_records(
    records: Seq<Result<Seq<Seq<char>>, Seq<char>>>,
    r: Seq<Seq<char>>,
    column: int,
)
    requires
        0 <= column,
        ids_in(records, column) is Ok,
    ensures
        ids_in(records.push(Ok(r)), column) == (if column < r.len() && text::trim(
            r[column],
        ).len() > 0 {
            Ok::<Seq<InputView>, Seq<char>>(
                ids_in(records, column)->Ok_0.push(input_of(text::trim(r[column]))),
            )
        } else {
            ids_in(records, column)
        }),
        ids_in(Seq::empty(), column) == Ok::<Seq<InputView>, Seq<char>>(Seq::empty()),
{
    assert(records.push(Ok(r)).drop_last() =~= records);
}

/// An id is looked for in its dataset, by its long form, unless it belongs to none or another
/// dataset is asked for; it is then reported as it was given, with the reason.
pub proof fn law_where_an_id_goes(v: Seq<InputView>, x: InputView, only: Option<Seq<char>>)
    ensures
        x.dataset is None ==> unknown_ids(v.push(x), only) == unknown_ids(v, only).push(
            (x.raw, x.normalized, "unmapped id format/prefix"@),
        ) && routed_ids(v.push(x), only) == routed_ids(v, only),
        x.dataset is Some && only is Some && x.dataset != only ==> unknown_ids(v.push(x), only)
            == unknown_ids(v, only).push(
            (x.raw, x.normalized, "filtered by --dataset="@ + only->Some_0),
        ) && routed_ids(v.push(x), only) == routed_ids(v, only),
        x.dataset is Some && (only is None || x.dataset == only) ==> routed_ids(v.push(x), only)
            == routed_ids(v, only).push((x.dataset->Some_0, x.canonical)) && unknown_ids(
            v.push(x),
            only,
        ) == unknown_ids(v, only),
        unknown_ids(Seq::empty(), only).len() == 0,
        routed_ids(Seq::empty(), only).len() == 0,
{
    assert(v.push(x).drop_last() =~= v);
}

/// The ids of a dataset are those that were routed to it.
pub proof fn law_ids_of_a_dataset(r: Seq<(Seq<char>, Seq<char>)>, name: Seq<char>, id: Seq<char>)
    ensures
        seconds_of(r, name).contains(id) <==> r.contains((name, id)),
    decreases r.len(),
{
    if r.len() > 0 {
        let front = r.drop_last();
        law_ids_of_a_dataset(front, name, id);
        let s = seconds_of(front, name);
        if r.contains((name, id)) {
            let k = choose|k: int| 0 <= k < r.len() && r[k] == (name, id);
            if k < front.len() {
                assert(front[k] == (name, id));
                let m = choose|m: int| 0 <= m < s.len() && s[m] == id;
                assert(seconds_of(r, name)[m] == id);
            } else {
                assert(seconds_of(r, name).last() == id);
            }
        }
        if seconds_of(r, name).contains(id) {
            let m = choose|m: int|
                0 <= m < seconds_of(r, name).len() && seconds_of(r, name)[m] == id;
            if m < s.len() {
                assert(s[m] == id);
                assert(front.contains((name, id)));
                let k = choose|k: int| 0 <= k < front.len() && front[k] == (name, id);
                assert(r[k] == (name, id));
            } else {
                assert(r.last() == (name, id));
            }
        }
    }
}

/// What the rows of the database say under a name is taken row by row.
pub proof fn law_column_of_rows(
    rows: Seq<Map<Seq<char>, Seq<char>>>,
    row: Map<Seq<char>, Seq<char>>,
    name: Seq<char>,
)
    ensures
        column_of(rows.push(row), name) == (if row.dom().contains(name) {
            column_of(rows, name).push(row[name])
        } else {
            column_of(rows, name)
        }),
        column_of(Seq::empty(), name).len() == 0,
{
    assert(rows.push(row).drop_last() =~= rows);
}

/// The rows of a dataset are written beside the file that is named as output, under its name
/// with that of the dataset behind it; those of two datasets are written to two files.
pub proof fn law_outputs_are_apart(
    dir: Seq<char>,
    stem: Seq<char>,
    ext: Seq<char>,
    a: Seq<char>,
    b: Seq<char>,
)
    requires
        paths::is_component(stem),
        !ext.contains('/'),
        !ext.contains('.'),
        paths::is_tidy(dir),
    ensures
        output_path_of(paths::join_of(dir, stem + seq!['.'] + ext), a) == paths::join_of(
            dir,
            stem + "_"@ + a + ".parquet"@,
        ),
        a != b ==> output_path_of(paths::join_of(dir, stem + seq!['.'] + ext), a)
            != output_path_of(paths::join_of(dir, stem + seq!['.'] + ext), b),
{
    let name = stem + seq!['.'] + ext;
    paths::law_stem_and_extension(dir, stem, ext, ext);
    assert(paths::is_component(name)) by {
        assert forall|k: int| 0 <= k < name.len() implies name[k] != '/' by {
            if k < stem.len() {
                assert(stem.contains(stem[k]));
            } else if k > stem.len() {
                assert(ext.contains(ext[k - stem.len() - 1]));
            }
        }
        assert(name.len() >= 2);
        if name == seq!['.', '.'] {
            assert(stem =~= seq!['.']);
        }
    }
    paths::law_parent_and_file_name_of_a_joined_path(dir, name);
    let x = stem + "_"@ + a + ".parquet"@;
    let y = stem + "_"@ + b + ".parquet"@;
    assert(stem.contains(stem[0]));
    assert(x[0] == stem[0] && y[0] == stem[0]);
    assert(!paths::is_rooted(x) && !paths::is_rooted(y));
    if x != y {
        paths::law_joined_paths_are_apart(dir, x, y);
    } else {
        assert(a.len() == b.len());
        let n: int = (stem.len() + "_"@.len()) as int;
        assert(x.subrange(n, n + a.len()) =~= a);
        assert(y.subrange(n, n + b.len()) =~= b);
    }
}
/// What is wrong with an index is told with the index and what can be done: a missing one
/// is made, an unreadable one made anew.
pub proof fn law_faults_of_an_index(
    dataset: Seq<char>,
    root_dir: Seq<char>,
    index_file: Seq<char>,
    out_path: Seq<char>,
    e: String,
)
    ensures
        ({
            let f = index_fault_failure(dataset, root_dir, index_file, IndexFault::Missing);
            &&& f.dataset == dataset && f.phase == "extract_index_read"@
            &&& f.source_path == Some(index_file) && f.error_message == "index file missing"@
            &&& f.suggested_recovery == Some(
                "run openalex-snapshot index --root-dir "@ + root_dir + " --dataset "@ + dataset,
            )
        }),
        ({
            let f = index_fault_failure(dataset, root_dir, index_file, IndexFault::Unreadable(e));
            &&& f.dataset == dataset && f.phase == "extract_index_read"@
            &&& f.source_path == Some(index_file) && f.error_message == e@
        }),
        ({
            let f = output_failure(dataset, index_file, out_path, e@);
            &&& f.dataset == dataset && f.phase == "extract_write_output"@
            &&& f.source_path == Some(index_file) && f.output_path == Some(out_path)
            &&& f.error_message == e@
        }),
{
}

/// The ids that are looked for stand one to a line under the head `id`; the ids that are
/// not, under three heads, with what they were read as and why.
pub proof fn law_lines_of_ids(
    ids: Seq<Seq<char>>,
    id: Seq<char>,
    v: Seq<(Seq<char>, Seq<char>, Seq<char>)>,
    x: (Seq<char>, Seq<char>, Seq<char>),
)
    ensures
        id_lines(Seq::empty()) == csvfile::record_line(seq!["id"@]),
        id_lines(ids.push(id)) == id_lines(ids) + csvfile::record_line(seq![id]),
        unknown_lines(Seq::empty()) == csvfile::record_line(
            seq!["raw_id"@, "normalized_id"@, "reason"@],
        ),
        unknown_lines(v.push(x)) == unknown_lines(v) + csvfile::record_line(seq![x.0, x.1, x.2]),
{
    assert(ids.push(id).drop_last() =~= ids);
    assert(v.push(x).drop_last() =~= v);
}

/// The files that an index refers to stand below the parquet files, in the order of the
/// index, and a file of the time is named after that time.
pub proof fn law_files_of_an_extraction(
    dir: Seq<char>,
    rels: Seq<Seq<char>>,
    i: int,
    prefix: Seq<char>,
    ts: i64,
    other: i64,
)
    requires
        0 <= i < rels.len(),
    ensures
        below(dir, rels).len() == rels.len(),
        below(dir, rels)[i] == paths::join_of(dir, rels[i]),
        stamped_name(prefix, ts) == prefix + text::signed_decimal(ts as int) + ".csv"@,
        ts != other ==> stamped_name(prefix, ts) != stamped_name(prefix, other),
{
    reveal_strlit(".csv");
    let a = stamped_name(prefix, ts);
    let b = stamped_name(prefix, other);
    let n = prefix.len() as int;
    assert(a.subrange(n, a.len() - 4) =~= text::signed_decimal(ts as int));
    assert(b.subrange(n, b.len() - 4) =~= text::signed_decimal(other as int));
    text::law_signed_round_trip(ts as int);
    text::law_signed_round_trip(other as int);
}

/// A table gives the ids of its column of ids, and an error where it has no heads.
pub proof fn law_ids_of_a_table(
    h: Seq<Seq<char>>,
    records: Seq<Result<Seq<Seq<char>>, Seq<char>>>,
    e: Seq<char>,
)
    ensures
        table_ids(csvfile::TableView { headers: Ok(h), records }) == ids_in(records, id_column(h, 0)),
        table_ids(csvfile::TableView { headers: Err(e), records }) == Err::<
            Seq<InputView>,
            Seq<char>,
        >(e),
{
}
} // verus!
