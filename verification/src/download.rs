//! Downloading a snapshot and checking what was downloaded: the commands that are
//! run, the listing of what there is, and the comparison of both sides.

use vstd::prelude::*;
use vstd::string::*;
use crate::convert::bytes_to_gib;
use crate::convert;
use crate::json::{as_bool, as_number, as_text, parse_json, read_member, Json};
use crate::json;
use crate::layout::source_dir;
use crate::layout;
use crate::order;
use crate::paths::{has_component, join_path, strip_base};
use crate::paths;
use crate::plan;
use crate::report::{
    copy_failures, failure, report_arg, DatasetReportSummary, FailureEntry, ReportArg, RunReport,
};
use crate::report;
use crate::text::{
    chars_of, decimal_string, find_char, part_at, push_decimal, replaced, str_before, str_eq, strip_prefix,
    trimmed_end_of, trimmed_of, trimmed_start_of,
};
use crate::text;

verus! {

/// The bucket and the prefix of an address of the storage service.
pub open spec fn s3_parts(uri: Seq<char>) -> Result<(Seq<char>, Seq<char>), Seq<char>> {
    match text::without_prefix(uri, "s3://"@) {
        None => Err("invalid s3 uri: "@ + uri),
        Some(u) => if text::before_char(u, '/').len() == 0 {
            Err("invalid s3 uri bucket: "@ + uri)
        } else {
            Ok((text::before_char(u, '/'), text::trim_char(text::after_char(u, '/'), '/')))
        },
    }
}

/// The bucket and the prefix of an address of the storage service.
pub fn parse_s3_uri(uri: &str) -> (r: Result<(String, String), String>)
    ensures
        match (r, s3_parts(uri@)) {
            (Ok(p), Ok(q)) => p.0@ == q.0 && p.1@ == q.1,
            (Err(e), Err(m)) => e@ == m,
            _ => false,
        },
{
    match strip_prefix(uri, "s3://") {
        None => {
            let mut m = "invalid s3 uri: ".to_owned();
            m.append(uri);
            Err(m)
        },
        Some(u) => {
            let (bucket, rest) = part_at(u.as_str(), '/');
            if bucket.as_str().is_empty() {
                let mut m = "invalid s3 uri bucket: ".to_owned();
                m.append(uri);
                Err(m)
            } else {
                Ok((bucket, trimmed_of(rest.as_str(), '/')))
            }
        },
    }
}

/// How the storage service is reached.
#[derive(Debug)]
pub struct AwsAccess {
    pub endpoint_url: Option<String>,
    pub region: Option<String>,
    pub profile_name: Option<String>,
    pub no_sign_request: bool,
    pub signed: bool,
}

impl AwsAccess {
    /// Whether requests go out unsigned: a signature that is asked for wins.
    pub open spec fn is_unsigned(self) -> bool {
        self.no_sign_request && !self.signed
    }

    /// Whether requests go out unsigned.
    pub fn unsigned(&self) -> (r: bool)
        ensures
            r == self.is_unsigned(),
    {
        self.no_sign_request && !self.signed
    }
}

pub open spec fn flag_of(flag: Seq<char>, value: Option<Seq<char>>) -> Seq<Seq<char>> {
    match value {
        Some(v) => seq![flag, v],
        None => Seq::empty(),
    }
}

/// The flags that every command of the storage service takes.
pub open spec fn access_flags(a: AwsAccess) -> Seq<Seq<char>> {
    flag_of("--endpoint-url"@, report::opt(a.endpoint_url)) + flag_of(
        "--region"@,
        report::opt(a.region),
    ) + flag_of("--profile"@, report::opt(a.profile_name)) + (if a.is_unsigned() {
        seq!["--no-sign-request"@]
    } else {
        Seq::empty()
    })
}

fn push_text(out: &mut Vec<String>, t: &str)
    ensures
        text::texts(final(out)@) == text::texts(old(out)@).push(t@),
{
    broadcast use text::lemma_texts_push;

    out.push(t.to_owned());
}

fn push_flag(out: &mut Vec<String>, flag: &str, value: &Option<String>)
    ensures
        text::texts(final(out)@) == text::texts(old(out)@) + flag_of(flag@, report::opt(*value)),
{
    let ghost before = text::texts(out@);
    match value {
        Some(v) => {
            push_text(out, flag);
            push_text(out, v.as_str());
            assert(text::texts(out@) =~= before + seq![flag@, v@]);
        },
        None => {
            assert(before =~= before + Seq::<Seq<char>>::empty());
        },
    }
}

fn push_access_flags(out: &mut Vec<String>, a: &AwsAccess)
    ensures
        text::texts(final(out)@) == text::texts(old(out)@) + access_flags(*a),
{
    let ghost before = text::texts(out@);
    push_flag(out, "--endpoint-url", &a.endpoint_url);
    push_flag(out, "--region", &a.region);
    push_flag(out, "--profile", &a.profile_name);
    if a.unsigned() {
        push_text(out, "--no-sign-request");
    }
    assert(text::texts(out@) =~= before + access_flags(*a));
}

/// The flags that every command of the storage service takes.
pub fn aws_common_flags_from(a: &AwsAccess) -> (r: Vec<String>)
    ensures
        text::texts(r@) == access_flags(*a),
{
    let mut out: Vec<String> = Vec::new();
    push_access_flags(&mut out, a);
    assert(text::texts(out@) =~= access_flags(*a));
    out
}

/// What a download copies, and where to.
#[derive(Debug)]
pub struct SyncRequest {
    pub s3_uri: String,
    pub snapshot_dir: String,
    pub dataset: String,
    pub delete_files: bool,
    pub no_delete: bool,
}

impl SyncRequest {
    /// Whether files that are gone on the other side are deleted: not to delete
    /// wins.
    pub open spec fn is_deleting(self) -> bool {
        self.delete_files && !self.no_delete
    }

    /// Whether files that are gone on the other side are deleted.
    pub fn deleting(&self) -> (r: bool)
        ensures
            r == self.is_deleting(),
    {
        self.delete_files && !self.no_delete
    }
}

/// Where a download copies from.
pub open spec fn sync_source(s3_uri: Seq<char>, dataset: Seq<char>) -> Seq<char> {
    let base = text::trim_end_char(s3_uri, '/');
    if dataset == "all"@ {
        base
    } else {
        base + "/data/"@ + dataset + "/"@
    }
}

/// Where a download copies to.
pub open spec fn sync_target(snapshot_dir: Seq<char>, dataset: Seq<char>) -> Seq<char> {
    if dataset == "all"@ {
        snapshot_dir
    } else {
        layout::source_dir_of(snapshot_dir, dataset)
    }
}

/// The command that downloads.
pub open spec fn sync_command(q: SyncRequest, a: AwsAccess) -> Seq<Seq<char>> {
    seq!["s3"@, "sync"@] + (if q.is_deleting() {
        seq!["--delete"@]
    } else {
        Seq::empty()
    }) + seq![
        sync_source(q.s3_uri@, q.dataset@),
        sync_target(q.snapshot_dir@, q.dataset@),
    ] + access_flags(a)
}

/// The command that downloads.
pub fn aws_sync_command(q: &SyncRequest, a: &AwsAccess) -> (r: Vec<String>)
    ensures
        text::texts(r@) == sync_command(*q, *a),
{
    let mut cmd: Vec<String> = Vec::new();
    push_text(&mut cmd, "s3");
    push_text(&mut cmd, "sync");
    if q.deleting() {
        push_text(&mut cmd, "--delete");
    }
    let base = trimmed_end_of(q.s3_uri.as_str(), '/');
    if str_eq(q.dataset.as_str(), "all") {
        push_text(&mut cmd, base.as_str());
        push_text(&mut cmd, q.snapshot_dir.as_str());
    } else {
        let mut src = base;
        src.append("/data/");
        src.append(q.dataset.as_str());
        src.append("/");
        let dst = source_dir(q.snapshot_dir.as_str(), q.dataset.as_str());
        push_text(&mut cmd, src.as_str());
        push_text(&mut cmd, dst.as_str());
    }
    let ghost front = text::texts(cmd@);
    proof {
        assert(front =~= seq!["s3"@, "sync"@] + (if q.is_deleting() {
            seq!["--delete"@]
        } else {
            Seq::empty()
        }) + seq![
            sync_source(q.s3_uri@, q.dataset@),
            sync_target(q.snapshot_dir@, q.dataset@),
        ]);
    }
    push_access_flags(&mut cmd, a);
    cmd
}

/// Where the objects of a dataset stand in a bucket.
pub open spec fn dataset_prefix_of(dataset: Seq<char>) -> Seq<char> {
    if dataset == "all"@ {
        ""@
    } else {
        "data/"@ + dataset + "/"@
    }
}

/// Where the objects of a dataset stand in a bucket.
pub fn dataset_prefix(dataset: &str) -> (r: String)
    ensures
        r@ == dataset_prefix_of(dataset@),
{
    if str_eq(dataset, "all") {
        "".to_owned()
    } else {
        let mut s = "data/".to_owned();
        s.append(dataset);
        s.append("/");
        s
    }
}

/// The prefix of the objects that are listed.
pub open spec fn listing_prefix_of(base: Seq<char>, dataset: Seq<char>) -> Seq<char> {
    let ds = dataset_prefix_of(dataset);
    if base.len() == 0 {
        ds
    } else if ds.len() == 0 {
        text::trim_end_char(base, '/') + "/"@
    } else {
        text::trim_end_char(base, '/') + "/"@ + ds
    }
}

/// The prefix of the objects that are listed.
pub fn listing_prefix(base: &str, dataset: &str) -> (r: String)
    ensures
        r@ == listing_prefix_of(base@, dataset@),
{
    let ds = dataset_prefix(dataset);
    if base.is_empty() {
        return ds;
    }
    let mut s = trimmed_end_of(base, '/');
    s.append("/");
    if !ds.as_str().is_empty() {
        s.append(ds.as_str());
    }
    s
}

/// The command that lists one page of objects.
pub open spec fn listing_command(
    bucket: Seq<char>,
    prefix: Seq<char>,
    token: Option<Seq<char>>,
    a: AwsAccess,
) -> Seq<Seq<char>> {
    seq![
        "s3api"@,
        "list-objects-v2"@,
        "--bucket"@,
        bucket,
        "--prefix"@,
        prefix,
        "--output"@,
        "json"@,
    ] + flag_of("--continuation-token"@, token) + access_flags(a)
}

/// The command that lists one page of objects.
pub fn list_page_command(bucket: &str, prefix: &str, token: &Option<String>, a: &AwsAccess) -> (r: Vec<
    String,
>)
    ensures
        text::texts(r@) == listing_command(bucket@, prefix@, report::opt(*token), *a),
{
    let mut cmd: Vec<String> = Vec::new();
    push_text(&mut cmd, "s3api");
    push_text(&mut cmd, "list-objects-v2");
    push_text(&mut cmd, "--bucket");
    push_text(&mut cmd, bucket);
    push_text(&mut cmd, "--prefix");
    push_text(&mut cmd, prefix);
    push_text(&mut cmd, "--output");
    push_text(&mut cmd, "json");
    assert(text::texts(cmd@) =~= seq![
        "s3api"@,
        "list-objects-v2"@,
        "--bucket"@,
        bucket@,
        "--prefix"@,
        prefix@,
        "--output"@,
        "json"@,
    ]);
    push_flag(&mut cmd, "--continuation-token", token);
    push_access_flags(&mut cmd, a);
    cmd
}

/// An object of the storage service, or a file of the snapshot.
#[derive(Debug)]
pub struct RemoteObject {
    pub key: String,
    pub size: u64,
    pub etag: String,
    pub last_modified: String,
}

impl Clone for RemoteObject {
    fn clone(&self) -> (r: Self)
        ensures
            r == *self,
    {
        RemoteObject {
            key: self.key.clone(),
            size: self.size,
            etag: self.etag.clone(),
            last_modified: self.last_modified.clone(),
        }
    }
}

/// What a `RemoteObject` says.
#[verifier::ext_equal]
pub struct ObjectView {
    pub key: Seq<char>,
    pub size: u64,
    pub etag: Seq<char>,
    pub last_modified: Seq<char>,
}

impl View for RemoteObject {
    type V = ObjectView;

    open spec fn view(&self) -> ObjectView {
        ObjectView {
            key: self.key@,
            size: self.size,
            etag: self.etag@,
            last_modified: self.last_modified@,
        }
    }
}

pub open spec fn object_views(v: Seq<RemoteObject>) -> Seq<ObjectView> {
    Seq::new(v.len(), |i: int| v[i]@)
}

/// Pushing an object pushes what it says.
pub broadcast proof fn lemma_object_views_push(v: Seq<RemoteObject>, o: RemoteObject)
    ensures
        #[trigger] object_views(v.push(o)) == object_views(v).push(o@),
{
    assert(object_views(v.push(o)) =~= object_views(v).push(o@));
}

/// An entry of a listing, made from what it says of itself. One without a key is
/// none.
pub open spec fn object_from(
    key: Option<Seq<char>>,
    size: Option<u64>,
    etag: Option<Seq<char>>,
    last_modified: Option<Seq<char>>,
) -> Option<ObjectView> {
    let k = key.unwrap_or(Seq::empty());
    if k.len() == 0 {
        None
    } else {
        Some(
            ObjectView {
                key: k,
                size: size.unwrap_or(0),
                etag: etag.unwrap_or(Seq::empty()),
                last_modified: last_modified.unwrap_or(Seq::empty()),
            },
        )
    }
}

pub open spec fn object_view(r: Option<RemoteObject>) -> Option<ObjectView> {
    match r {
        Some(o) => Some(o@),
        None => None,
    }
}

fn or_empty(o: Option<String>) -> (r: String)
    ensures
        r@ == report::opt(o).unwrap_or(Seq::empty()),
{
    match o {
        Some(s) => s,
        None => String::new(),
    }
}

/// An entry of a listing, made from what it says of itself.
pub fn listed_object(
    key: Option<String>,
    size: Option<u64>,
    etag: Option<String>,
    last_modified: Option<String>,
) -> (r: Option<RemoteObject>)
    ensures
        object_view(r) == object_from(
            report::opt(key),
            size,
            report::opt(etag),
            report::opt(last_modified),
        ),
{
    let key = or_empty(key);
    if key.as_str().is_empty() {
        return None;
    }
    Some(
        RemoteObject {
            key,
            size: match size {
                Some(n) => n,
                None => 0,
            },
            etag: or_empty(etag),
            last_modified: or_empty(last_modified),
        },
    )
}

/// What the listing says under a name of an entry.
pub open spec fn entry_member(item: json::JsonView, name: Seq<char>) -> Option<json::JsonView> {
    json::read_of(json::member_of(item, name))
}

/// The object that an entry of a listing describes, where it has a key.
pub open spec fn entry_object(item: json::JsonView) -> Option<ObjectView> {
    object_from(
        json::text_in(entry_member(item, "Key"@)),
        json::number_in(entry_member(item, "Size"@)),
        json::text_in(entry_member(item, "ETag"@)),
        json::text_in(entry_member(item, "LastModified"@)),
    )
}

fn read_entry(item: &Json) -> (r: Option<RemoteObject>)
    ensures
        object_view(r) == entry_object(item@),
{
    listed_object(
        as_text(read_member(item, "Key")),
        as_number(read_member(item, "Size")),
        as_text(read_member(item, "ETag")),
        as_text(read_member(item, "LastModified")),
    )
}

/// The objects that the entries of a listing describe.
pub open spec fn entry_objects(items: Seq<Seq<char>>) -> Seq<ObjectView>
    decreases items.len(),
{
    if items.len() == 0 {
        Seq::empty()
    } else {
        let rest = entry_objects(items.drop_last());
        match json::json_of(items.last()) {
            Ok(item) => match entry_object(item) {
                Some(o) => rest.push(o),
                None => rest,
            },
            Err(_) => rest,
        }
    }
}

/// The objects of a page.
pub open spec fn page_objects(page: json::JsonView) -> Seq<ObjectView> {
    match json::read_of(json::member_of(page, "Contents"@)) {
        Some(json::JsonView::Array(items)) => entry_objects(items),
        _ => Seq::empty(),
    }
}

/// Where the next page begins, where there is one.
pub open spec fn next_page(truncated: Option<bool>, token: Option<Seq<char>>) -> Option<Seq<char>> {
    if truncated == Some(true) {
        token
    } else {
        None
    }
}

/// Where the next page begins, where there is one: the listing says both that it
/// was cut off and how to go on.
pub fn next_page_token(truncated: Option<bool>, token: Option<String>) -> (r: Option<String>)
    ensures
        report::opt(r) == next_page(truncated, report::opt(token)),
{
    match truncated {
        Some(true) => token,
        _ => None,
    }
}

/// Where the page behind a page begins, where there is one.
pub open spec fn page_token(page: json::JsonView) -> Option<Seq<char>> {
    next_page(
        json::bool_in(json::read_of(json::member_of(page, "IsTruncated"@))),
        json::text_in(json::read_of(json::member_of(page, "NextContinuationToken"@))),
    )
}

/// A listing, page by page.
pub struct Listing {
    pub objects: Vec<RemoteObject>,
    /// Where the next page begins.
    pub token: Option<String>,
    pub finished: bool,
}

impl Listing {
    /// A listing of which no page has been read.
    pub fn start() -> (r: Self)
        ensures
            object_views(r.objects@) == Seq::<ObjectView>::empty(),
            r.token is None,
            !r.finished,
    {
        let r = Listing { objects: Vec::new(), token: None, finished: false };
        assert(object_views(r.objects@) =~= Seq::<ObjectView>::empty());
        r
    }

    /// Takes one page in; the listing is finished with the last.
    pub fn take_page_value(&mut self, page: &Json)
        ensures
            object_views(final(self).objects@) == object_views(old(self).objects@) + page_objects(
                page@,
            ),
            report::opt(final(self).token) == page_token(page@),
            final(self).finished == (page_token(page@) is None),
    {
        let ghost before = object_views(self.objects@);
        match read_member(page, "Contents") {
            Some(Json::Array(items)) => {
                let ghost all = text::texts(items@);
                let mut i: usize = 0;
                assert(object_views(self.objects@) =~= before + entry_objects(all.take(0)));
                while i < items.len()
                    invariant
                        i <= items@.len(),
                        all == text::texts(items@),
                        object_views(self.objects@) == before + entry_objects(all.take(i as int)),
                    decreases items@.len() - i,
                {
                    broadcast use lemma_object_views_push;

                    proof {
                        assert(all.take(i + 1).drop_last() =~= all.take(i as int));
                        assert(all.take(i + 1).last() == items@[i as int]@);
                    }
                    if let Ok(item) = parse_json(items[i].as_str()) {
                        if let Some(o) = read_entry(&item) {
                            self.objects.push(o);
                        }
                    }
                    i += 1;
                    assert(
                        object_views(self.objects@) =~= before + entry_objects(all.take(i as int))
                    );
                }
                assert(all.take(i as int) =~= all);
            },
            _ => {
                assert(object_views(self.objects@) =~= before + Seq::<ObjectView>::empty());
            },
        }
        self.token = next_page_token(
            as_bool(read_member(page, "IsTruncated")),
            as_text(read_member(page, "NextContinuationToken")),
        );
        self.finished = self.token.is_none();
    }

    /// Takes in what the listing command printed.
    pub fn take_page(&mut self, output: &str) -> (r: Result<(), String>)
        ensures
            match (r, json::json_of(output@)) {
                (Ok(_), Ok(page)) => {
                    &&& object_views(final(self).objects@) == object_views(old(self).objects@)
                        + page_objects(page)
                    &&& report::opt(final(self).token) == page_token(page)
                    &&& final(self).finished == (page_token(page) is None)
                },
                (Err(e), Err(m)) => *final(self) == *old(self) && e@
                    == "invalid aws list-objects-v2 JSON: "@ + m,
                _ => false,
            },
    {
        match parse_json(output) {
            Ok(page) => {
                self.take_page_value(&page);
                Ok(())
            },
            Err(e) => {
                let mut m = "invalid aws list-objects-v2 JSON: ".to_owned();
                m.append(e.as_str());
                Err(m)
            },
        }
    }
}

/// The order of objects by key.
pub open spec fn by_key() -> spec_fn(ObjectView, ObjectView) -> bool {
    |a: ObjectView, b: ObjectView| text::text_lt(a.key, b.key)
}

/// The objects in the order of their keys.
pub fn sort_by_key(v: &Vec<RemoteObject>) -> (r: Vec<RemoteObject>)
    ensures
        object_views(r@) == order::sorted_by(object_views(v@), by_key()),
{
    let mut out: Vec<RemoteObject> = Vec::new();
    let ghost all = object_views(v@);
    let mut i: usize = 0;
    assert(object_views(out@) =~= order::sorted_by(all.take(0), by_key()));
    while i < v.len()
        invariant
            i <= v@.len(),
            all == object_views(v@),
            object_views(out@) == order::sorted_by(all.take(i as int), by_key()),
        decreases v@.len() - i,
    {
        let ghost x = v@[i as int]@;
        let mut j: usize = out.len();
        while j > 0 && str_before(v[i].key.as_str(), out[j - 1].key.as_str())
            invariant
                j <= out@.len(),
                i < v@.len(),
                x == v@[i as int]@,
                forall|k: int|
                    j <= k < out@.len() ==> by_key()(x, #[trigger] object_views(out@)[k]),
            decreases j,
        {
            j -= 1;
        }
        proof {
            if j > 0 {
                assert(object_views(out@)[j - 1] == out@[j - 1]@);
            }
            order::lemma_insert_by(object_views(out@), x, by_key(), j as int);
            assert(all.take(i + 1).drop_last() =~= all.take(i as int));
        }
        let ghost before = out@;
        out.insert(j, v[i].clone());
        assert(object_views(out@) =~= object_views(before).insert(j as int, x));
        i += 1;
    }
    assert(all.take(i as int) =~= all);
    out
}

/// A listing keeps every object, as often as it was listed, and puts them in the
/// order of their keys.
pub proof fn law_listing_keeps_objects(v: Seq<ObjectView>)
    ensures
        order::sorted_by(v, by_key()).to_multiset() == v.to_multiset(),
        order::in_order_by(order::sorted_by(v, by_key()), by_key()),
{
    assert forall|a: ObjectView, b: ObjectView| #[trigger] by_key()(a, b) implies !by_key()(b, a) by {
        text::lemma_text_lt_asymmetric(a.key, b.key);
    }
    assert forall|a: ObjectView, b: ObjectView, c: ObjectView|
        !#[trigger] by_key()(a, b) && !#[trigger] by_key()(b, c) implies !by_key()(a, c) by {
        text::lemma_text_not_lt_transitive(a.key, b.key, c.key);
    }
    order::law_sorted_by(v, by_key());
}

/// A file of the snapshot that was found.
#[derive(Debug)]
pub struct LocalFile {
    pub path: String,
    pub size: u64,
    /// When it was changed, in seconds, where that can be told.
    pub modified: Option<u64>,
}

pub open spec fn local_views(v: Seq<LocalFile>) -> Seq<(Seq<char>, u64, Option<u64>)> {
    Seq::new(v.len(), |i: int| (v[i].path@, v[i].size, v[i].modified))
}

/// Whether a path runs through the directory of an earlier form of the metadata.
pub open spec fn is_metadata_path(p: Seq<char>) -> bool {
    paths::components(p).contains(".openalex_download_metadata"@)
}

/// The key of a file: its path below the snapshot, with `/` for every `\`.
pub open spec fn local_key(snapshot_dir: Seq<char>, p: Seq<char>) -> Seq<char> {
    text::replace_char(
        match paths::relative_to(p, snapshot_dir) {
            Some(r) => r,
            None => p,
        },
        '\\',
        "/"@,
    )
}

pub open spec fn local_object(snapshot_dir: Seq<char>, f: (Seq<char>, u64, Option<u64>)) -> ObjectView {
    ObjectView {
        key: local_key(snapshot_dir, f.0),
        size: f.1,
        etag: ""@,
        last_modified: match f.2 {
            Some(n) => text::decimal(n as nat),
            None => Seq::empty(),
        },
    }
}

/// The objects that the files of a snapshot are.
pub open spec fn local_objects(snapshot_dir: Seq<char>, v: Seq<(Seq<char>, u64, Option<u64>)>) -> Seq<
    ObjectView,
>
    decreases v.len(),
{
    if v.len() == 0 {
        Seq::empty()
    } else if is_metadata_path(v.last().0) {
        local_objects(snapshot_dir, v.drop_last())
    } else {
        local_objects(snapshot_dir, v.drop_last()).push(local_object(snapshot_dir, v.last()))
    }
}

/// The objects that the files of a snapshot are, in the order of their keys.
pub fn build_local_manifest(snapshot_dir: &str, found: &Vec<LocalFile>) -> (r: Vec<RemoteObject>)
    ensures
        object_views(r@) == order::sorted_by(
            local_objects(snapshot_dir@, local_views(found@)),
            by_key(),
        ),
{
    let ghost all = local_views(found@);
    let mut out: Vec<RemoteObject> = Vec::new();
    let mut i: usize = 0;
    assert(object_views(out@) =~= local_objects(snapshot_dir@, all.take(0)));
    while i < found.len()
        invariant
            i <= found@.len(),
            all == local_views(found@),
            object_views(out@) == local_objects(snapshot_dir@, all.take(i as int)),
        decreases found@.len() - i,
    {
        broadcast use lemma_object_views_push;

        let f = &found[i];
        proof {
            assert(all.take(i + 1).drop_last() =~= all.take(i as int));
            assert(all.take(i + 1).last() == (f.path@, f.size, f.modified));
        }
        if !has_component(f.path.as_str(), ".openalex_download_metadata") {
            let rel = match strip_base(f.path.as_str(), snapshot_dir) {
                Some(r) => r,
                None => f.path.clone(),
            };
            let o = RemoteObject {
                key: replaced(rel.as_str(), '\\', "/"),
                size: f.size,
                etag: "".to_owned(),
                last_modified: match f.modified {
                    Some(n) => decimal_string(n as u128),
                    None => String::new(),
                },
            };
            assert(o@ =~= local_object(snapshot_dir@, (f.path@, f.size, f.modified)));
            out.push(o);
        }
        i += 1;
    }
    assert(all.take(i as int) =~= all);
    sort_by_key(&out)
}

/// Where the files in scope stand.
pub open spec fn local_root_of(snapshot_dir: Seq<char>, dataset: Seq<char>) -> Seq<char> {
    sync_target(snapshot_dir, dataset)
}

/// Where the files in scope stand.
pub fn local_root(snapshot_dir: &str, dataset: &str) -> (r: String)
    ensures
        r@ == local_root_of(snapshot_dir@, dataset@),
{
    if str_eq(dataset, "all") {
        snapshot_dir.to_owned()
    } else {
        source_dir(snapshot_dir, dataset)
    }
}

/// The dataset that an object belongs to.
pub open spec fn key_dataset(key: Seq<char>) -> Seq<char> {
    let k = text::trim_start_char(key, '/');
    if text::before_char(k, '/') != "data"@ {
        "snapshot"@
    } else if k.contains('/') {
        text::before_char(text::after_char(k, '/'), '/')
    } else {
        "unknown"@
    }
}

/// The dataset that an object belongs to.
pub fn dataset_from_key(key: &str) -> (r: String)
    ensures
        r@ == key_dataset(key@),
{
    let k = trimmed_start_of(key, '/');
    let (first, rest) = part_at(k.as_str(), '/');
    if !str_eq(first.as_str(), "data") {
        return "snapshot".to_owned();
    }
    let v = chars_of(k.as_str());
    match find_char(&v, '/') {
        Some(i) => {
            assert(k@[i as int] == '/');
            let (second, _) = part_at(rest.as_str(), '/');
            second
        },
        None => "unknown".to_owned(),
    }
}

/// `s`, whose keys ascend, with `x` in place of the object of its key.
pub open spec fn put(s: Seq<ObjectView>, x: ObjectView) -> Seq<ObjectView>
    decreases s.len(),
{
    if s.len() == 0 || text::text_lt(s.last().key, x.key) {
        s.push(x)
    } else if s.last().key == x.key {
        s.drop_last().push(x)
    } else {
        put(s.drop_last(), x).push(s.last())
    }
}

/// The objects by key, in the order of the keys; of two objects of one key the
/// later counts.
pub open spec fn keyed(s: Seq<ObjectView>) -> Seq<ObjectView>
    decreases s.len(),
{
    if s.len() == 0 {
        s
    } else {
        put(keyed(s.drop_last()), s.last())
    }
}

pub open spec fn keys_of(s: Seq<ObjectView>) -> Seq<Seq<char>> {
    Seq::new(s.len(), |i: int| s[i].key)
}

proof fn lemma_put_at(s: Seq<ObjectView>, x: ObjectView, j: int)
    requires
        0 <= j <= s.len(),
        forall|k: int|
            j <= k < s.len() ==> !text::text_lt((#[trigger] s[k]).key, x.key) && s[k].key != x.key,
        j > 0 ==> text::text_lt(s[j - 1].key, x.key) || s[j - 1].key == x.key,
    ensures
        j > 0 && s[j - 1].key == x.key ==> put(s, x) == s.update(j - 1, x),
        !(j > 0 && s[j - 1].key == x.key) ==> put(s, x) == s.insert(j, x),
    decreases s.len(),
{
    if j == s.len() {
        if j > 0 && s[j - 1].key == x.key {
            text::lemma_text_lt_irreflexive(x.key);
            assert(s.drop_last().push(x) =~= s.update(j - 1, x));
        } else {
            assert(s.push(x) =~= s.insert(j, x));
        }
    } else {
        let last = s[s.len() - 1];
        assert(!text::text_lt(last.key, x.key) && last.key != x.key);
        lemma_put_at(s.drop_last(), x, j);
        if j > 0 && s[j - 1].key == x.key {
            assert(s.drop_last().update(j - 1, x).push(s.last()) =~= s.update(j - 1, x));
        } else {
            assert(s.drop_last().insert(j, x).push(s.last()) =~= s.insert(j, x));
        }
    }
}

/// The objects by key, in the order of the keys.
pub fn index_by_key(v: &Vec<RemoteObject>) -> (r: Vec<RemoteObject>)
    ensures
        object_views(r@) == keyed(object_views(v@)),
{
    let mut out: Vec<RemoteObject> = Vec::new();
    let ghost all = object_views(v@);
    let mut i: usize = 0;
    assert(object_views(out@) =~= keyed(all.take(0)));
    while i < v.len()
        invariant
            i <= v@.len(),
            all == object_views(v@),
            object_views(out@) == keyed(all.take(i as int)),
        decreases v@.len() - i,
    {
        let ghost x = v@[i as int]@;
        let ghost before = object_views(out@);
        let mut j: usize = out.len();
        while j > 0 && !str_before(out[j - 1].key.as_str(), v[i].key.as_str()) && !str_eq(
            out[j - 1].key.as_str(),
            v[i].key.as_str(),
        )
            invariant
                j <= out@.len(),
                i < v@.len(),
                x == v@[i as int]@,
                before == object_views(out@),
                forall|k: int|
                    j <= k < before.len() ==> !text::text_lt((#[trigger] before[k]).key, x.key)
                        && before[k].key != x.key,
            decreases j,
        {
            assert(before[j - 1] == out@[j - 1]@);
            j -= 1;
        }
        proof {
            if j > 0 {
                assert(before[j - 1] == out@[j - 1]@);
            }
            lemma_put_at(before, x, j as int);
            assert(all.take(i + 1).drop_last() =~= all.take(i as int));
        }
        if j > 0 && str_eq(out[j - 1].key.as_str(), v[i].key.as_str()) {
            let ghost o0 = out@;
            out.set(j - 1, v[i].clone());
            assert(object_views(out@) =~= object_views(o0).update(j - 1, x));
        } else {
            let ghost o0 = out@;
            out.insert(j, v[i].clone());
            assert(object_views(out@) =~= object_views(o0).insert(j as int, x));
        }
        i += 1;
    }
    assert(all.take(i as int) =~= all);
    out
}

/// The size under a key, where there is one.
pub open spec fn size_under(s: Seq<ObjectView>, key: Seq<char>) -> Option<u64>
    decreases s.len(),
{
    if s.len() == 0 {
        None
    } else if s.last().key == key {
        Some(s.last().size)
    } else {
        size_under(s.drop_last(), key)
    }
}

fn find_size(v: &Vec<RemoteObject>, key: &str) -> (r: Option<u64>)
    ensures
        r == size_under(object_views(v@), key@),
{
    let ghost all = object_views(v@);
    let mut i: usize = v.len();
    assert(all.take(i as int) =~= all);
    while i > 0
        invariant
            i <= v@.len(),
            all == object_views(v@),
            size_under(all, key@) == size_under(all.take(i as int), key@),
        decreases i,
    {
        assert(all.take(i as int).drop_last() =~= all.take(i - 1));
        assert(all.take(i as int).last() == v@[i - 1]@);
        if str_eq(v[i - 1].key.as_str(), key) {
            return Some(v[i - 1].size);
        }
        i -= 1;
    }
    None
}

proof fn lemma_size_under(s: Seq<ObjectView>, key: Seq<char>)
    ensures
        size_under(s, key) is Some <==> keys_of(s).contains(key),
    decreases s.len(),
{
    if s.len() > 0 {
        lemma_size_under(s.drop_last(), key);
        if s.last().key == key {
            assert(keys_of(s)[s.len() - 1] == key);
        }
        if keys_of(s.drop_last()).contains(key) {
            let i = choose|i: int| 0 <= i < s.len() - 1 && keys_of(s.drop_last())[i] == key;
            assert(keys_of(s)[i] == key);
        }
        if keys_of(s).contains(key) && s.last().key != key {
            let i = choose|i: int| 0 <= i < s.len() && keys_of(s)[i] == key;
            assert(keys_of(s.drop_last())[i] == key);
        }
    }
}

/// What is wrong with the copy of an object, where anything is.
pub open spec fn object_failure(
    o: ObjectView,
    local: Seq<ObjectView>,
    s3_uri: Seq<char>,
    snapshot_dir: Seq<char>,
) -> Option<report::FailureView> {
    let base = report::FailureView {
        dataset: key_dataset(o.key),
        phase: "validate_file_presence"@,
        rel_path: Some(o.key),
        source_path: Some(text::trim_end_char(s3_uri, '/') + "/"@ + o.key),
        output_path: Some(paths::join_of(snapshot_dir, o.key)),
        error_message: "missing local file"@,
        suggested_recovery: Some("rerun download"@),
    };
    match size_under(local, o.key) {
        None => Some(base),
        Some(n) => if n != o.size {
            Some(
                report::FailureView {
                    phase: "validate_file_size"@,
                    error_message: "size mismatch local="@ + text::decimal(n as nat) + " remote="@
                        + text::decimal(o.size as nat),
                    ..base
                },
            )
        } else {
            None
        },
    }
}

/// What is recorded of a file that has no object.
pub open spec fn extra_failure(key: Seq<char>, snapshot_dir: Seq<char>) -> report::FailureView {
    report::FailureView {
        dataset: key_dataset(key),
        phase: "validate_file_presence"@,
        rel_path: Some(key),
        source_path: None,
        output_path: Some(paths::join_of(snapshot_dir, key)),
        error_message: "unexpected local file"@,
        suggested_recovery: Some("rerun download with --delete"@),
    }
}

/// What is recorded of a file that cannot be read to its end.
pub open spec fn gzip_failure_of(
    p: Seq<char>,
    s3_uri: Seq<char>,
    snapshot_dir: Seq<char>,
    e: Seq<char>,
) -> report::FailureView {
    let rel = match paths::relative_to(p, snapshot_dir) {
        Some(r) => r,
        None => p,
    };
    report::FailureView {
        dataset: key_dataset(rel),
        phase: "validate_gzip_integrity"@,
        rel_path: Some(rel),
        source_path: Some(text::trim_end_char(s3_uri, '/') + "/"@ + rel),
        output_path: Some(p),
        error_message: e,
        suggested_recovery: Some("rerun download for this file"@),
    }
}

/// What is recorded of a file that cannot be read to its end.
pub fn gzip_failure(p: &str, s3_uri: &str, snapshot_dir: &str, e: String) -> (r: FailureEntry)
    ensures
        r@ == gzip_failure_of(p@, s3_uri@, snapshot_dir@, e@),
{
    let rel = match strip_base(p, snapshot_dir) {
        Some(r) => r,
        None => p.to_owned(),
    };
    let dataset = dataset_from_key(rel.as_str());
    let mut source = trimmed_end_of(s3_uri, '/');
    source.append("/");
    source.append(rel.as_str());
    failure(
        dataset.as_str(),
        "validate_gzip_integrity",
        Some(rel.as_str()),
        Some(source.as_str()),
        Some(p),
        e,
        Some("rerun download for this file".to_owned()),
    )
}

/// How many objects of a dataset were scanned, how many of them are right, and how
/// many things are wrong.
#[verifier::ext_equal]
pub struct Count {
    pub dataset: Seq<char>,
    pub scanned: int,
    pub succeeded: int,
    pub failed: int,
    pub skipped: int,
}

pub open spec fn counts_of(v: Seq<DatasetReportSummary>) -> Seq<Count> {
    Seq::new(
        v.len(),
        |i: int|
            Count {
                dataset: v[i].dataset@,
                scanned: v[i].items_scanned as int,
                succeeded: v[i].succeeded as int,
                failed: v[i].failed as int,
                skipped: v[i].skipped as int,
            },
    )
}

/// `c` with `d` added to it.
pub open spec fn plus(c: Count, d: Count) -> Count {
    Count {
        dataset: c.dataset,
        scanned: c.scanned + d.scanned,
        succeeded: c.succeeded + d.succeeded,
        failed: c.failed + d.failed,
        skipped: c.skipped + d.skipped,
    }
}

/// The counts, whose datasets ascend, with `d` added to those of its dataset.
pub open spec fn tally(s: Seq<Count>, d: Count) -> Seq<Count>
    decreases s.len(),
{
    if s.len() == 0 || text::text_lt(s.last().dataset, d.dataset) {
        s.push(d)
    } else if s.last().dataset == d.dataset {
        s.drop_last().push(plus(s.last(), d))
    } else {
        tally(s.drop_last(), d).push(s.last())
    }
}

proof fn lemma_tally_at(s: Seq<Count>, d: Count, j: int)
    requires
        0 <= j <= s.len(),
        forall|k: int|
            j <= k < s.len() ==> !text::text_lt((#[trigger] s[k]).dataset, d.dataset)
                && s[k].dataset != d.dataset,
        j > 0 ==> text::text_lt(s[j - 1].dataset, d.dataset) || s[j - 1].dataset == d.dataset,
    ensures
        j > 0 && s[j - 1].dataset == d.dataset ==> tally(s, d) == s.update(
            j - 1,
            plus(s[j - 1], d),
        ),
        !(j > 0 && s[j - 1].dataset == d.dataset) ==> tally(s, d) == s.insert(j, d),
    decreases s.len(),
{
    if j == s.len() {
        if j > 0 && s[j - 1].dataset == d.dataset {
            text::lemma_text_lt_irreflexive(d.dataset);
            assert(s.drop_last().push(plus(s.last(), d)) =~= s.update(j - 1, plus(s[j - 1], d)));
        } else {
            assert(s.push(d) =~= s.insert(j, d));
        }
    } else {
        let last = s[s.len() - 1];
        assert(!text::text_lt(last.dataset, d.dataset) && last.dataset != d.dataset);
        lemma_tally_at(s.drop_last(), d, j);
        if j > 0 && s[j - 1].dataset == d.dataset {
            assert(s.drop_last().update(j - 1, plus(s[j - 1], d)).push(s.last()) =~= s.update(
                j - 1,
                plus(s[j - 1], d),
            ));
        } else {
            assert(s.drop_last().insert(j, d).push(s.last()) =~= s.insert(j, d));
        }
    }
}

/// Whether every count can be raised `n` times.
pub open spec fn has_room(v: Seq<DatasetReportSummary>, n: int) -> bool {
    forall|i: int|
        0 <= i < v.len() ==> (#[trigger] v[i]).items_scanned + n <= u64::MAX && v[i].succeeded + n
            <= u64::MAX && v[i].failed + n <= u64::MAX
}

fn count_one(
    rows: &mut Vec<DatasetReportSummary>,
    dataset: &str,
    scanned: bool,
    ok: bool,
    wrong: bool,
)
    requires
        has_room(old(rows)@, 1),
    ensures
        counts_of(final(rows)@) == tally(
            counts_of(old(rows)@),
            one(dataset@, scanned, ok, wrong),
        ),
        forall|n: int| has_room(old(rows)@, n + 1) && 0 <= n < u64::MAX ==> has_room(
            final(rows)@,
            n,
        ),
{
    let ghost before = counts_of(rows@);
    let ghost r0 = rows@;
    let ghost d = one(dataset@, scanned, ok, wrong);
    let a: u64 = if scanned {
        1
    } else {
        0
    };
    let b: u64 = if ok {
        1
    } else {
        0
    };
    let c: u64 = if wrong {
        1
    } else {
        0
    };
    let mut j: usize = rows.len();
    while j > 0 && !str_before(rows[j - 1].dataset.as_str(), dataset) && !str_eq(
        rows[j - 1].dataset.as_str(),
        dataset,
    )
        invariant
            j <= rows@.len(),
            before == counts_of(rows@),
            d.dataset == dataset@,
            forall|k: int|
                j <= k < before.len() ==> !text::text_lt((#[trigger] before[k]).dataset, d.dataset)
                    && before[k].dataset != d.dataset,
        decreases j,
    {
        assert(before[j - 1].dataset == rows@[j - 1].dataset@);
        j -= 1;
    }
    proof {
        if j > 0 {
            assert(before[j - 1].dataset == rows@[j - 1].dataset@);
        }
        lemma_tally_at(before, d, j as int);
    }
    if j > 0 && str_eq(rows[j - 1].dataset.as_str(), dataset) {
        let k: usize = j - 1;
        let mut row = rows[k].clone();
        assert(r0[k as int].items_scanned + 1 <= u64::MAX);
        row.items_scanned = row.items_scanned + a;
        row.succeeded = row.succeeded + b;
        row.failed = row.failed + c;
        rows.set(k, row);
        assert(counts_of(rows@) =~= before.update(k as int, plus(before[k as int], d)));
        assert forall|n: int| has_room(r0, n + 1) && 0 <= n < u64::MAX implies has_room(rows@, n) by {
            assert forall|i: int| 0 <= i < rows@.len() implies (#[trigger] rows@[i]).items_scanned + n
                <= u64::MAX && rows@[i].succeeded + n <= u64::MAX && rows@[i].failed + n
                <= u64::MAX by {
                assert(r0[i].items_scanned + n + 1 <= u64::MAX);
            }
        }
    } else {
        let row = DatasetReportSummary {
            dataset: dataset.to_owned(),
            items_scanned: a,
            succeeded: b,
            failed: c,
            skipped: 0,
        };
        rows.insert(j, row);
        assert(counts_of(rows@) =~= before.insert(j as int, d));
        assert forall|n: int| has_room(r0, n + 1) && 0 <= n < u64::MAX implies has_room(rows@, n) by {
            assert forall|i: int| 0 <= i < rows@.len() implies (#[trigger] rows@[i]).items_scanned + n
                <= u64::MAX && rows@[i].succeeded + n <= u64::MAX && rows@[i].failed + n
                <= u64::MAX by {
                if i < j {
                    assert(rows@[i] == r0[i]);
                } else if i > j {
                    assert(rows@[i] == r0[i - 1]);
                }
            }
        }
    }
}

/// One more of what is said.
pub open spec fn one(dataset: Seq<char>, scanned: bool, ok: bool, wrong: bool) -> Count {
    Count {
        dataset,
        scanned: if scanned {
            1
        } else {
            0
        },
        succeeded: if ok {
            1
        } else {
            0
        },
        failed: if wrong {
            1
        } else {
            0
        },
        skipped: 0,
    }
}

/// What is wrong with the copies of the objects.
pub open spec fn object_failures(
    remote: Seq<ObjectView>,
    local: Seq<ObjectView>,
    s3_uri: Seq<char>,
    snapshot_dir: Seq<char>,
) -> Seq<report::FailureView>
    decreases remote.len(),
{
    if remote.len() == 0 {
        Seq::empty()
    } else {
        let rest = object_failures(remote.drop_last(), local, s3_uri, snapshot_dir);
        match object_failure(remote.last(), local, s3_uri, snapshot_dir) {
            Some(f) => rest.push(f),
            None => rest,
        }
    }
}

/// The counts of the objects.
pub open spec fn object_counts(remote: Seq<ObjectView>, local: Seq<ObjectView>) -> Seq<Count>
    decreases remote.len(),
{
    if remote.len() == 0 {
        Seq::empty()
    } else {
        let o = remote.last();
        let right = size_under(local, o.key) == Some(o.size);
        tally(
            object_counts(remote.drop_last(), local),
            one(key_dataset(o.key), true, right, !right),
        )
    }
}

/// What is recorded of the files that have no object.
pub open spec fn extra_failures(
    remote: Seq<ObjectView>,
    local: Seq<ObjectView>,
    snapshot_dir: Seq<char>,
) -> Seq<report::FailureView>
    decreases local.len(),
{
    if local.len() == 0 {
        Seq::empty()
    } else {
        let rest = extra_failures(remote, local.drop_last(), snapshot_dir);
        if size_under(remote, local.last().key) is None {
            rest.push(extra_failure(local.last().key, snapshot_dir))
        } else {
            rest
        }
    }
}

/// The counts with one more wrong thing for each of the failures.
pub open spec fn with_failures(counts: Seq<Count>, f: Seq<report::FailureView>) -> Seq<Count>
    decreases f.len(),
{
    if f.len() == 0 {
        counts
    } else {
        tally(with_failures(counts, f.drop_last()), one(f.last().dataset, false, false, true))
    }
}

/// The check of a download: the objects that there are, the files that were found,
/// each by key, and what the comparison has shown so far.
pub struct DownloadCheck {
    pub remote: Vec<RemoteObject>,
    pub local: Vec<RemoteObject>,
    /// How many of the objects have been compared.
    pub next: usize,
    /// How often anything has been counted.
    pub counted: u64,
    pub datasets: Vec<DatasetReportSummary>,
    pub failures: Vec<FailureEntry>,
}

impl DownloadCheck {
    /// Whether the numbers hold what has been counted.
    pub open spec fn wf(self) -> bool {
        &&& self.next <= self.remote@.len()
        &&& has_room(self.datasets@, u64::MAX - self.counted)
    }

    pub open spec fn objects(self) -> Seq<ObjectView> {
        object_views(self.remote@)
    }

    pub open spec fn files(self) -> Seq<ObjectView> {
        object_views(self.local@)
    }

    pub open spec fn found(self) -> Seq<report::FailureView> {
        report::failure_views(self.failures@)
    }

    pub open spec fn counts(self) -> Seq<Count> {
        counts_of(self.datasets@)
    }

    /// Whether the objects compared so far are accounted for, and nothing else is.
    pub open spec fn is_at(self, n: int, s3_uri: Seq<char>, snapshot_dir: Seq<char>) -> bool {
        &&& self.next == n
        &&& self.found() == object_failures(
            self.objects().take(n),
            self.files(),
            s3_uri,
            snapshot_dir,
        )
        &&& self.counts() == object_counts(self.objects().take(n), self.files())
    }

    /// Begins a check.
    pub fn start(remote: &Vec<RemoteObject>, local: &Vec<RemoteObject>) -> (r: Self)
        ensures
            r.wf(),
            r.objects() == keyed(object_views(remote@)),
            r.files() == keyed(object_views(local@)),
            r.next == 0,
            r.counted == 0,
            forall|s3_uri: Seq<char>, snapshot_dir: Seq<char>| #[trigger]
                r.is_at(0, s3_uri, snapshot_dir),
    {
        let r = DownloadCheck {
            remote: index_by_key(remote),
            local: index_by_key(local),
            next: 0,
            counted: 0,
            datasets: Vec::new(),
            failures: Vec::new(),
        };
        proof {
            assert(r.objects().take(0) =~= Seq::<ObjectView>::empty());
            assert(r.found() =~= Seq::<report::FailureView>::empty());
            assert(r.counts() =~= Seq::<Count>::empty());
        }
        r
    }

    /// Compares the next object with its file.
    pub fn compare_next(&mut self, s3_uri: &str, snapshot_dir: &str)
        requires
            old(self).wf(),
            old(self).is_at(old(self).next as int, s3_uri@, snapshot_dir@),
            old(self).next < old(self).remote@.len(),
            old(self).counted < u64::MAX,
        ensures
            final(self).wf(),
            final(self).remote == old(self).remote,
            final(self).local == old(self).local,
            final(self).counted == old(self).counted + 1,
            final(self).is_at(old(self).next + 1, s3_uri@, snapshot_dir@),
    {
        broadcast use report::lemma_failure_views_push;

        let ghost was = *self;
        let i: usize = self.next;
        let n: usize = self.remote.len();
        assert(i < n);
        let o = self.remote[i].clone();
        let ghost ov = o@;
        proof {
            let all = was.objects();
            assert(all.take(i + 1).drop_last() =~= all.take(i as int));
            assert(all.take(i + 1).last() == ov);
        }
        let dataset = dataset_from_key(o.key.as_str());
        let size = find_size(&self.local, o.key.as_str());
        let right = match size {
            Some(n) => n == o.size,
            None => false,
        };
        if !right {
            let mut source = trimmed_end_of(s3_uri, '/');
            source.append("/");
            source.append(o.key.as_str());
            let place = join_path(snapshot_dir, o.key.as_str());
            let (phase, message) = match size {
                None => ("validate_file_presence", "missing local file".to_owned()),
                Some(n) => {
                    let mut m = "size mismatch local=".to_owned();
                    push_decimal(&mut m, n as u128);
                    m.append(" remote=");
                    push_decimal(&mut m, o.size as u128);
                    ("validate_file_size", m)
                },
            };
            let f = failure(
                dataset.as_str(),
                phase,
                Some(o.key.as_str()),
                Some(source.as_str()),
                Some(place.as_str()),
                message,
                Some("rerun download".to_owned()),
            );
            assert(object_failure(ov, was.files(), s3_uri@, snapshot_dir@) == Some(f@));
            self.failures.push(f);
        }
        count_one(&mut self.datasets, dataset.as_str(), true, right, !right);
        self.counted = self.counted + 1;
        self.next = i + 1;
        proof {
            assert(has_room(was.datasets@, (u64::MAX - self.counted) + 1));
        }
    }

    /// Records the files that have no object.
    pub fn check_extra(&mut self, snapshot_dir: &str)
        requires
            old(self).wf(),
            old(self).counted + old(self).local@.len() <= u64::MAX,
        ensures
            final(self).wf(),
            final(self).remote == old(self).remote,
            final(self).local == old(self).local,
            final(self).next == old(self).next,
            final(self).counted <= old(self).counted + old(self).local@.len(),
            ({
                let extra = extra_failures(old(self).objects(), old(self).files(), snapshot_dir@);
                &&& final(self).found() == old(self).found() + extra
                &&& final(self).counts() == with_failures(old(self).counts(), extra)
            }),
    {
        let ghost was = *self;
        let ghost all = was.files();
        let mut i: usize = 0;
        proof {
            assert(all.take(0) =~= Seq::<ObjectView>::empty());
            assert(
                self.found() =~= was.found() + extra_failures(
                    was.objects(),
                    all.take(0),
                    snapshot_dir@,
                )
            );
        }
        while i < self.local.len()
            invariant
                i <= self.local@.len(),
                self.wf(),
                was.counted + was.local@.len() <= u64::MAX,
                self.counted <= was.counted + i,
                all == was.files(),
                self.remote == was.remote,
                self.local == was.local,
                self.next == was.next,
                self.found() == was.found() + extra_failures(
                    was.objects(),
                    all.take(i as int),
                    snapshot_dir@,
                ),
                self.counts() == with_failures(
                    was.counts(),
                    extra_failures(was.objects(), all.take(i as int), snapshot_dir@),
                ),
            decreases self.local@.len() - i,
        {
            broadcast use report::lemma_failure_views_push;

            let key = self.local[i].key.clone();
            proof {
                assert(all.take(i + 1).drop_last() =~= all.take(i as int));
                assert(all.take(i + 1).last() == self.local@[i as int]@);
            }
            if find_size(&self.remote, key.as_str()).is_none() {
                let ghost before = *self;
                let ghost ex = extra_failures(was.objects(), all.take(i as int), snapshot_dir@);
                let dataset = dataset_from_key(key.as_str());
                let place = join_path(snapshot_dir, key.as_str());
                let f = failure(
                    dataset.as_str(),
                    "validate_file_presence",
                    Some(key.as_str()),
                    None,
                    Some(place.as_str()),
                    "unexpected local file".to_owned(),
                    Some("rerun download with --delete".to_owned()),
                );
                let ghost fv = f@;
                assert(fv == extra_failure(key@, snapshot_dir@));
                self.failures.push(f);
                count_one(&mut self.datasets, dataset.as_str(), false, false, true);
                self.counted = self.counted + 1;
                proof {
                    assert(has_room(before.datasets@, (u64::MAX - self.counted) + 1));
                    assert(ex.push(fv).drop_last() =~= ex);
                    assert(self.found() =~= was.found() + ex.push(fv));
                }
            }
            i += 1;
        }
        assert(all.take(i as int) =~= all);
    }

    /// Records failures that were found otherwise.
    pub fn record(&mut self, found: Vec<FailureEntry>)
        requires
            old(self).wf(),
            old(self).counted + found@.len() <= u64::MAX,
        ensures
            final(self).wf(),
            final(self).remote == old(self).remote,
            final(self).local == old(self).local,
            final(self).next == old(self).next,
            final(self).counted == old(self).counted + found@.len(),
            final(self).failures@ == old(self).failures@ + found@,
            final(self).counts() == with_failures(
                old(self).counts(),
                report::failure_views(found@),
            ),
    {
        let ghost was = *self;
        let ghost all = report::failure_views(found@);
        let mut found = found;
        let mut i: usize = 0;
        assert(all.take(0) =~= Seq::<report::FailureView>::empty());
        while i < found.len()
            invariant
                i <= found@.len(),
                self.wf(),
                was.counted + found@.len() <= u64::MAX,
                self.counted == was.counted + i,
                all == report::failure_views(found@),
                self.remote == was.remote,
                self.local == was.local,
                self.next == was.next,
                self.failures == was.failures,
                self.counts() == with_failures(was.counts(), all.take(i as int)),
            decreases found@.len() - i,
        {
            let ghost before = *self;
            proof {
                assert(all.take(i + 1).drop_last() =~= all.take(i as int));
                assert(all.take(i + 1).last() == found@[i as int]@);
            }
            count_one(&mut self.datasets, found[i].dataset.as_str(), false, false, true);
            self.counted = self.counted + 1;
            i += 1;
            assert(has_room(before.datasets@, (u64::MAX - self.counted) + 1));
        }
        assert(all.take(i as int) =~= all);
        self.failures.append(&mut found);
    }

    /// Writes what has been shown so far into the report.
    pub fn fill_report(&self, report: &mut RunReport)
        ensures
            *final(report) == (RunReport {
                datasets: final(report).datasets,
                failures: final(report).failures,
                ..*old(report)
            }),
            final(report).datasets@ == self.datasets@,
            final(report).failures@ == self.failures@,
    {
        let mut datasets: Vec<DatasetReportSummary> = Vec::new();
        let mut i: usize = 0;
        while i < self.datasets.len()
            invariant
                i <= self.datasets@.len(),
                datasets@ == self.datasets@.take(i as int),
            decreases self.datasets@.len() - i,
        {
            datasets.push(self.datasets[i].clone());
            i += 1;
            assert(self.datasets@.take(i as int) =~= self.datasets@.take(i - 1).push(
                self.datasets@[i - 1],
            ));
        }
        assert(self.datasets@.take(i as int) =~= self.datasets@);
        report.datasets = datasets;
        report.failures = copy_failures(&self.failures);
    }
}

/// A download passes exactly if every object has a file of its size.
pub proof fn law_complete_download_passes(
    remote: Seq<ObjectView>,
    local: Seq<ObjectView>,
    s3_uri: Seq<char>,
    snapshot_dir: Seq<char>,
)
    ensures
        object_failures(remote, local, s3_uri, snapshot_dir).len() == 0 <==> forall|i: int|
            0 <= i < remote.len() ==> size_under(local, (#[trigger] remote[i]).key) == Some(
                remote[i].size,
            ),
    decreases remote.len(),
{
    if remote.len() > 0 {
        let front = remote.drop_last();
        law_complete_download_passes(front, local, s3_uri, snapshot_dir);
        let last = remote.len() - 1;
        if forall|i: int|
            0 <= i < remote.len() ==> size_under(local, (#[trigger] remote[i]).key) == Some(
                remote[i].size,
            ) {
            assert(size_under(local, remote[last].key) == Some(remote[last].size));
            assert forall|i: int| 0 <= i < front.len() implies size_under(
                local,
                (#[trigger] front[i]).key,
            ) == Some(front[i].size) by {
                assert(front[i] == remote[i]);
            }
        }
        if object_failures(remote, local, s3_uri, snapshot_dir).len() == 0 {
            assert forall|i: int| 0 <= i < remote.len() implies size_under(
                local,
                (#[trigger] remote[i]).key,
            ) == Some(remote[i].size) by {
                if i < last {
                    assert(front[i] == remote[i]);
                }
            }
        }
    }
}

/// A strict check passes exactly if no file is there that has no object.
pub proof fn law_no_extra_files(
    remote: Seq<ObjectView>,
    local: Seq<ObjectView>,
    snapshot_dir: Seq<char>,
)
    ensures
        extra_failures(remote, local, snapshot_dir).len() == 0 <==> forall|i: int|
            0 <= i < local.len() ==> keys_of(remote).contains((#[trigger] local[i]).key),
    decreases local.len(),
{
    if local.len() > 0 {
        let front = local.drop_last();
        let last = local.len() - 1;
        law_no_extra_files(remote, front, snapshot_dir);
        lemma_size_under(remote, local[last].key);
        if forall|i: int|
            0 <= i < local.len() ==> keys_of(remote).contains((#[trigger] local[i]).key) {
            assert(keys_of(remote).contains(local[last].key));
            assert forall|i: int| 0 <= i < front.len() implies keys_of(remote).contains(
                (#[trigger] front[i]).key,
            ) by {
                assert(front[i] == local[i]);
            }
        }
        if extra_failures(remote, local, snapshot_dir).len() == 0 {
            assert forall|i: int| 0 <= i < local.len() implies keys_of(remote).contains(
                (#[trigger] local[i]).key,
            ) by {
                if i < last {
                    assert(front[i] == local[i]);
                }
            }
        }
    }
}

/// Putting objects in the order of their keys loses no key, adds none, and lists
/// each once.
pub proof fn law_keyed(s: Seq<ObjectView>)
    ensures
        order::is_set_of(keys_of(keyed(s)), keys_of(s)),
    decreases s.len(),
{
    if s.len() > 0 {
        let front = s.drop_last();
        law_keyed(front);
        lemma_put_keys(keyed(front), s.last());
        let r = keys_of(keyed(s));
        assert forall|x: Seq<char>| #[trigger] r.contains(x) <==> keys_of(s).contains(x) by {
            assert(keys_of(keyed(front)).contains(x) <==> keys_of(front).contains(x));
            if keys_of(front).contains(x) {
                let i = choose|i: int| 0 <= i < front.len() && keys_of(front)[i] == x;
                assert(keys_of(s)[i] == x);
            }
            if keys_of(s).contains(x) && x != s.last().key {
                let i = choose|i: int| 0 <= i < s.len() && keys_of(s)[i] == x;
                assert(keys_of(front)[i] == x);
            }
            assert(keys_of(s)[s.len() - 1] == s.last().key);
        }
    } else {
        assert(keys_of(keyed(s)) =~= keys_of(s));
    }
}

proof fn lemma_put_keys(s: Seq<ObjectView>, x: ObjectView)
    requires
        order::strictly_ascending(keys_of(s)),
    ensures
        order::strictly_ascending(keys_of(put(s, x))),
        forall|k: Seq<char>| #[trigger]
            keys_of(put(s, x)).contains(k) <==> k == x.key || keys_of(s).contains(k),
    decreases s.len(),
{
    let r = put(s, x);
    let ks = keys_of(s);
    let kr = keys_of(r);
    if s.len() == 0 || text::text_lt(s.last().key, x.key) {
        assert(kr =~= ks.push(x.key));
        assert forall|i: int, j: int| 0 <= i < j < kr.len() implies text::text_lt(
            #[trigger] kr[i],
            #[trigger] kr[j],
        ) by {
            if j == s.len() && i < s.len() - 1 {
                assert(text::text_lt(ks[i], ks[s.len() - 1]));
                text::lemma_text_lt_transitive(ks[i], ks[s.len() - 1], x.key);
            } else if j < s.len() {
                assert(text::text_lt(ks[i], ks[j]));
            }
        }
        assert forall|k: Seq<char>| #[trigger] kr.contains(k) <==> k == x.key || ks.contains(k) by {
            if ks.contains(k) {
                let i = choose|i: int| 0 <= i < ks.len() && ks[i] == k;
                assert(kr[i] == k);
            }
            assert(kr[s.len() as int] == x.key);
        }
    } else if s.last().key == x.key {
        assert(kr =~= ks);
        assert(ks[s.len() - 1] == x.key);
    } else {
        let front = s.drop_last();
        let kf = keys_of(front);
        assert(kf =~= ks.drop_last());
        assert forall|i: int, j: int| 0 <= i < j < kf.len() implies text::text_lt(
            #[trigger] kf[i],
            #[trigger] kf[j],
        ) by {
            assert(text::text_lt(ks[i], ks[j]));
        }
        lemma_put_keys(front, x);
        let kp = keys_of(put(front, x));
        assert(kr =~= kp.push(s.last().key));
        text::lemma_text_lt_total(s.last().key, x.key);
        assert forall|i: int, j: int| 0 <= i < j < kr.len() implies text::text_lt(
            #[trigger] kr[i],
            #[trigger] kr[j],
        ) by {
            if j == kp.len() {
                assert(kp.contains(kp[i]));
                if kp[i] != x.key {
                    assert(kf.contains(kp[i]));
                    let m = choose|m: int| 0 <= m < kf.len() && kf[m] == kp[i];
                    assert(text::text_lt(ks[m], ks[s.len() - 1]));
                }
            } else {
                assert(text::text_lt(kp[i], kp[j]));
            }
        }
        assert forall|k: Seq<char>| #[trigger] kr.contains(k) <==> k == x.key || ks.contains(k) by {
            assert(kp.contains(k) <==> k == x.key || kf.contains(k));
            if kp.contains(k) {
                let i = choose|i: int| 0 <= i < kp.len() && kp[i] == k;
                assert(kr[i] == k);
            }
            if kf.contains(k) {
                let i = choose|i: int| 0 <= i < kf.len() && kf[i] == k;
                assert(ks[i] == k);
            }
            assert(ks[s.len() - 1] == s.last().key);
            assert(kr[kp.len() as int] == s.last().key);
            if ks.contains(k) {
                let i = choose|i: int| 0 <= i < ks.len() && ks[i] == k;
                if i < kf.len() {
                    assert(kf[i] == k);
                }
            }
            if kr.contains(k) {
                let i = choose|i: int| 0 <= i < kr.len() && kr[i] == k;
                if i < kp.len() {
                    assert(kp[i] == k);
                }
            }
        }
    }
}

/// The size of all objects together.
pub open spec fn total_bytes(s: Seq<ObjectView>) -> int
    decreases s.len(),
{
    if s.len() == 0 {
        0
    } else {
        total_bytes(s.drop_last()) + s.last().size
    }
}

proof fn lemma_total_bytes_mono(s: Seq<ObjectView>, i: int)
    requires
        0 <= i <= s.len(),
    ensures
        0 <= total_bytes(s.take(i)) <= total_bytes(s),
    decreases s.len(), i,
{
    if i == s.len() {
        assert(s.take(i) =~= s);
        if i > 0 {
            lemma_total_bytes_mono(s.drop_last(), i - 1);
        }
    } else {
        lemma_total_bytes_mono(s.drop_last(), i);
        assert(s.drop_last().take(i) =~= s.take(i));
    }
}

/// The size of all objects together.
pub fn remote_total_bytes(v: &Vec<RemoteObject>) -> (r: u64)
    requires
        total_bytes(object_views(v@)) <= u64::MAX,
    ensures
        r == total_bytes(object_views(v@)),
{
    let ghost all = object_views(v@);
    let mut total: u64 = 0;
    let mut i: usize = 0;
    while i < v.len()
        invariant
            i <= v@.len(),
            all == object_views(v@),
            total_bytes(all) <= u64::MAX,
            total == total_bytes(all.take(i as int)),
        decreases v@.len() - i,
    {
        proof {
            assert(all.take(i + 1).drop_last() =~= all.take(i as int));
            lemma_total_bytes_mono(all, i + 1);
        }
        total = total + v[i].size;
        i += 1;
    }
    assert(all.take(i as int) =~= all);
    total
}

/// The space that a download asks for: a tenth more than there is to download.
pub open spec fn required_space(total: u64) -> int {
    plan::min_int(total * 11, u64::MAX as int) / 10
}

/// The space that a download asks for.
pub fn required_bytes(total: u64) -> (r: u64)
    ensures
        r == required_space(total),
{
    let b: u128 = total as u128 * 11;
    if b <= u64::MAX as u128 {
        (b / 10) as u64
    } else {
        u64::MAX / 10
    }
}

pub open spec fn download_failure(
    q: SyncRequest,
    phase: Seq<char>,
    e: Seq<char>,
    recovery: Seq<char>,
) -> report::FailureView {
    report::FailureView {
        dataset: q.dataset@,
        phase,
        rel_path: None,
        source_path: Some(q.s3_uri@),
        output_path: Some(q.snapshot_dir@),
        error_message: e,
        suggested_recovery: Some(recovery),
    }
}

fn fail_download(q: &SyncRequest, phase: &str, e: String, recovery: &str) -> (r: FailureEntry)
    ensures
        r@ == download_failure(*q, phase@, e@, recovery@),
{
    failure(
        q.dataset.as_str(),
        phase,
        None,
        Some(q.s3_uri.as_str()),
        Some(q.snapshot_dir.as_str()),
        e,
        Some(recovery.to_owned()),
    )
}

/// What is recorded where the objects cannot be listed before a download.
pub fn listing_failed(q: &SyncRequest, e: String) -> (r: FailureEntry)
    ensures
        r@ == download_failure(
            *q,
            "download_manifest_fetch"@,
            e@,
            "check aws CLI/network/endpoint settings"@,
        ),
{
    fail_download(q, "download_manifest_fetch", e, "check aws CLI/network/endpoint settings")
}

/// What is recorded where the objects cannot be listed before a check.
pub fn check_listing_failed(q: &SyncRequest, e: String) -> (r: FailureEntry)
    ensures
        r@ == download_failure(
            *q,
            "validate_manifest_fetch"@,
            e@,
            "check aws CLI credentials/network/endpoint"@,
        ),
{
    fail_download(q, "validate_manifest_fetch", e, "check aws CLI credentials/network/endpoint")
}

/// What is recorded where the download itself fails.
pub fn sync_failed(q: &SyncRequest, e: String) -> (r: FailureEntry)
    ensures
        r@ == download_failure(
            *q,
            "download_sync"@,
            e@,
            "check aws CLI/network/endpoint settings"@,
        ),
{
    fail_download(q, "download_sync", e, "check aws CLI/network/endpoint settings")
}

pub open spec fn gib_text(bytes: int) -> Seq<char> {
    text::decimal((bytes / 1_073_741_824) as nat) + " GiB"@
}

fn push_gib(out: &mut String, bytes: u64)
    ensures
        final(out)@ == old(out)@ + gib_text(bytes as int),
{
    let ghost before = out@;
    push_decimal(out, bytes_to_gib(bytes) as u128);
    out.append(" GiB");
    assert(out@ =~= before + gib_text(bytes as int));
}

/// What stops a download for want of space.
pub open spec fn space_text(snapshot_dir: Seq<char>, free: u64, total: u64) -> Seq<char> {
    "[download] Not enough disk space.\n  Location : "@ + snapshot_dir + "\n  Available: "@ + gib_text(
        free as int,
    ) + "\n  Required : "@ + gib_text(required_space(total)) + " (remote "@ + gib_text(total as int)
        + " + 10% buffer)\n\nTo proceed anyway, either:\n  - Set skip_disk_check: true under the download: section in your config file\n  - Pass --skip-disk-check when running the download or all command"@
}

/// Checks the free space before a download; `total` is the size of what there is.
pub fn check_download_space(q: &SyncRequest, skip_disk_check: bool, free: u64, total: u64) -> (r: Option<
    convert::NoSpace,
>)
    ensures
        r is Some <==> !skip_disk_check && free < required_space(total),
        r matches Some(n) ==> n.failure@ == download_failure(
            *q,
            "download_disk_space"@,
            "insufficient free disk space: available="@ + gib_text(free as int) + " required="@
                + gib_text(required_space(total)),
            "Free up disk space, or set skip_disk_check: true under download: in your config file, or pass --skip-disk-check to the download/all command."@,
        ) && n.message@ == space_text(q.snapshot_dir@, free, total),
{
    let required: u64 = required_bytes(total);
    if skip_disk_check || free >= required {
        return None;
    }
    let mut e = "insufficient free disk space: available=".to_owned();
    push_gib(&mut e, free);
    e.append(" required=");
    push_gib(&mut e, required);
    let f = fail_download(
        q,
        "download_disk_space",
        e,
        "Free up disk space, or set skip_disk_check: true under download: in your config file, or pass --skip-disk-check to the download/all command.",
    );
    let mut m = "[download] Not enough disk space.\n  Location : ".to_owned();
    m.append(q.snapshot_dir.as_str());
    m.append("\n  Available: ");
    push_gib(&mut m, free);
    m.append("\n  Required : ");
    push_gib(&mut m, required);
    m.append(" (remote ");
    push_gib(&mut m, total);
    m.append(
        " + 10% buffer)\n\nTo proceed anyway, either:\n  - Set skip_disk_check: true under the download: section in your config file\n  - Pass --skip-disk-check when running the download or all command",
    );
    Some(convert::NoSpace { failure: f, message: m })
}

/// What the report of a download says when it went through: it counts as one
/// item.
pub fn downloaded(dataset: &str) -> (r: DatasetReportSummary)
    ensures
        r.dataset@ == dataset@,
        r.items_scanned == 1,
        r.succeeded == 1,
        r.failed == 0,
        r.skipped == 0,
{
    DatasetReportSummary {
        dataset: dataset.to_owned(),
        items_scanned: 1,
        succeeded: 1,
        failed: 0,
        skipped: 0,
    }
}

pub open spec fn bool_text(b: bool) -> Seq<char> {
    if b {
        "true"@
    } else {
        "false"@
    }
}

/// A truth value in a word.
pub fn bool_text_of(b: bool) -> (r: String)
    ensures
        r@ == bool_text(b),
{
    if b {
        "true".to_owned()
    } else {
        "false".to_owned()
    }
}

/// The settings that the report of a download records.
pub fn download_args(q: &SyncRequest, a: &AwsAccess, state_flush_every: usize) -> (r: Vec<ReportArg>)
    ensures
        convert::arg_views(r@) == seq![
            ("snapshot_dir"@, q.snapshot_dir@),
            ("s3_uri"@, q.s3_uri@),
            ("dataset"@, q.dataset@),
            ("no_sign_request"@, bool_text(a.is_unsigned())),
            ("delete_files"@, bool_text(q.is_deleting())),
            ("state_flush_every"@, text::decimal(state_flush_every as nat)),
        ],
{
    let mut v: Vec<ReportArg> = Vec::new();
    let unsigned = bool_text_of(a.unsigned());
    let deleting = bool_text_of(q.deleting());
    let flush = decimal_string(state_flush_every as u128);
    v.push(report_arg("snapshot_dir", q.snapshot_dir.as_str()));
    v.push(report_arg("s3_uri", q.s3_uri.as_str()));
    v.push(report_arg("dataset", q.dataset.as_str()));
    v.push(report_arg("no_sign_request", unsigned.as_str()));
    v.push(report_arg("delete_files", deleting.as_str()));
    v.push(report_arg("state_flush_every", flush.as_str()));
    v
}

/// The settings that the report of the check of a download records.
pub fn verify_download_args(
    q: &SyncRequest,
    check_extra: bool,
    workers: usize,
    state_flush_every: usize,
) -> (r: Vec<ReportArg>)
    ensures
        convert::arg_views(r@) == seq![
            ("snapshot_dir"@, q.snapshot_dir@),
            ("s3_uri"@, q.s3_uri@),
            ("dataset"@, q.dataset@),
            ("check_extra"@, bool_text(check_extra)),
            ("workers"@, text::decimal(workers as nat)),
            ("state_flush_every"@, text::decimal(state_flush_every as nat)),
        ],
{
    let mut v: Vec<ReportArg> = Vec::new();
    let extra = bool_text_of(check_extra);
    let count = decimal_string(workers as u128);
    let flush = decimal_string(state_flush_every as u128);
    v.push(report_arg("snapshot_dir", q.snapshot_dir.as_str()));
    v.push(report_arg("s3_uri", q.s3_uri.as_str()));
    v.push(report_arg("dataset", q.dataset.as_str()));
    v.push(report_arg("check_extra", extra.as_str()));
    v.push(report_arg("workers", count.as_str()));
    v.push(report_arg("state_flush_every", flush.as_str()));
    v
}

/// The address of a bucket is taken apart into the bucket and what stands behind it,
/// whatever slashes stand around that; an address of another kind or without a bucket
/// is refused.
pub proof fn law_bucket_and_prefix(bucket: Seq<char>, prefix: Seq<char>, i: nat, j: nat, uri: Seq<char>)
    requires
        bucket.len() > 0,
        !bucket.contains('/'),
        prefix.len() > 0 ==> prefix[0] != '/' && prefix.last() != '/',
    ensures
        s3_parts("s3://"@ + bucket) == Ok::<(Seq<char>, Seq<char>), Seq<char>>(
            (bucket, Seq::empty()),
        ),
        s3_parts(
            "s3://"@ + bucket + seq!['/'] + (text::run_of('/', i) + prefix + text::run_of('/', j)),
        ) == Ok::<(Seq<char>, Seq<char>), Seq<char>>((bucket, prefix)),
        s3_parts("s3:///"@ + prefix) is Err,
        !text::has_prefix(uri, "s3://"@) ==> s3_parts(uri) is Err,
{
    reveal_strlit("s3://");
    reveal_strlit("s3:///");
    let scheme = "s3://"@;
    let rest = text::run_of('/', i) + prefix + text::run_of('/', j);
    text::law_parted(bucket, '/', rest);
    text::law_trimmed_of_a_character(prefix, '/', i, j);
    let whole = scheme + bucket + seq!['/'] + rest;
    assert(whole.take(5) =~= scheme);
    assert(whole.skip(5) =~= bucket + seq!['/'] + rest);
    assert((scheme + bucket).take(5) =~= scheme);
    assert((scheme + bucket).skip(5) =~= bucket);
    let bare = "s3:///"@ + prefix;
    assert(bare.take(5) =~= scheme);
    assert(bare.skip(5)[0] == '/');
    assert(text::after_char(bucket, '/') =~= Seq::<char>::empty());
}

/// Each setting of the access that is made is handed on behind its flag, in one order,
/// and requests go out unsigned where that is asked for and a signature is not.
pub proof fn law_access_is_handed_on(a: AwsAccess)
    ensures
        ({
            let endpoint = if a.endpoint_url is Some { 2int } else { 0 };
            let region = if a.region is Some { 2int } else { 0 };
            let profile = if a.profile_name is Some { 2int } else { 0 };
            let f = access_flags(a);
            &&& a.endpoint_url matches Some(v) ==> f[0] == "--endpoint-url"@ && f[1] == v@
            &&& a.region matches Some(v) ==> f[endpoint] == "--region"@ && f[endpoint + 1] == v@
            &&& a.profile_name matches Some(v) ==> f[endpoint + region] == "--profile"@ && f[endpoint
                + region + 1] == v@
            &&& a.no_sign_request && !a.signed ==> f.len() == endpoint + region + profile + 1
                && f.last() == "--no-sign-request"@
            &&& !a.no_sign_request || a.signed ==> f.len() == endpoint + region + profile
        }),
{
}

/// A download copies a dataset from below the bucket to the directory of its sources,
/// with the access that was set; it deletes only where that is asked for and not
/// forbidden.
pub proof fn law_sync(q: SyncRequest, a: AwsAccess)
    ensures
        ({
            let c = sync_command(q, a);
            let n = if q.delete_files && !q.no_delete { 3int } else { 2 };
            &&& c[0] == "s3"@ && c[1] == "sync"@
            &&& n == 3 ==> c[2] == "--delete"@
            &&& c[n] == sync_source(q.s3_uri@, q.dataset@)
            &&& c[n + 1] == sync_target(q.snapshot_dir@, q.dataset@)
            &&& c.skip(n + 2) == access_flags(a)
        }),
{
    let c = sync_command(q, a);
    let n = if q.delete_files && !q.no_delete { 3int } else { 2 };
    assert(c.skip(n + 2) =~= access_flags(a));
}

/// What is copied, what is listed and where it is put speak of the same objects: the
/// keys of a dataset begin with `data/` and its name, below the bucket's prefix, and
/// its files stand in the same place below the snapshot.
pub proof fn law_source_prefix_and_target_agree(
    base: Seq<char>,
    snapshot_dir: Seq<char>,
    dataset: Seq<char>,
    slashes: nat,
)
    requires
        dataset != "all"@,
        base.len() > 0,
        base[0] != '/',
        base.last() != '/',
    ensures
        sync_source(base + text::run_of('/', slashes), dataset) == base + "/data/"@ + dataset + "/"@,
        sync_source(base + text::run_of('/', slashes), "all"@) == base,
        listing_prefix_of(base + text::run_of('/', slashes), dataset) == base + "/data/"@ + dataset
            + "/"@,
        listing_prefix_of(base + text::run_of('/', slashes), "all"@) == base + "/"@,
        listing_prefix_of(Seq::empty(), dataset) == "data/"@ + dataset + "/"@,
        listing_prefix_of(Seq::empty(), "all"@) == Seq::<char>::empty(),
        sync_target(snapshot_dir, dataset) == paths::join_of(
            paths::join_of(snapshot_dir, "data"@),
            dataset,
        ),
        sync_target(snapshot_dir, "all"@) == snapshot_dir,
        local_root_of(snapshot_dir, dataset) == sync_target(snapshot_dir, dataset),
{
    reveal_strlit("");
    reveal_strlit("/");
    reveal_strlit("data/");
    reveal_strlit("/data/");
    text::law_trimmed_of_a_character(base, '/', 0, slashes);
    assert(base + "/"@ + ("data/"@ + dataset + "/"@) =~= base + "/data/"@ + dataset + "/"@);
    assert(""@ =~= Seq::<char>::empty());
}

/// A key belongs to the dataset whose name stands behind `data/`, whatever slashes it
/// begins with; one below another directory belongs to the snapshot itself.
pub proof fn law_dataset_of_a_key(dataset: Seq<char>, rest: Seq<char>, top: Seq<char>, slashes: nat)
    requires
        !dataset.contains('/'),
        top.len() > 0,
        !top.contains('/'),
        top != "data"@,
    ensures
        key_dataset(text::run_of('/', slashes) + "data/"@ + dataset + "/"@ + rest) == dataset,
        key_dataset(text::run_of('/', slashes) + "data/"@ + dataset) == dataset,
        key_dataset(top + "/"@ + rest) == "snapshot"@,
        key_dataset(top) == "snapshot"@,
        key_dataset("data"@) == "unknown"@,
{
    reveal_strlit("/");
    reveal_strlit("data");
    reveal_strlit("data/");
    let data = "data"@;
    assert(!data.contains('/'));
    let inner = dataset + seq!['/'] + rest;
    let k = data + seq!['/'] + inner;
    let whole = text::run_of('/', slashes) + "data/"@ + dataset + "/"@ + rest;
    assert(whole =~= text::run_of('/', slashes) + k);
    text::lemma_trimmed_start(k, '/', slashes);
    text::law_parted(data, '/', inner);
    text::law_parted(dataset, '/', rest);
    assert(k[4] == '/');
    let short = data + seq!['/'] + dataset;
    assert(text::run_of('/', slashes) + "data/"@ + dataset =~= text::run_of('/', slashes) + short);
    text::lemma_trimmed_start(short, '/', slashes);
    text::law_parted(data, '/', dataset);
    assert(short[4] == '/');
    let other = top + seq!['/'] + rest;
    assert(top.contains(top[0]));
    assert(top + "/"@ + rest =~= other);
    assert(other[0] == top[0]);
    text::law_parted(top, '/', rest);
    assert(text::trim_start_char(other, '/') == other);
    assert(text::trim_start_char(top, '/') == top);
    assert(text::trim_start_char(data, '/') == data);
}

/// A file below the snapshot has as its key its place there.
pub proof fn law_key_of_a_file(snapshot_dir: Seq<char>, rel: Seq<char>)
    requires
        !paths::is_rooted(rel),
        paths::is_tidy(rel),
        rel.len() > 0,
        paths::body_start(rel) == 0,
        !rel.contains('\\'),
    ensures
        local_key(snapshot_dir, paths::join_of(snapshot_dir, rel)) == rel,
{
    paths::law_joined_path_is_below_its_base(snapshot_dir, rel);
    text::law_replacing_what_is_not_there(rel, '\\', "/"@);
}

/// What is known of a file of the snapshot is its place, its size and when it was
/// changed; the files that the download keeps for itself are no part of the snapshot.
pub proof fn law_files_of_the_snapshot(
    snapshot_dir: Seq<char>,
    v: Seq<(Seq<char>, u64, Option<u64>)>,
    f: (Seq<char>, u64, Option<u64>),
)
    ensures
        local_objects(snapshot_dir, Seq::empty()).len() == 0,
        paths::components(f.0).contains(".openalex_download_metadata"@) ==> local_objects(
            snapshot_dir,
            v.push(f),
        ) == local_objects(snapshot_dir, v),
        !paths::components(f.0).contains(".openalex_download_metadata"@) ==> {
            let all = local_objects(snapshot_dir, v.push(f));
            &&& all.drop_last() == local_objects(snapshot_dir, v)
            &&& all.len() == local_objects(snapshot_dir, v).len() + 1
            &&& all.last().key == local_key(snapshot_dir, f.0)
            &&& all.last().size == f.1
            &&& f.2 matches Some(n) ==> all.last().last_modified == text::decimal(n as nat)
            &&& f.2 is None ==> all.last().last_modified.len() == 0
        },
{
    assert(v.push(f).drop_last() =~= v);
    if !paths::components(f.0).contains(".openalex_download_metadata"@) {
        assert(local_objects(snapshot_dir, v.push(f)).drop_last() =~= local_objects(snapshot_dir, v));
    }
}

/// An object is what its entry says; an entry without a key is none, and what else is
/// missing counts as nothing.
pub proof fn law_entries(key: Seq<char>, size: u64, etag: Seq<char>, time: Seq<char>)
    ensures
        key.len() > 0 ==> object_from(Some(key), Some(size), Some(etag), Some(time)) == Some(
            ObjectView { key, size, etag, last_modified: time },
        ),
        key.len() > 0 ==> object_from(Some(key), None, None, None) == Some(
            ObjectView { key, size: 0, etag: Seq::empty(), last_modified: Seq::empty() },
        ),
        object_from(None, Some(size), Some(etag), Some(time)) is None,
        object_from(Some(Seq::empty()), Some(size), Some(etag), Some(time)) is None,
{
}

/// There is a next page exactly where a page says that it is not the last, and it is
/// the one that the page names.
pub proof fn law_next_page(token: Option<Seq<char>>)
    ensures
        next_page(Some(true), token) == token,
        next_page(Some(false), token) is None,
        next_page(None, token) is None,
{
}

/// The objects of a listing take together what each takes, and one more entry that
/// holds an object adds that object behind the others.
pub proof fn law_sizes_add_up(s: Seq<ObjectView>, o: ObjectView)
    ensures
        total_bytes(Seq::empty()) == 0,
        total_bytes(s.push(o)) == total_bytes(s) + o.size,
{
    assert(s.push(o).drop_last() =~= s);
}

/// The size under a key is that of the last object of that key.
pub proof fn law_last_object_of_a_key_counts(s: Seq<ObjectView>, o: ObjectView, key: Seq<char>)
    ensures
        size_under(Seq::empty(), key) is None,
        size_under(s.push(o), o.key) == Some(o.size),
        key != o.key ==> size_under(s.push(o), key) == size_under(s, key),
{
    assert(s.push(o).drop_last() =~= s);
}

/// An object fails where no file stands for it or one of another size does, and the
/// failure says which; it names the object, its dataset and both its places.
pub proof fn law_failure_of_an_object(
    o: ObjectView,
    local: Seq<ObjectView>,
    s3_uri: Seq<char>,
    snapshot_dir: Seq<char>,
)
    ensures
        object_failure(o, local, s3_uri, snapshot_dir) is None <==> size_under(local, o.key) == Some(
            o.size,
        ),
        object_failure(o, local, s3_uri, snapshot_dir) matches Some(f) ==> {
            &&& f.dataset == key_dataset(o.key) && f.rel_path == Some(o.key)
            &&& f.source_path == Some(text::trim_end_char(s3_uri, '/') + "/"@ + o.key)
            &&& f.output_path == Some(paths::join_of(snapshot_dir, o.key))
            &&& size_under(local, o.key) is None ==> f.phase == "validate_file_presence"@
                && f.error_message == "missing local file"@
            &&& size_under(local, o.key) matches Some(n) ==> f.phase == "validate_file_size"@
                && f.error_message == "size mismatch local="@ + text::decimal(n as nat)
                + " remote="@ + text::decimal(o.size as nat)
        },
{
}

/// One object more adds its failure, where it has one, behind the others.
pub proof fn law_failures_of_objects(
    remote: Seq<ObjectView>,
    o: ObjectView,
    local: Seq<ObjectView>,
    s3_uri: Seq<char>,
    snapshot_dir: Seq<char>,
)
    ensures
        ({
            let before = object_failures(remote, local, s3_uri, snapshot_dir);
            let after = object_failures(remote.push(o), local, s3_uri, snapshot_dir);
            &&& object_failure(o, local, s3_uri, snapshot_dir) is None ==> after == before
            &&& object_failure(o, local, s3_uri, snapshot_dir) matches Some(f) ==> after
                == before.push(f)
        }),
{
    assert(remote.push(o).drop_last() =~= remote);
}

/// One file more adds a failure exactly where no object has its key, and the failure
/// names the file.
pub proof fn law_failures_of_extra_files(
    remote: Seq<ObjectView>,
    local: Seq<ObjectView>,
    f: ObjectView,
    snapshot_dir: Seq<char>,
)
    ensures
        ({
            let before = extra_failures(remote, local, snapshot_dir);
            let after = extra_failures(remote, local.push(f), snapshot_dir);
            &&& size_under(remote, f.key) is Some ==> after == before
            &&& size_under(remote, f.key) is None ==> after.len() == before.len() + 1
                && after.drop_last() == before && after.last().rel_path == Some(f.key)
                && after.last().dataset == key_dataset(f.key) && after.last().output_path == Some(
                paths::join_of(snapshot_dir, f.key),
            ) && after.last().error_message == "unexpected local file"@
        }),
{
    assert(local.push(f).drop_last() =~= local);
    let before = extra_failures(remote, local, snapshot_dir);
    let after = extra_failures(remote, local.push(f), snapshot_dir);
    if size_under(remote, f.key) is None {
        assert(after.drop_last() =~= before);
    }
}

/// All that is counted, whatever the dataset.
pub open spec fn sum_of(s: Seq<Count>) -> (int, int, int)
    decreases s.len(),
{
    if s.len() == 0 {
        (0, 0, 0)
    } else {
        let rest = sum_of(s.drop_last());
        let c = s.last();
        (rest.0 + c.scanned, rest.1 + c.succeeded, rest.2 + c.failed)
    }
}

/// What is counted of one dataset is added to that dataset, a new one where it is the
/// first of it, and to no other.
pub proof fn law_tally(s: Seq<Count>, d: Count)
    ensures
        sum_of(tally(s, d)) == (
            sum_of(s).0 + d.scanned,
            sum_of(s).1 + d.succeeded,
            sum_of(s).2 + d.failed,
        ),
        forall|c: Count| c.dataset != d.dataset ==> (#[trigger] tally(s, d).contains(c)
            <==> s.contains(c)),
    decreases s.len(),
{
    let r = tally(s, d);
    if s.len() == 0 || text::text_lt(s.last().dataset, d.dataset) {
        assert(r.drop_last() =~= s);
        assert forall|c: Count| c.dataset != d.dataset implies (#[trigger] r.contains(c)
            <==> s.contains(c)) by {
            if s.contains(c) {
                let i = choose|i: int| 0 <= i < s.len() && s[i] == c;
                assert(r[i] == c);
            }
            if r.contains(c) {
                let i = choose|i: int| 0 <= i < r.len() && r[i] == c;
                assert(s[i] == c);
            }
        }
    } else {
        let init = s.drop_last();
        assert(s =~= init.push(s.last()));
        if s.last().dataset == d.dataset {
            assert(r.drop_last() =~= init);
        } else {
            law_tally(init, d);
            assert(r.drop_last() =~= tally(init, d));
        }
        assert forall|c: Count| c.dataset != d.dataset implies (#[trigger] r.contains(c)
            <==> s.contains(c)) by {
            if s.contains(c) {
                let i = choose|i: int| 0 <= i < s.len() && s[i] == c;
                if i == s.len() - 1 {
                    assert(r[r.len() - 1] == c);
                } else {
                    assert(init[i] == c);
                    assert(r.drop_last().contains(c));
                    let k = choose|k: int| 0 <= k < r.len() - 1 && r.drop_last()[k] == c;
                    assert(r[k] == c);
                }
            }
            if r.contains(c) {
                let i = choose|i: int| 0 <= i < r.len() && r[i] == c;
                if i == r.len() - 1 {
                    assert(s[s.len() - 1] == c);
                } else {
                    assert(r.drop_last()[i] == c);
                    assert(r.drop_last().contains(c));
                    assert(init.contains(c));
                    let k = choose|k: int| 0 <= k < init.len() && init[k] == c;
                    assert(s[k] == c);
                }
            }
        }
    }
}

/// Every object is counted once, as right or as wrong.
pub proof fn law_objects_are_counted(remote: Seq<ObjectView>, o: ObjectView, local: Seq<ObjectView>)
    ensures
        ({
            let before = sum_of(object_counts(remote, local));
            let after = sum_of(object_counts(remote.push(o), local));
            &&& after.0 == before.0 + 1
            &&& size_under(local, o.key) == Some(o.size) ==> after.1 == before.1 + 1 && after.2
                == before.2
            &&& size_under(local, o.key) != Some(o.size) ==> after.1 == before.1 && after.2
                == before.2 + 1
        }),
{
    assert(remote.push(o).drop_last() =~= remote);
    let right = size_under(local, o.key) == Some(o.size);
    law_tally(object_counts(remote, local), one(key_dataset(o.key), true, right, !right));
}

/// A download needs the space of what it copies and a tenth more, rounded down.
pub proof fn law_space_for_a_download(total: u64)
    requires
        total * 11 <= u64::MAX,
    ensures
        10 * required_space(total) <= total * 11 < 10 * required_space(total) + 10,
        required_space(total) >= total,
{
}

/// A size is shown in whole GiB, rounded down.
pub proof fn law_shown_size(gib: nat, rest: nat)
    requires
        rest < 1024 * 1024 * 1024,
    ensures
        gib_text((gib * 1024 * 1024 * 1024 + rest) as int) == text::decimal(gib) + " GiB"@,
{
    assert((gib * 1_073_741_824 + rest) / 1_073_741_824 == gib) by (nonlinear_arith)
        requires
            rest < 1_073_741_824,
    ;
    assert(gib * 1024 * 1024 * 1024 + rest == gib * 1_073_741_824 + rest);
}
/// A listing is asked for page by page, as JSON, of one bucket and one prefix, with the
/// access that was set.
pub proof fn law_listing(
    bucket: Seq<char>,
    prefix: Seq<char>,
    token: Seq<char>,
    a: AwsAccess,
)
    ensures
        ({
            let front = seq![
                "s3api"@,
                "list-objects-v2"@,
                "--bucket"@,
                bucket,
                "--prefix"@,
                prefix,
                "--output"@,
                "json"@,
            ];
            &&& listing_command(bucket, prefix, None, a) == front + access_flags(a)
            &&& listing_command(bucket, prefix, Some(token), a) == front.push(
                "--continuation-token"@,
            ).push(token) + access_flags(a)
        }),
{
    let front = seq![
        "s3api"@,
        "list-objects-v2"@,
        "--bucket"@,
        bucket,
        "--prefix"@,
        prefix,
        "--output"@,
        "json"@,
    ];
    assert(listing_command(bucket, prefix, None, a) =~= front + access_flags(a));
    assert(listing_command(bucket, prefix, Some(token), a) =~= front.push(
        "--continuation-token"@,
    ).push(token) + access_flags(a));
}

/// The objects of a page are those of its entries, in their order; an entry that holds
/// none adds none.
pub proof fn law_objects_of_a_page(items: Seq<Seq<char>>, item: Seq<char>)
    ensures
        entry_objects(Seq::empty()).len() == 0,
        json::json_of(item) is Err ==> entry_objects(items.push(item)) == entry_objects(items),
        json::json_of(item) matches Ok(j) ==> {
            let o = object_from(
                json::text_in(json::read_of(json::member_of(j, "Key"@))),
                json::number_in(json::read_of(json::member_of(j, "Size"@))),
                json::text_in(json::read_of(json::member_of(j, "ETag"@))),
                json::text_in(json::read_of(json::member_of(j, "LastModified"@))),
            );
            &&& o is None ==> entry_objects(items.push(item)) == entry_objects(items)
            &&& o matches Some(x) ==> entry_objects(items.push(item)) == entry_objects(items).push(x)
        },
{
    assert(items.push(item).drop_last() =~= items);
}

/// A page gives its objects under `Contents`, and the next page where it says that there
/// is more.
pub proof fn law_pages(page: json::JsonView, items: Seq<Seq<char>>, token: Seq<char>)
    ensures
        json::read_of(json::member_of(page, "Contents"@)) == Some(json::JsonView::Array(items))
            ==> page_objects(page) == entry_objects(items),
        json::member_of(page, "Contents"@) is None ==> page_objects(page).len() == 0,
        json::read_of(json::member_of(page, "IsTruncated"@)) == Some(json::JsonView::Bool(true))
            && json::read_of(json::member_of(page, "NextContinuationToken"@)) == Some(
            json::JsonView::Text(token),
        ) ==> page_token(page) == Some(token),
        json::read_of(json::member_of(page, "IsTruncated"@)) == Some(json::JsonView::Bool(false))
            ==> page_token(page) is None,
        json::member_of(page, "IsTruncated"@) is None ==> page_token(page) is None,
{
}

/// A file that cannot be unpacked is told with its place in the snapshot, in the bucket and
/// on disk.
pub proof fn law_failure_of_a_file(
    s3_uri: Seq<char>,
    snapshot_dir: Seq<char>,
    rel: Seq<char>,
    e: Seq<char>,
)
    requires
        !paths::is_rooted(rel),
        paths::is_tidy(rel),
        rel.len() > 0,
        paths::body_start(rel) == 0,
    ensures
        ({
            let f = gzip_failure_of(paths::join_of(snapshot_dir, rel), s3_uri, snapshot_dir, e);
            &&& f.dataset == key_dataset(rel) && f.phase == "validate_gzip_integrity"@
            &&& f.rel_path == Some(rel) && f.output_path == Some(paths::join_of(snapshot_dir, rel))
            &&& f.source_path == Some(text::trim_end_char(s3_uri, '/') + "/"@ + rel)
            &&& f.error_message == e
        }),
{
    paths::law_joined_path_is_below_its_base(snapshot_dir, rel);
}

/// What goes wrong with a download is told with where it copies from and to; a lack of
/// space also with what is free, what is needed and what is copied.
pub proof fn law_failed_downloads(
    q: SyncRequest,
    phase: Seq<char>,
    e: Seq<char>,
    recovery: Seq<char>,
)
    ensures
        ({
            let f = download_failure(q, phase, e, recovery);
            &&& f.dataset == q.dataset@ && f.phase == phase && f.error_message == e
            &&& f.source_path == Some(q.s3_uri@) && f.output_path == Some(q.snapshot_dir@)
            &&& f.suggested_recovery == Some(recovery) && f.rel_path is None
        }),
        bool_text(true) == "true"@,
        bool_text(false) == "false"@,
{
}

/// Each failure counts for its dataset, and for nothing else.
pub proof fn law_failures_are_counted(
    counts: Seq<Count>,
    f: Seq<report::FailureView>,
    x: report::FailureView,
)
    ensures
        with_failures(counts, Seq::empty()) == counts,
        ({
            let before = sum_of(with_failures(counts, f));
            let after = sum_of(with_failures(counts, f.push(x)));
            &&& after.0 == before.0 && after.1 == before.1 && after.2 == before.2 + 1
            &&& forall|c: Count|
                c.dataset != x.dataset ==> (#[trigger] with_failures(counts, f.push(x)).contains(c)
                    <==> with_failures(counts, f).contains(c))
        }),
{
    assert(f.push(x).drop_last() =~= f);
    law_tally(with_failures(counts, f), one(x.dataset, false, false, true));
}
} // verus!
