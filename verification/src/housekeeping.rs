//! Keeping the metadata in order: which files an older layout left where, what is
//! archived before a run, what is cleared, and what a log line looks like.

use vstd::prelude::*;
use vstd::string::*;
use crate::config::ReportSource;
use crate::layout::{
    archived_root_dir, dataset_of_hidden_metadata, dataset_step_dirs, download_log_path,
    download_metadata_root, download_reports_dir, global_reports_dir, is_reserved_metadata_dir,
    metadata_root, step_dir_for_old_log,
};
use crate::layout;
use crate::paths::{file_name, join_path, strip_base};
use crate::paths;
use crate::records::is_report_of;
use crate::records;
use crate::report::parse_report_filename;
use crate::report;
use crate::text::{member, push_signed};
use crate::text;

verus! {

/// Something to do to files.
#[derive(Debug)]
pub enum FileOp {
    /// Move a file or directory.
    Rename { from: String, to: String },
    /// Move what a directory holds into another; what is there already stays.
    Merge { from: String, to: String },
    /// Make a directory with all above it.
    MakeDir { path: String },
    /// Remove a directory if it is empty.
    RemoveDir { path: String },
}

/// What a `FileOp` does.
pub enum OpView {
    Rename(Seq<char>, Seq<char>),
    Merge(Seq<char>, Seq<char>),
    MakeDir(Seq<char>),
    RemoveDir(Seq<char>),
}

impl View for FileOp {
    type V = OpView;

    open spec fn view(&self) -> OpView {
        match self {
            FileOp::Rename { from, to } => OpView::Rename(from@, to@),
            FileOp::Merge { from, to } => OpView::Merge(from@, to@),
            FileOp::MakeDir { path } => OpView::MakeDir(path@),
            FileOp::RemoveDir { path } => OpView::RemoveDir(path@),
        }
    }
}

/// What the operations of `v` do.
pub open spec fn op_views(v: Seq<FileOp>) -> Seq<OpView> {
    Seq::new(v.len(), |i: int| v[i]@)
}

/// Pushing an operation pushes what it does.
pub broadcast proof fn lemma_op_views_push(v: Seq<FileOp>, o: FileOp)
    ensures
        #[trigger] op_views(v.push(o)) == op_views(v).push(o@),
{
    assert(op_views(v.push(o)) =~= op_views(v).push(o@));
}

/// The directory of all metadata under a root directory.
pub open spec fn new_root_of(root: Seq<char>) -> Seq<char> {
    paths::join_of(root, "openalex-snapshot_metadata"@)
}

/// Where it lies.
pub fn new_metadata_root(root_dir: &str) -> (r: String)
    ensures
        r@ == new_root_of(root_dir@),
{
    join_path(root_dir, "openalex-snapshot_metadata")
}

pub open spec fn dot_root_of(root: Seq<char>) -> Seq<char> {
    paths::join_of(root, ".openalex-snapshot_metadata"@)
}

/// Where the directory of all metadata lay when its name had a dot.
pub fn dot_metadata_root(root_dir: &str) -> (r: String)
    ensures
        r@ == dot_root_of(root_dir@),
{
    join_path(root_dir, ".openalex-snapshot_metadata")
}

/// Gives up the dot, unless both directories are there.
pub fn migrate_dot_root(root_dir: &str, old_exists: bool, new_exists: bool) -> (r: Vec<FileOp>)
    ensures
        op_views(r@) == (if old_exists && !new_exists {
            seq![OpView::Rename(dot_root_of(root_dir@), new_root_of(root_dir@))]
        } else {
            Seq::<OpView>::empty()
        }).push(OpView::MakeDir(new_root_of(root_dir@))),
{
    broadcast use lemma_op_views_push;

    let mut ops: Vec<FileOp> = Vec::new();
    assert(op_views(ops@) =~= Seq::<OpView>::empty());
    if old_exists && !new_exists {
        ops.push(
            FileOp::Rename { from: dot_metadata_root(root_dir), to: new_metadata_root(root_dir) },
        );
        assert(op_views(ops@) =~= seq![
            OpView::Rename(dot_root_of(root_dir@), new_root_of(root_dir@)),
        ]);
    }
    ops.push(FileOp::MakeDir { path: new_metadata_root(root_dir) });
    ops
}

/// A directory of the metadata of one dataset, one level too deep.
#[derive(Debug)]
pub struct DeepDir {
    pub name: String,
    /// Whether the dataset has its directory in the right place already.
    pub target_exists: bool,
}

pub open spec fn lift_one(new_root: Seq<char>, name: Seq<char>, target_exists: bool) -> OpView {
    let from = layout::below2(new_root, "datasets"@, name);
    let to = paths::join_of(new_root, name);
    if target_exists {
        OpView::Merge(from, to)
    } else {
        OpView::Rename(from, to)
    }
}

pub open spec fn lift_all(new_root: Seq<char>, v: Seq<DeepDir>) -> Seq<OpView> {
    Seq::new(v.len(), |i: int| lift_one(new_root, v[i].name@, v[i].target_exists))
}

/// Lifts the directories of the datasets out of `datasets`.
pub fn migrate_datasets_dir(new_root: &str, dirs: &Vec<DeepDir>) -> (r: Vec<FileOp>)
    ensures
        op_views(r@) == lift_all(new_root@, dirs@).push(
            OpView::RemoveDir(paths::join_of(new_root@, "datasets"@)),
        ),
{
    broadcast use lemma_op_views_push;

    let base = join_path(new_root, "datasets");
    let mut ops: Vec<FileOp> = Vec::new();
    assert(op_views(ops@) =~= lift_all(new_root@, dirs@.take(0)));
    let mut i: usize = 0;
    while i < dirs.len()
        invariant
            i <= dirs@.len(),
            base@ == paths::join_of(new_root@, "datasets"@),
            op_views(ops@) == lift_all(new_root@, dirs@.take(i as int)),
        decreases dirs@.len() - i,
    {
        broadcast use lemma_op_views_push;

        let from = join_path(base.as_str(), dirs[i].name.as_str());
        let to = join_path(new_root, dirs[i].name.as_str());
        if dirs[i].target_exists {
            ops.push(FileOp::Merge { from, to });
        } else {
            ops.push(FileOp::Rename { from, to });
        }
        assert(op_views(ops@) =~= lift_all(new_root@, dirs@.take(i + 1)));
        i += 1;
    }
    assert(dirs@.take(i as int) =~= dirs@);
    ops.push(FileOp::RemoveDir { path: base });
    ops
}

/// The names of logs as they once lay together in one directory.
pub open spec fn old_log_names() -> Seq<Seq<char>> {
    seq![
        "convert.log"@,
        "index.log"@,
        "verify.log"@,
        "verify-index.log"@,
        "verify_convert.log"@,
        "verify_index.log"@,
    ]
}

/// Those names, in the order in which the logs are moved.
pub fn old_logs() -> (r: Vec<String>)
    ensures
        text::texts(r@) == old_log_names(),
{
    let mut v: Vec<String> = Vec::new();
    v.push("convert.log".to_owned());
    v.push("index.log".to_owned());
    v.push("verify.log".to_owned());
    v.push("verify-index.log".to_owned());
    v.push("verify_convert.log".to_owned());
    v.push("verify_index.log".to_owned());
    assert(text::texts(v@) =~= old_log_names());
    v
}

/// What moving one log of a dataset takes, where it has a step to go to.
pub open spec fn log_move(ds_dir: Seq<char>, name: Seq<char>) -> Seq<OpView> {
    match layout::migrated_log_step(name) {
        Some(step) => seq![
            OpView::MakeDir(paths::join_of(ds_dir, step)),
            OpView::Rename(
                layout::below2(ds_dir, "logs"@, name),
                layout::below2(ds_dir, step, name),
            ),
        ],
        None => Seq::empty(),
    }
}

pub open spec fn log_moves(ds_dir: Seq<char>, names: Seq<Seq<char>>) -> Seq<OpView>
    decreases names.len(),
{
    if names.len() == 0 {
        Seq::empty()
    } else {
        log_moves(ds_dir, names.drop_last()) + log_move(ds_dir, names.last())
    }
}

/// Moves the logs of a dataset to the directories of their steps: `found` are the
/// names of those that are there.
pub fn migrate_dataset_logs(ds_dir: &str, found: &Vec<String>) -> (r: Vec<FileOp>)
    ensures
        op_views(r@) == log_moves(ds_dir@, text::texts(found@)).push(
            OpView::RemoveDir(paths::join_of(ds_dir@, "logs"@)),
        ),
{
    broadcast use lemma_op_views_push;

    let logs = join_path(ds_dir, "logs");
    let ghost all = text::texts(found@);
    let mut ops: Vec<FileOp> = Vec::new();
    let mut i: usize = 0;
    assert(op_views(ops@) =~= log_moves(ds_dir@, all.take(0)));
    while i < found.len()
        invariant
            i <= found@.len(),
            all == text::texts(found@),
            logs@ == paths::join_of(ds_dir@, "logs"@),
            op_views(ops@) == log_moves(ds_dir@, all.take(i as int)),
        decreases found@.len() - i,
    {
        broadcast use lemma_op_views_push;

        let name = found[i].as_str();
        let ghost before = op_views(ops@);
        if let Some(step) = step_dir_for_old_log(name) {
            let dest = join_path(ds_dir, step.as_str());
            let from = join_path(logs.as_str(), name);
            let to = join_path(dest.as_str(), name);
            ops.push(FileOp::MakeDir { path: dest });
            ops.push(FileOp::Rename { from, to });
        }
        assert(op_views(ops@) =~= before + log_move(ds_dir@, name@));
        assert(all.take(i + 1).drop_last() =~= all.take(i as int));
        assert(all.take(i + 1).last() == name@);
        i += 1;
    }
    assert(all.take(i as int) =~= all);
    ops.push(FileOp::RemoveDir { path: logs });
    ops
}

/// Renames what a dataset kept of its verification; merges it where the new
/// directory is there.
pub fn migrate_verify_dir(ds_dir: &str, old_exists: bool, new_exists: bool) -> (r: Option<FileOp>)
    ensures
        match r {
            Some(op) => old_exists && op@ == (if new_exists {
                OpView::Merge(
                    paths::join_of(ds_dir@, "verify"@),
                    paths::join_of(ds_dir@, "conversion-verify"@),
                )
            } else {
                OpView::Rename(
                    paths::join_of(ds_dir@, "verify"@),
                    paths::join_of(ds_dir@, "conversion-verify"@),
                )
            }),
            None => !old_exists,
        },
{
    if !old_exists {
        return None;
    }
    let from = join_path(ds_dir, "verify");
    let to = join_path(ds_dir, "conversion-verify");
    if new_exists {
        Some(FileOp::Merge { from, to })
    } else {
        Some(FileOp::Rename { from, to })
    }
}

/// A report that lies with one dataset.
#[derive(Debug)]
pub struct StrayReport {
    pub name: String,
    /// Whether a report of that name lies where all reports lie.
    pub target_exists: bool,
}

pub open spec fn report_moves(new_root: Seq<char>, ds_dir: Seq<char>, v: Seq<StrayReport>) -> Seq<OpView>
    decreases v.len(),
{
    if v.len() == 0 {
        seq![OpView::MakeDir(paths::join_of(new_root, "reports"@))]
    } else {
        let before = report_moves(new_root, ds_dir, v.drop_last());
        if v.last().target_exists {
            before
        } else {
            before.push(
                OpView::Rename(
                    layout::below2(ds_dir, "reports"@, v.last().name@),
                    layout::below2(new_root, "reports"@, v.last().name@),
                ),
            )
        }
    }
}

/// Moves the reports of a dataset to where all reports lie.
pub fn migrate_dataset_reports(new_root: &str, ds_dir: &str, found: &Vec<StrayReport>) -> (r: Vec<
    FileOp,
>)
    ensures
        op_views(r@) == report_moves(new_root@, ds_dir@, found@).push(
            OpView::RemoveDir(paths::join_of(ds_dir@, "reports"@)),
        ),
{
    broadcast use lemma_op_views_push;

    let global = join_path(new_root, "reports");
    let own = join_path(ds_dir, "reports");
    let mut ops: Vec<FileOp> = Vec::new();
    ops.push(FileOp::MakeDir { path: join_path(new_root, "reports") });
    assert(op_views(ops@) =~= report_moves(new_root@, ds_dir@, found@.take(0)));
    let mut i: usize = 0;
    while i < found.len()
        invariant
            i <= found@.len(),
            global@ == paths::join_of(new_root@, "reports"@),
            own@ == paths::join_of(ds_dir@, "reports"@),
            op_views(ops@) == report_moves(new_root@, ds_dir@, found@.take(i as int)),
        decreases found@.len() - i,
    {
        broadcast use lemma_op_views_push;

        assert(found@.take(i + 1).drop_last() =~= found@.take(i as int));
        assert(found@.take(i + 1).last() == found@[i as int]);
        if !found[i].target_exists {
            let from = join_path(own.as_str(), found[i].name.as_str());
            let to = join_path(global.as_str(), found[i].name.as_str());
            ops.push(FileOp::Rename { from, to });
        }
        i += 1;
    }
    assert(found@.take(i as int) =~= found@);
    ops.push(FileOp::RemoveDir { path: own });
    ops
}

/// Moves the log of the downloads out of its directory `logs`. The log of the
/// download goes first; what is there already is not written over.
pub fn migrate_download_logs(new_root: &str, download: bool, verify: bool, target_exists: bool) -> (r:
    Vec<FileOp>)
    ensures
        op_views(r@) == ({
            let dir = paths::join_of(new_root@, "download"@);
            let logs = paths::join_of(dir, "logs"@);
            let to = paths::join_of(dir, "download.log"@);
            let moves = if target_exists || !(download || verify) {
                Seq::<OpView>::empty()
            } else if download {
                seq![OpView::Rename(paths::join_of(logs, "download.log"@), to)]
            } else {
                seq![OpView::Rename(paths::join_of(logs, "verify_download.log"@), to)]
            };
            moves.push(OpView::RemoveDir(logs))
        }),
{
    broadcast use lemma_op_views_push;

    let dir = join_path(new_root, "download");
    let logs = join_path(dir.as_str(), "logs");
    let to = join_path(dir.as_str(), "download.log");
    let mut ops: Vec<FileOp> = Vec::new();
    assert(op_views(ops@) =~= Seq::<OpView>::empty());
    if !target_exists && (download || verify) {
        let from = if download {
            join_path(logs.as_str(), "download.log")
        } else {
            join_path(logs.as_str(), "verify_download.log")
        };
        let ghost op = OpView::Rename(from@, to@);
        ops.push(FileOp::Rename { from, to });
        assert(op_views(ops@) =~= seq![op]);
    }
    ops.push(FileOp::RemoveDir { path: logs });
    ops
}

pub open spec fn hidden_merge(parquet: Seq<char>, new_root: Seq<char>, name: Seq<char>) -> Seq<OpView> {
    match layout::hidden_metadata_dataset(name) {
        Some(ds) => seq![
            OpView::Merge(paths::join_of(parquet, name), paths::join_of(new_root, ds)),
        ],
        None => Seq::empty(),
    }
}

pub open spec fn hidden_merges(parquet: Seq<char>, new_root: Seq<char>, names: Seq<Seq<char>>) -> Seq<
    OpView,
>
    decreases names.len(),
{
    if names.len() == 0 {
        Seq::empty()
    } else {
        hidden_merges(parquet, new_root, names.drop_last()) + hidden_merge(
            parquet,
            new_root,
            names.last(),
        )
    }
}

/// Brings in what the oldest layouts left: reports and the metadata of datasets among
/// the converted data (`names` are what lies there), and the metadata of downloads.
pub fn migrate_oldest(
    root_dir: &str,
    old_global: bool,
    names: &Vec<String>,
    old_download: bool,
) -> (r: Vec<FileOp>)
    ensures
        op_views(r@) == (if old_global {
            seq![
                OpView::Merge(
                    layout::below2(
                        layout::parquet_dir_of(root_dir@),
                        ".openalex_metadata"@,
                        "reports"@,
                    ),
                    paths::join_of(new_root_of(root_dir@), "reports"@),
                ),
            ]
        } else {
            Seq::<OpView>::empty()
        }) + hidden_merges(
            layout::parquet_dir_of(root_dir@),
            new_root_of(root_dir@),
            text::texts(names@),
        ) + (if old_download {
            seq![
                OpView::Merge(
                    layout::below2(root_dir@, "openalex-snapshot"@, ".openalex_download_metadata"@),
                    paths::join_of(new_root_of(root_dir@), "download"@),
                ),
            ]
        } else {
            Seq::<OpView>::empty()
        }),
{
    broadcast use lemma_op_views_push;

    let parquet = join_path(root_dir, "parquet");
    let new_root = new_metadata_root(root_dir);
    let mut ops: Vec<FileOp> = Vec::new();
    assert(op_views(ops@) =~= Seq::<OpView>::empty());
    if old_global {
        let old = join_path(parquet.as_str(), ".openalex_metadata");
        ops.push(
            FileOp::Merge {
                from: join_path(old.as_str(), "reports"),
                to: join_path(new_root.as_str(), "reports"),
            },
        );
    }
    let ghost first = op_views(ops@);
    let ghost all = text::texts(names@);
    let mut i: usize = 0;
    assert(op_views(ops@) =~= first + hidden_merges(parquet@, new_root@, all.take(0)));
    while i < names.len()
        invariant
            i <= names@.len(),
            all == text::texts(names@),
            op_views(ops@) == first + hidden_merges(parquet@, new_root@, all.take(i as int)),
        decreases names@.len() - i,
    {
        broadcast use lemma_op_views_push;

        let name = names[i].as_str();
        let ghost before = op_views(ops@);
        if let Some(ds) = dataset_of_hidden_metadata(name) {
            ops.push(
                FileOp::Merge {
                    from: join_path(parquet.as_str(), name),
                    to: join_path(new_root.as_str(), ds.as_str()),
                },
            );
        }
        assert(op_views(ops@) =~= before + hidden_merge(parquet@, new_root@, name@));
        assert(all.take(i + 1).drop_last() =~= all.take(i as int));
        assert(all.take(i + 1).last() == name@);
        assert(op_views(ops@) =~= first + hidden_merges(parquet@, new_root@, all.take(i + 1)));
        i += 1;
    }
    assert(all.take(i as int) =~= all);
    if old_download {
        let old = join_path(root_dir, "openalex-snapshot");
        ops.push(
            FileOp::Merge {
                from: join_path(old.as_str(), ".openalex_download_metadata"),
                to: join_path(new_root.as_str(), "download"),
            },
        );
    }
    assert(op_views(ops@) =~= first + hidden_merges(parquet@, new_root@, all) + (if old_download {
        seq![
            OpView::Merge(
                layout::below2(root_dir@, "openalex-snapshot"@, ".openalex_download_metadata"@),
                paths::join_of(new_root_of(root_dir@), "download"@),
            ),
        ]
    } else {
        Seq::<OpView>::empty()
    }));
    ops
}

/// How the metadata of a dataset get from an older place to the present one.
#[derive(Clone, Copy, Debug, PartialEq, Eq, Structural)]
pub enum RootMigration {
    /// There is nothing in the older place.
    Nothing,
    /// The directory is moved.
    Move,
    /// What it holds is moved, and what is in the present place stays.
    Merge,
}

/// Decides it.
pub fn root_migration(old_exists: bool, new_exists: bool) -> (r: RootMigration)
    ensures
        r == RootMigration::Nothing <==> !old_exists,
        r == RootMigration::Move <==> old_exists && !new_exists,
        r == RootMigration::Merge <==> old_exists && new_exists,
{
    if !old_exists {
        RootMigration::Nothing
    } else if new_exists {
        RootMigration::Merge
    } else {
        RootMigration::Move
    }
}

/// Which older cache of a dataset becomes the present one.
#[derive(Clone, Copy, Debug, PartialEq, Eq, Structural)]
pub enum CacheMigration {
    /// None: the present one is there, or no older one is.
    Stay,
    /// The one of the layout before.
    Prior,
    /// The oldest one.
    Legacy,
}

/// Decides it.
pub fn cache_migration(new_exists: bool, prior_exists: bool, legacy_exists: bool) -> (r:
    CacheMigration)
    ensures
        r == CacheMigration::Prior <==> !new_exists && prior_exists,
        r == CacheMigration::Legacy <==> !new_exists && !prior_exists && legacy_exists,
        r == CacheMigration::Stay <==> new_exists || (!prior_exists && !legacy_exists),
{
    if new_exists {
        CacheMigration::Stay
    } else if prior_exists {
        CacheMigration::Prior
    } else if legacy_exists {
        CacheMigration::Legacy
    } else {
        CacheMigration::Stay
    }
}

/// A report file, and whether the run that it is of has ended.
#[derive(Debug)]
pub struct ReportFile {
    pub name: String,
    pub finished: bool,
}

/// A file in a directory of a dataset's metadata.
#[derive(Debug)]
pub struct StepFile {
    pub dataset: String,
    pub step: String,
    pub name: String,
}

/// The directories of a dataset's metadata that hold logs.
pub open spec fn step_dirs() -> Seq<Seq<char>> {
    seq!["convert"@, "conversion-verify"@, "index"@, "index-verify"@]
}

/// The directory of one archive.
pub open spec fn archive_base_of(parquet_dir: Seq<char>, ts: int) -> Seq<char> {
    paths::join_of(layout::archived_root_dir_of(parquet_dir), text::signed_decimal(ts))
}

/// Where it lies.
pub fn archive_base(parquet_dir: &str, ts: i64) -> (r: String)
    ensures
        r@ == archive_base_of(parquet_dir@, ts as int),
{
    let root = archived_root_dir(parquet_dir);
    let mut name = String::new();
    push_signed(&mut name, ts);
    assert(name@ =~= text::signed_decimal(ts as int));
    join_path(root.as_str(), name.as_str())
}

pub open spec fn archived_reports(dir: Seq<char>, base: Seq<char>, v: Seq<ReportFile>) -> Seq<OpView>
    decreases v.len(),
{
    if v.len() == 0 {
        Seq::empty()
    } else {
        let before = archived_reports(dir, base, v.drop_last());
        if v.last().finished {
            before.push(
                OpView::Rename(
                    paths::join_of(dir, v.last().name@),
                    layout::below2(base, "reports"@, v.last().name@),
                ),
            )
        } else {
            before
        }
    }
}

/// Whether a file is a log that is archived.
pub open spec fn is_log(f: StepFile) -> bool {
    !layout::is_reserved(f.dataset@) && step_dirs().contains(f.step@)
}

pub open spec fn archived_logs(meta: Seq<char>, base: Seq<char>, v: Seq<StepFile>) -> Seq<OpView>
    decreases v.len(),
{
    if v.len() == 0 {
        Seq::empty()
    } else {
        let before = archived_logs(meta, base, v.drop_last());
        let f = v.last();
        if is_log(f) {
            before.push(
                OpView::Rename(
                    paths::join_of(layout::below2(meta, f.dataset@, f.step@), f.name@),
                    paths::join_of(layout::below2(base, f.dataset@, f.step@), f.name@),
                ),
            )
        } else {
            before
        }
    }
}

/// What archiving a completed run moves.
pub open spec fn archive_moves(
    parquet_dir: Seq<char>,
    snapshot_dir: Seq<char>,
    base: Seq<char>,
    reports: Seq<ReportFile>,
    download_log: bool,
    files: Seq<StepFile>,
) -> Seq<OpView> {
    archived_reports(layout::global_reports_dir_of(parquet_dir), base, reports) + (if download_log {
        seq![
            OpView::Rename(
                layout::download_log_path_of(snapshot_dir),
                layout::below2(base, "download"@, "download.log"@),
            ),
        ]
    } else {
        Seq::empty()
    }) + archived_logs(layout::metadata_root_of(parquet_dir), base, files)
}

fn archive_reports(dir: &str, base: &str, v: &Vec<ReportFile>, ops: &mut Vec<FileOp>)
    ensures
        op_views(final(ops)@) == op_views(old(ops)@) + archived_reports(dir@, base@, v@),
{
    let ghost first = op_views(ops@);
    let below = join_path(base, "reports");
    let mut i: usize = 0;
    assert(op_views(ops@) =~= first + archived_reports(dir@, base@, v@.take(0)));
    while i < v.len()
        invariant
            i <= v@.len(),
            below@ == paths::join_of(base@, "reports"@),
            op_views(ops@) == first + archived_reports(dir@, base@, v@.take(i as int)),
        decreases v@.len() - i,
    {
        broadcast use lemma_op_views_push;

        assert(v@.take(i + 1).drop_last() =~= v@.take(i as int));
        assert(v@.take(i + 1).last() == v@[i as int]);
        if v[i].finished {
            let from = join_path(dir, v[i].name.as_str());
            let to = join_path(below.as_str(), v[i].name.as_str());
            ops.push(FileOp::Rename { from, to });
        }
        assert(op_views(ops@) =~= first + archived_reports(dir@, base@, v@.take(i + 1)));
        i += 1;
    }
    assert(v@.take(i as int) =~= v@);
}

fn archive_logs(meta: &str, base: &str, v: &Vec<StepFile>, ops: &mut Vec<FileOp>)
    ensures
        op_views(final(ops)@) == op_views(old(ops)@) + archived_logs(meta@, base@, v@),
{
    let ghost first = op_views(ops@);
    let steps = dataset_step_dirs();
    let mut i: usize = 0;
    assert(op_views(ops@) =~= first + archived_logs(meta@, base@, v@.take(0)));
    while i < v.len()
        invariant
            i <= v@.len(),
            text::texts(steps@) == step_dirs(),
            op_views(ops@) == first + archived_logs(meta@, base@, v@.take(i as int)),
        decreases v@.len() - i,
    {
        broadcast use lemma_op_views_push;

        assert(v@.take(i + 1).drop_last() =~= v@.take(i as int));
        assert(v@.take(i + 1).last() == v@[i as int]);
        if !is_reserved_metadata_dir(v[i].dataset.as_str()) && member(&steps, v[i].step.as_str()) {
            let of_ds = join_path(meta, v[i].dataset.as_str());
            let from_dir = join_path(of_ds.as_str(), v[i].step.as_str());
            let kept = join_path(base, v[i].dataset.as_str());
            let to_dir = join_path(kept.as_str(), v[i].step.as_str());
            ops.push(
                FileOp::Rename {
                    from: join_path(from_dir.as_str(), v[i].name.as_str()),
                    to: join_path(to_dir.as_str(), v[i].name.as_str()),
                },
            );
        }
        assert(op_views(ops@) =~= first + archived_logs(meta@, base@, v@.take(i + 1)));
        i += 1;
    }
    assert(v@.take(i as int) =~= v@);
}

/// What is moved to the archive of the time `ts` before a run: the reports of runs
/// that ended, the log of the downloads where there is one, and the logs of the
/// datasets.
pub fn archive_completed_run(
    parquet_dir: &str,
    snapshot_dir: &str,
    ts: i64,
    reports: &Vec<ReportFile>,
    download_log: bool,
    files: &Vec<StepFile>,
) -> (r: Vec<FileOp>)
    ensures
        op_views(r@) == archive_moves(
            parquet_dir@,
            snapshot_dir@,
            archive_base_of(parquet_dir@, ts as int),
            reports@,
            download_log,
            files@,
        ),
{
    broadcast use lemma_op_views_push;

    let base = archive_base(parquet_dir, ts);
    let dir = global_reports_dir(parquet_dir);
    let meta = metadata_root(parquet_dir);
    let mut ops: Vec<FileOp> = Vec::new();
    archive_reports(dir.as_str(), base.as_str(), reports, &mut ops);
    assert(op_views(ops@) =~= archived_reports(dir@, base@, reports@));
    let ghost first = op_views(ops@);
    if download_log {
        let kept = join_path(base.as_str(), "download");
        ops.push(
            FileOp::Rename {
                from: download_log_path(snapshot_dir),
                to: join_path(kept.as_str(), "download.log"),
            },
        );
    }
    assert(op_views(ops@) =~= first + (if download_log {
        seq![
            OpView::Rename(
                layout::download_log_path_of(snapshot_dir@),
                layout::below2(base@, "download"@, "download.log"@),
            ),
        ]
    } else {
        Seq::<OpView>::empty()
    }));
    archive_logs(meta.as_str(), base.as_str(), files, &mut ops);
    ops
}

/// The cached schemas of a dataset outlive every run: a file that is not in one of
/// the directories of logs is not moved.
pub proof fn law_schemas_are_not_archived(meta: Seq<char>, base: Seq<char>, v: Seq<StepFile>)
    requires
        forall|i: int| 0 <= i < v.len() ==> (#[trigger] v[i]).step@ == "schemata"@,
    ensures
        archived_logs(meta, base, v).len() == 0,
    decreases v.len(),
{
    if v.len() > 0 {
        assert forall|i: int| 0 <= i < v.drop_last().len() implies (#[trigger] v.drop_last()[i]).step@
            == "schemata"@ by {
            assert(v.drop_last()[i] == v[i]);
        }
        law_schemas_are_not_archived(meta, base, v.drop_last());
        assert(v.last() == v[v.len() - 1]);
        reveal_strlit("schemata");
        reveal_strlit("convert");
        reveal_strlit("conversion-verify");
        reveal_strlit("index");
        reveal_strlit("index-verify");
        assert(!step_dirs().contains("schemata"@)) by {
            assert("schemata"@.len() == 8);
            assert("convert"@.len() == 7);
            assert("conversion-verify"@.len() == 17);
            assert("index"@.len() == 5);
            assert("index-verify"@.len() == 12);
        }
    }
}

/// The report of a run that has not ended stays where it is.
pub proof fn law_running_reports_stay(dir: Seq<char>, base: Seq<char>, v: Seq<ReportFile>)
    requires
        forall|i: int| 0 <= i < v.len() ==> !(#[trigger] v[i]).finished,
    ensures
        archived_reports(dir, base, v).len() == 0,
    decreases v.len(),
{
    if v.len() > 0 {
        assert forall|i: int| 0 <= i < v.drop_last().len() implies !(#[trigger] v.drop_last()[i]).finished by {
            assert(v.drop_last()[i] == v[i]);
        }
        law_running_reports_stay(dir, base, v.drop_last());
        assert(v.last() == v[v.len() - 1]);
    }
}

pub open spec fn stale_in(meta: Seq<char>, dir: Seq<char>, command: Seq<char>) -> Seq<Seq<char>> {
    Seq::new(
        step_dirs().len(),
        |i: int| paths::join_of(layout::below2(meta, dir, step_dirs()[i]), command + ".log"@),
    )
}

pub open spec fn stale_of(meta: Seq<char>, dirs: Seq<Seq<char>>, command: Seq<char>) -> Seq<Seq<char>>
    decreases dirs.len(),
{
    if dirs.len() == 0 {
        Seq::empty()
    } else {
        let before = stale_of(meta, dirs.drop_last(), command);
        if layout::is_reserved(dirs.last()) {
            before
        } else {
            before + stale_in(meta, dirs.last(), command)
        }
    }
}

/// Where a command may have left logs: `dirs` are the directories of metadata.
pub fn command_dataset_logs(parquet_dir: &str, dirs: &Vec<String>, command: &str) -> (r: Vec<String>)
    ensures
        text::texts(r@) == stale_of(
            layout::metadata_root_of(parquet_dir@),
            text::texts(dirs@),
            command@,
        ),
{
    let meta = metadata_root(parquet_dir);
    let steps = dataset_step_dirs();
    let mut name = command.to_owned();
    name.append(".log");
    let ghost all = text::texts(dirs@);
    let mut out: Vec<String> = Vec::new();
    let mut i: usize = 0;
    assert(text::texts(out@) =~= stale_of(meta@, all.take(0), command@));
    while i < dirs.len()
        invariant
            i <= dirs@.len(),
            all == text::texts(dirs@),
            text::texts(steps@) == step_dirs(),
            name@ == command@ + ".log"@,
            text::texts(out@) == stale_of(meta@, all.take(i as int), command@),
        decreases dirs@.len() - i,
    {
        assert(all.take(i + 1).drop_last() =~= all.take(i as int));
        assert(all.take(i + 1).last() == dirs@[i as int]@);
        if !is_reserved_metadata_dir(dirs[i].as_str()) {
            let dir = join_path(meta.as_str(), dirs[i].as_str());
            let ghost before = text::texts(out@);
            let ghost whole = stale_in(meta@, dirs@[i as int]@, command@);
            let mut j: usize = 0;
            assert(before =~= before + whole.take(0));
            while j < steps.len()
                invariant
                    j <= steps@.len(),
                    steps@.len() == whole.len(),
                    text::texts(steps@) == step_dirs(),
                    i < dirs@.len(),
                    dir@ == paths::join_of(meta@, dirs@[i as int]@),
                    name@ == command@ + ".log"@,
                    whole == stale_in(meta@, dirs@[i as int]@, command@),
                    text::texts(out@) == before + whole.take(j as int),
                decreases steps@.len() - j,
            {
                broadcast use text::lemma_texts_push;

                assert(text::texts(steps@)[j as int] == steps@[j as int]@);
                let of_step = join_path(dir.as_str(), steps[j].as_str());
                out.push(join_path(of_step.as_str(), name.as_str()));
                assert(text::texts(out@) =~= before + whole.take(j + 1));
                j += 1;
            }
            assert(whole.take(j as int) =~= whole);
        }
        i += 1;
    }
    assert(all.take(i as int) =~= all);
    out
}

pub open spec fn old_reports(names: Seq<Seq<char>>, command: Seq<char>) -> Seq<Seq<char>> {
    names.filter(|n: Seq<char>| records::is_report_name(n, command))
}

/// Which of the files `names` are reports of a command.
pub fn command_reports(names: &Vec<String>, command: &str) -> (r: Vec<String>)
    ensures
        text::texts(r@) == old_reports(text::texts(names@), command@),
{
    reveal(Seq::filter);
    let ghost all = text::texts(names@);
    let mut out: Vec<String> = Vec::new();
    let mut i: usize = 0;
    assert(text::texts(out@) =~= old_reports(all.take(0), command@));
    while i < names.len()
        invariant
            i <= names@.len(),
            all == text::texts(names@),
            text::texts(out@) == old_reports(all.take(i as int), command@),
        decreases names@.len() - i,
    {
        broadcast use text::lemma_texts_push;

        reveal(Seq::filter);
        assert(all.take(i + 1).drop_last() =~= all.take(i as int));
        assert(all.take(i + 1).last() == names@[i as int]@);
        if is_report_of(names[i].as_str(), command) {
            out.push(names[i].clone());
        }
        i += 1;
    }
    assert(all.take(i as int) =~= all);
    out
}

/// A line of a log.
pub fn log_entry(now: i64, command: &str, msg: &str) -> (r: String)
    ensures
        r@ == text::signed_decimal(now as int) + " ["@ + command@ + "] "@ + msg@,
{
    let mut s = String::new();
    push_signed(&mut s, now);
    assert(s@ =~= text::signed_decimal(now as int));
    s.append(" [");
    s.append(command);
    s.append("] ");
    s.append(msg);
    s
}

/// Where the reports lie that a source names. All commands write to one place.
pub fn report_root(snapshot_dir: &str, source: ReportSource) -> (r: String)
    ensures
        r@ == layout::download_reports_dir_of(snapshot_dir@),
{
    download_reports_dir(snapshot_dir)
}

pub open spec fn kind_of(p: Seq<char>, snapshot_dir: Seq<char>, parquet_dir: Seq<char>) -> Seq<char> {
    if paths::relative_to(p, layout::download_metadata_root_of(snapshot_dir)) is Some {
        "download"@
    } else if paths::relative_to(p, layout::global_reports_dir_of(parquet_dir)) is Some {
        "parquet-global"@
    } else {
        "parquet-dataset"@
    }
}

/// What the path of a report file tells: where it belongs, and the number that its name
/// ends with. Nothing, where the file is not named like a report.
pub fn report_record(path: &str, snapshot_dir: &str, parquet_dir: &str) -> (r: Option<(String, i64)>)
    ensures
        match r {
            Some((kind, ts)) => {
                &&& kind@ == kind_of(path@, snapshot_dir@, parquet_dir@)
                &&& paths::file_name_of(path@) matches Some(n) && report::name_parts(n) matches Some(
                    p,
                ) && p.1 == ts
            },
            None => match paths::file_name_of(path@) {
                Some(n) => report::name_parts(n) is None,
                None => true,
            },
        },
{
    let name = match file_name(path) {
        Some(n) => n,
        None => {
            return None;
        },
    };
    let (_command, ts) = match parse_report_filename(name.as_str()) {
        Some(p) => p,
        None => {
            return None;
        },
    };
    let download = download_metadata_root(snapshot_dir);
    let global = global_reports_dir(parquet_dir);
    let kind = if strip_base(path, download.as_str()).is_some() {
        "download"
    } else if strip_base(path, global.as_str()).is_some() {
        "parquet-global"
    } else {
        "parquet-dataset"
    };
    Some((kind.to_owned(), ts))
}

/// A run that holds the lock.
#[derive(Debug)]
pub struct LockInfo {
    pub pid: u32,
    pub command: String,
    pub started_at_unix: i64,
}

/// The run that is going on: the one that left a lock, if its process is alive.
pub fn standing_lock(left: Option<LockInfo>, alive: bool) -> (r: Option<LockInfo>)
    ensures
        r == (if alive {
            left
        } else {
            None
        }),
{
    if alive {
        left
    } else {
        None
    }
}

/// What watching a run does after it has shown the state once.
#[derive(Clone, Copy, Debug, PartialEq, Eq, Structural)]
pub enum WatchNext {
    /// It was to show the state once.
    Stop,
    /// No run is going on.
    Finished,
    /// It shows the state again after so many seconds.
    Wait(u64),
}

/// Decides it. Where the state is to be shown once, nothing is watched.
pub fn watch_next(watch: bool, once: bool, running: bool, interval_sec: u64) -> (r: WatchNext)
    ensures
        r == (if !watch || once {
            WatchNext::Stop
        } else if !running {
            WatchNext::Finished
        } else if interval_sec == 0 {
            WatchNext::Wait(1)
        } else {
            WatchNext::Wait(interval_sec)
        }),
{
    if !watch || once {
        WatchNext::Stop
    } else if !running {
        WatchNext::Finished
    } else if interval_sec == 0 {
        WatchNext::Wait(1)
    } else {
        WatchNext::Wait(interval_sec)
    }
}

/// The file to read: the one that was named, else the one of the usual name if it is
/// there.
pub fn named_or_usual(named: Option<&str>, usual: &str, usual_exists: bool) -> (r: Option<String>)
    ensures
        report::opt(r) == (match named {
            Some(p) => Some(p@),
            None => if usual_exists {
                Some(usual@)
            } else {
                None
            },
        }),
{
    match named {
        Some(p) => Some(p.to_owned()),
        None => if usual_exists {
            Some(usual.to_owned())
        } else {
            None
        },
    }
}

/// A dataset that stood one directory too deep is lifted to where it belongs, and merged
/// with what is there already.
pub proof fn law_deep_datasets_are_lifted(new_root: Seq<char>, name: Seq<char>)
    ensures
        lift_one(new_root, name, false) == OpView::Rename(
            paths::join_of(paths::join_of(new_root, "datasets"@), name),
            paths::join_of(new_root, name),
        ),
        lift_one(new_root, name, true) == OpView::Merge(
            paths::join_of(paths::join_of(new_root, "datasets"@), name),
            paths::join_of(new_root, name),
        ),
{
}

/// An old log is moved to the directory of its step, which is made for it, and keeps its
/// name: there the log of that command is looked for from then on.
pub proof fn law_old_logs_are_found_again(
    parquet_dir: Seq<char>,
    dataset: Seq<char>,
    command: Seq<char>,
)
    ensures
        layout::migrated_log_step(command + ".log"@) is Some ==> {
            let dir = layout::dataset_metadata_dir_of(parquet_dir, dataset);
            let ops = log_move(dir, command + ".log"@);
            &&& ops.len() == 2
            &&& ops[0] == OpView::MakeDir(layout::log_dir_of(parquet_dir, dataset, command))
            &&& ops[1] == OpView::Rename(
                paths::join_of(paths::join_of(dir, "logs"@), command + ".log"@),
                layout::dataset_log_path_of(parquet_dir, dataset, command),
            )
        },
        layout::migrated_log_step(command + ".log"@) is None ==> log_move(
            layout::dataset_metadata_dir_of(parquet_dir, dataset),
            command + ".log"@,
        ).len() == 0,
{
    layout::law_logs_stand_with_their_step(parquet_dir, dataset, command);
}

/// The moves of several logs are those of each, one after the other.
pub proof fn law_moves_of_logs(ds_dir: Seq<char>, names: Seq<Seq<char>>, name: Seq<char>)
    ensures
        log_moves(ds_dir, Seq::empty()).len() == 0,
        log_moves(ds_dir, names.push(name)) == log_moves(ds_dir, names) + log_move(ds_dir, name),
{
    assert(names.push(name).drop_last() =~= names);
}

/// The reports of a dataset are moved to those of the root, unless one of that name is
/// there.
pub proof fn law_stray_reports_are_gathered(
    new_root: Seq<char>,
    ds_dir: Seq<char>,
    v: Seq<StrayReport>,
    x: StrayReport,
)
    ensures
        report_moves(new_root, ds_dir, Seq::empty()) == seq![
            OpView::MakeDir(paths::join_of(new_root, "reports"@)),
        ],
        x.target_exists ==> report_moves(new_root, ds_dir, v.push(x)) == report_moves(
            new_root,
            ds_dir,
            v,
        ),
        !x.target_exists ==> report_moves(new_root, ds_dir, v.push(x)) == report_moves(
            new_root,
            ds_dir,
            v,
        ).push(
            OpView::Rename(
                paths::join_of(paths::join_of(ds_dir, "reports"@), x.name@),
                paths::join_of(paths::join_of(new_root, "reports"@), x.name@),
            ),
        ),
{
    assert(v.push(x).drop_last() =~= v);
}

/// The hidden metadata of a dataset is merged with what is kept about that dataset; other
/// names are left alone.
pub proof fn law_hidden_metadata_is_merged(
    parquet: Seq<char>,
    new_root: Seq<char>,
    names: Seq<Seq<char>>,
    name: Seq<char>,
    dataset: Seq<char>,
)
    requires
        dataset.len() > 0 ==> dataset[0] != '.',
        !text::has_suffix(dataset, "_metadata"@),
    ensures
        ({
            let hidden = seq!['.'] + dataset + "_metadata"@;
            hidden_merge(parquet, new_root, hidden) == seq![
                OpView::Merge(paths::join_of(parquet, hidden), paths::join_of(new_root, dataset)),
            ]
        }),
        name.len() == 0 || name[0] != '.' ==> hidden_merge(parquet, new_root, name).len() == 0,
        !text::has_suffix(name, "_metadata"@) ==> hidden_merge(parquet, new_root, name).len() == 0,
        hidden_merges(parquet, new_root, names.push(name)) == hidden_merges(
            parquet,
            new_root,
            names,
        ) + hidden_merge(parquet, new_root, name),
        hidden_merges(parquet, new_root, Seq::empty()).len() == 0,
{
    layout::law_hidden_metadata(dataset, name);
    assert(names.push(name).drop_last() =~= names);
}

/// A report that is finished is archived under its name; one that still runs stays.
pub proof fn law_finished_reports_are_archived(
    dir: Seq<char>,
    base: Seq<char>,
    v: Seq<ReportFile>,
    x: ReportFile,
)
    ensures
        archived_reports(dir, base, Seq::empty()).len() == 0,
        x.finished ==> archived_reports(dir, base, v.push(x)) == archived_reports(dir, base, v).push(
            OpView::Rename(
                paths::join_of(dir, x.name@),
                paths::join_of(paths::join_of(base, "reports"@), x.name@),
            ),
        ),
        !x.finished ==> archived_reports(dir, base, v.push(x)) == archived_reports(dir, base, v),
{
    assert(v.push(x).drop_last() =~= v);
}

/// The logs of the four steps of a dataset are archived in the same place below the
/// archive; other files, and what belongs to no dataset, stay.
pub proof fn law_logs_are_archived(
    meta: Seq<char>,
    base: Seq<char>,
    v: Seq<StepFile>,
    f: StepFile,
)
    ensures
        archived_logs(meta, base, Seq::empty()).len() == 0,
        ({
            let step = f.step@ == "convert"@ || f.step@ == "conversion-verify"@ || f.step@
                == "index"@ || f.step@ == "index-verify"@;
            let dataset = f.dataset@ != "reports"@ && f.dataset@ != "archived"@ && f.dataset@
                != "download"@;
            &&& step && dataset ==> archived_logs(meta, base, v.push(f)) == archived_logs(
                meta,
                base,
                v,
            ).push(
                OpView::Rename(
                    paths::join_of(
                        paths::join_of(paths::join_of(meta, f.dataset@), f.step@),
                        f.name@,
                    ),
                    paths::join_of(
                        paths::join_of(paths::join_of(base, f.dataset@), f.step@),
                        f.name@,
                    ),
                ),
            )
            &&& !step || !dataset ==> archived_logs(meta, base, v.push(f)) == archived_logs(
                meta,
                base,
                v,
            )
        }),
{
    assert(v.push(f).drop_last() =~= v);
    let s = step_dirs();
    assert(s[0] == "convert"@ && s[1] == "conversion-verify"@ && s[2] == "index"@ && s[3]
        == "index-verify"@);
}

/// What is archived goes to a directory of the time, and the log of the downloads with it
/// where there is one.
pub proof fn law_archive(
    parquet_dir: Seq<char>,
    snapshot_dir: Seq<char>,
    base: Seq<char>,
    ts: int,
)
    ensures
        archive_base_of(parquet_dir, ts) == paths::join_of(
            paths::join_of(layout::metadata_root_of(parquet_dir), "archived"@),
            text::signed_decimal(ts),
        ),
        archive_moves(parquet_dir, snapshot_dir, base, Seq::empty(), false, Seq::empty()).len() == 0,
        archive_moves(parquet_dir, snapshot_dir, base, Seq::empty(), true, Seq::empty()) == seq![
            OpView::Rename(
                layout::download_log_path_of(snapshot_dir),
                paths::join_of(paths::join_of(base, "download"@), "download.log"@),
            ),
        ],
{
    assert(archive_moves(parquet_dir, snapshot_dir, base, Seq::empty(), true, Seq::empty()) =~= seq![
        OpView::Rename(
            layout::download_log_path_of(snapshot_dir),
            paths::join_of(paths::join_of(base, "download"@), "download.log"@),
        ),
    ]);
}

/// The logs that a new run of a command makes stale are those of that command in the four
/// steps of every dataset.
pub proof fn law_stale_logs(
    meta: Seq<char>,
    dirs: Seq<Seq<char>>,
    dataset: Seq<char>,
    command: Seq<char>,
)
    ensures
        stale_of(meta, Seq::empty(), command).len() == 0,
        dataset == "reports"@ || dataset == "archived"@ || dataset == "download"@ ==> stale_of(
            meta,
            dirs.push(dataset),
            command,
        ) == stale_of(meta, dirs, command),
        dataset != "reports"@ && dataset != "archived"@ && dataset != "download"@ ==> {
            let dir = paths::join_of(meta, dataset);
            let log = command + ".log"@;
            stale_of(meta, dirs.push(dataset), command) == stale_of(meta, dirs, command) + seq![
                paths::join_of(paths::join_of(dir, "convert"@), log),
                paths::join_of(paths::join_of(dir, "conversion-verify"@), log),
                paths::join_of(paths::join_of(dir, "index"@), log),
                paths::join_of(paths::join_of(dir, "index-verify"@), log),
            ]
        },
{
    assert(dirs.push(dataset).drop_last() =~= dirs);
    let dir = paths::join_of(meta, dataset);
    let log = command + ".log"@;
    let s = step_dirs();
    assert(s[0] == "convert"@ && s[1] == "conversion-verify"@ && s[2] == "index"@ && s[3]
        == "index-verify"@);
    assert(stale_in(meta, dataset, command) =~= seq![
        paths::join_of(paths::join_of(dir, "convert"@), log),
        paths::join_of(paths::join_of(dir, "conversion-verify"@), log),
        paths::join_of(paths::join_of(dir, "index"@), log),
        paths::join_of(paths::join_of(dir, "index-verify"@), log),
    ]);
}

/// A report is one of a download, of the root or of a dataset by the directory that it
/// stands in.
pub proof fn law_kinds_of_reports(root: Seq<char>, name: Seq<char>)
    requires
        paths::is_tidy(root),
        paths::is_component(name),
    ensures
        kind_of(
            paths::join_of(
                layout::download_metadata_root_of(layout::snapshot_dir_of(root)),
                name,
            ),
            layout::snapshot_dir_of(root),
            layout::parquet_dir_of(root),
        ) == "download"@,
{
    let base = layout::download_metadata_root_of(layout::snapshot_dir_of(root));
    lemma_name_alone(name);
    paths::law_joined_path_is_below_its_base(base, name);
}

proof fn lemma_name_alone(name: Seq<char>)
    requires
        paths::is_component(name),
    ensures
        !paths::is_rooted(name),
        paths::is_tidy(name),
        paths::body_start(name) == 0,
{
    assert(name.contains(name[0]) && name.contains(name.last()));
    if name.len() > 1 {
        assert(name.contains(name[1]));
        assert(name.contains(name[name.len() - 2]));
    } else if name[0] == '.' {
        assert(name =~= seq!['.']);
    }
}
/// The logs that older releases wrote are those of the six commands whose step is known.
pub proof fn law_old_logs(i: int)
    requires
        0 <= i < old_log_names().len(),
    ensures
        layout::migrated_log_step(old_log_names()[i]) is Some,
        old_log_names().len() == 6,
        old_log_names()[0] == "convert.log"@,
        old_log_names()[1] == "index.log"@,
        old_log_names()[2] == "verify.log"@,
        old_log_names()[3] == "verify-index.log"@,
        old_log_names()[4] == "verify_convert.log"@,
        old_log_names()[5] == "verify_index.log"@,
{
    let s = old_log_names();
    assert(s[0] == "convert.log"@ && s[1] == "index.log"@ && s[2] == "verify.log"@);
    assert(s[3] == "verify-index.log"@ && s[4] == "verify_convert.log"@ && s[5]
        == "verify_index.log"@);
    layout::law_logs_stand_with_their_step(Seq::empty(), Seq::empty(), Seq::empty());
}

/// What is kept about a root was hidden once; it stands in the open now. The old reports of
/// a command are those of its names.
pub proof fn law_old_places(root: Seq<char>, names: Seq<Seq<char>>, name: Seq<char>, command: Seq<char>)
    ensures
        new_root_of(root) == paths::join_of(root, "openalex-snapshot_metadata"@),
        dot_root_of(root) == paths::join_of(root, ".openalex-snapshot_metadata"@),
        records::is_report_name(name, command) ==> old_reports(names.push(name), command)
            == old_reports(names, command).push(name),
        !records::is_report_name(name, command) ==> old_reports(names.push(name), command)
            == old_reports(names, command),
        old_reports(Seq::empty(), command).len() == 0,
{
    reveal(Seq::filter);
    assert(names.push(name).drop_last() =~= names);
}
} // verus!
