//! Checkpoints: where a worker's snapshot is kept, how a save replaces the
//! previous generation, and which checkpoint a resumed run starts from.

use crate::paths::{join, joined_path};
use std::fmt::Write;
use vstd::prelude::*;

verus! {

/// The file that holds a worker's run data.
pub const RUN_DATAS_FILE: &'static str = "run_datas.json";

/// The file that holds a worker's collected compile errors.
pub const COMPILE_ERROR_DATAS_FILE: &'static str = "compile_error_datas.json";

/// The file that holds a worker's processed ids.
pub const PROCESSED_DATA_IDS_FILE: &'static str = "processed_data_ids.json";

/// The previous generation of [`RUN_DATAS_FILE`].
pub const RUN_DATAS_SHADOW: &'static str = "run_datas.json.1";

/// The previous generation of [`COMPILE_ERROR_DATAS_FILE`].
pub const COMPILE_ERROR_DATAS_SHADOW: &'static str = "compile_error_datas.json.1";

/// The previous generation of [`PROCESSED_DATA_IDS_FILE`].
pub const PROCESSED_DATA_IDS_SHADOW: &'static str = "processed_data_ids.json.1";

/// The format of a run's start time, which names its checkpoint folder.
pub const START_TIME_FORMAT: &'static str = "%Y-%m-%d_%H-%M-%S";

/// One of the three parts of a worker's snapshot.
#[derive(PartialEq, Eq, Structural, Copy, Clone, Debug)]
pub enum Part {
    RunDatas,
    CompileErrorDatas,
    ProcessedDataIds,
}

/// One step of a save.
#[derive(Debug, PartialEq, Eq)]
pub enum FileOp {
    /// Rename `from` over `to`.
    Rename { from: String, to: String },
    /// Create `path` and write this part of the snapshot to it.
    Write { path: String, part: Part },
}

/// The mathematical value of a [`FileOp`].
pub enum FileOpView {
    Rename { from: Seq<char>, to: Seq<char> },
    Write { path: Seq<char>, part: Part },
}

impl View for FileOp {
    type V = FileOpView;

    open spec fn view(&self) -> FileOpView {
        match self {
            FileOp::Rename { from, to } => FileOpView::Rename { from: from@, to: to@ },
            FileOp::Write { path, part } => FileOpView::Write { path: path@, part: *part },
        }
    }
}

/// Which of the three snapshot files exist in a worker's folder.
#[derive(PartialEq, Eq, Structural, Copy, Clone, Debug)]
pub struct Existing {
    pub run_datas: bool,
    pub compile_error_datas: bool,
    pub processed_data_ids: bool,
}

/// A fresh version-4 UUID in hyphenated form, from `uuid::Uuid::new_v4` and
/// its `to_string`. The value is random; the contract states only the
/// length that the hyphenated form always has. `new_v4` gives up with a
/// panic where the operating system cannot supply random bytes.
#[verifier::external_body]
pub(crate) fn fresh_uuid() -> (id: String)
    ensures
        id@.len() == 36,
{
    uuid::Uuid::new_v4().to_string()
}

/// The local time now, from `chrono::Local::now`, written by
/// `DateTime::format` with the given format; `None` where the format cannot
/// be written. Nothing is claimed of the text. `Local::now` gives up with a
/// panic where the system clock stands before the Unix epoch.
#[verifier::external_body]
pub(crate) fn local_timestamp(format: &str) -> (now: Option<String>) {
    let mut text = String::new();
    match write!(text, "{}", chrono::Local::now().format(format)) {
        Ok(()) => Some(text),
        Err(_) => None,
    }
}

/// The folder of one worker's checkpoint: under the autosave directory,
/// the folder of the run, and in it the folder of the worker.
pub open spec fn checkpoint_folder(
    autosave_dir: Seq<char>,
    start_time: Seq<char>,
    worker_id: Seq<char>,
) -> Seq<char> {
    joined_path(joined_path(autosave_dir, start_time), worker_id)
}

/// The folder of one worker's checkpoint: see [`checkpoint_folder`].
pub fn checkpoint_dir(autosave_dir: &str, start_time: &str, worker_id: &str) -> (dir: String)
    ensures
        dir@ == checkpoint_folder(autosave_dir@, start_time@, worker_id@),
{
    let run_dir = join(autosave_dir, start_time);
    join(run_dir.as_str(), worker_id)
}

/// The renames that keep the previous generation: each file that exists
/// moves over its shadow.
pub open spec fn shadow_ops(dir: Seq<char>, existing: Existing) -> Seq<FileOpView> {
    let first = if existing.run_datas {
        seq![
            FileOpView::Rename {
                from: joined_path(dir, RUN_DATAS_FILE@),
                to: joined_path(dir, RUN_DATAS_SHADOW@),
            },
        ]
    } else {
        Seq::empty()
    };
    let second = if existing.compile_error_datas {
        seq![
            FileOpView::Rename {
                from: joined_path(dir, COMPILE_ERROR_DATAS_FILE@),
                to: joined_path(dir, COMPILE_ERROR_DATAS_SHADOW@),
            },
        ]
    } else {
        Seq::empty()
    };
    let third = if existing.processed_data_ids {
        seq![
            FileOpView::Rename {
                from: joined_path(dir, PROCESSED_DATA_IDS_FILE@),
                to: joined_path(dir, PROCESSED_DATA_IDS_SHADOW@),
            },
        ]
    } else {
        Seq::empty()
    };
    first + second + third
}

/// The writes of a save: the three parts, each to its file.
pub open spec fn write_ops(dir: Seq<char>) -> Seq<FileOpView> {
    seq![
        FileOpView::Write { path: joined_path(dir, RUN_DATAS_FILE@), part: Part::RunDatas },
        FileOpView::Write {
            path: joined_path(dir, COMPILE_ERROR_DATAS_FILE@),
            part: Part::CompileErrorDatas,
        },
        FileOpView::Write {
            path: joined_path(dir, PROCESSED_DATA_IDS_FILE@),
            part: Part::ProcessedDataIds,
        },
    ]
}

/// The steps of a save, in order: first every rename, then every write.
pub open spec fn save_ops(dir: Seq<char>, existing: Existing) -> Seq<FileOpView> {
    shadow_ops(dir, existing) + write_ops(dir)
}

/// The values of a sequence of steps, step by step.
pub open spec fn op_views(ops: Seq<FileOp>) -> Seq<FileOpView> {
    Seq::new(ops.len(), |i: int| ops[i]@)
}

fn push_rename(ops: &mut Vec<FileOp>, dir: &str, file: &str, shadow: &str)
    ensures
        op_views(final(ops)@) == op_views(old(ops)@).push(
            FileOpView::Rename { from: joined_path(dir@, file@), to: joined_path(dir@, shadow@) },
        ),
{
    let op = FileOp::Rename { from: join(dir, file), to: join(dir, shadow) };
    ops.push(op);
    assert(op_views(ops@) =~= op_views(old(ops)@).push(op@));
}

fn push_write(ops: &mut Vec<FileOp>, dir: &str, file: &str, part: Part)
    ensures
        op_views(final(ops)@) == op_views(old(ops)@).push(
            FileOpView::Write { path: joined_path(dir@, file@), part },
        ),
{
    let op = FileOp::Write { path: join(dir, file), part };
    ops.push(op);
    assert(op_views(ops@) =~= op_views(old(ops)@).push(op@));
}

/// Plans the save of a worker's snapshot into its folder `dir`, given
/// which of the three files are there already: see [`save_ops`].
///
/// A file that exists is first renamed over its shadow, so that the last
/// complete generation survives a crash during the writes.
pub fn autosave_save(dir: &str, existing: Existing) -> (ops: Vec<FileOp>)
    ensures
        op_views(ops@) == save_ops(dir@, existing),
{
    let mut ops: Vec<FileOp> = Vec::new();
    assert(op_views(ops@) =~= Seq::<FileOpView>::empty());
    if existing.run_datas {
        push_rename(&mut ops, dir, RUN_DATAS_FILE, RUN_DATAS_SHADOW);
    }
    if existing.compile_error_datas {
        push_rename(&mut ops, dir, COMPILE_ERROR_DATAS_FILE, COMPILE_ERROR_DATAS_SHADOW);
    }
    if existing.processed_data_ids {
        push_rename(&mut ops, dir, PROCESSED_DATA_IDS_FILE, PROCESSED_DATA_IDS_SHADOW);
    }
    assert(op_views(ops@) =~= shadow_ops(dir@, existing));
    push_write(&mut ops, dir, RUN_DATAS_FILE, Part::RunDatas);
    push_write(&mut ops, dir, COMPILE_ERROR_DATAS_FILE, Part::CompileErrorDatas);
    push_write(&mut ops, dir, PROCESSED_DATA_IDS_FILE, Part::ProcessedDataIds);
    assert(op_views(ops@) =~= save_ops(dir@, existing));
    ops
}

/// One entry of the autosave directory.
#[derive(Debug, PartialEq, Eq)]
pub struct FolderEntry {
    pub path: String,
    pub is_dir: bool,
    /// The modification time, in nanoseconds since the epoch.
    pub modified: u128,
}

/// Whether entry `i` is the most recently modified folder; among folders
/// modified at the same time, the first.
pub open spec fn is_latest(entries: Seq<FolderEntry>, i: int) -> bool {
    &&& 0 <= i < entries.len()
    &&& entries[i].is_dir
    &&& forall|j: int|
        0 <= j < entries.len() && (#[trigger] entries[j]).is_dir ==> entries[j].modified
            < entries[i].modified || (entries[j].modified == entries[i].modified && i <= j)
}

/// Whether any entry is a folder.
pub open spec fn has_folder(entries: Seq<FolderEntry>) -> bool {
    exists|j: int| 0 <= j < entries.len() && (#[trigger] entries[j]).is_dir
}

/// The index of the most recently modified folder among `entries`, or
/// `None` if there is no folder: see [`is_latest`].
pub fn latest_folder(entries: &Vec<FolderEntry>) -> (latest: Option<usize>)
    ensures
        latest is Some <==> has_folder(entries@),
        latest matches Some(i) ==> is_latest(entries@, i as int),
{
    let mut latest: Option<usize> = None;
    let mut i: usize = 0;
    while i < entries.len()
        invariant
            i <= entries.len(),
            latest is None ==> forall|j: int| 0 <= j < i ==> !(#[trigger] entries@[j]).is_dir,
            latest matches Some(l) ==> is_latest(entries@.take(i as int), l as int),
        decreases entries.len() - i,
    {
        let ghost seen = entries@.take(i as int);
        let ghost next = entries@.take(i + 1);
        assert(forall|j: int| 0 <= j < i ==> next[j] == seen[j]);
        if entries[i].is_dir {
            let newer = match latest {
                Some(l) => entries[i].modified > entries[l].modified,
                None => true,
            };
            if newer {
                latest = Some(i);
            }
        }
        proof {
            if let Some(l) = latest {
                assert forall|j: int| 0 <= j < next.len() && (#[trigger] next[j]).is_dir implies (
                next[j].modified < next[l as int].modified || (next[j].modified == next[l as int].modified
                    && l <= j)) by {
                    if j < i {
                        assert(seen[j].is_dir);
                    }
                }
            }
        }
        i += 1;
    }
    assert(entries@.take(entries.len() as int) =~= entries@);
    proof {
        if let Some(l) = latest {
            assert(entries@[l as int].is_dir);
        }
    }
    latest
}

} // verus!
