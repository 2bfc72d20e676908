//! Remote directory entries and the queue of file transfers.
use vstd::prelude::*;
use crate::connection::{TransferStatus, TransferTask};
use crate::path::{file_name, file_name_spec};
use crate::trusted::{byte_size_text, bytesize_text};

verus! {

broadcast use vstd::string::group_string_axioms;

/// An entry of a remote directory.
#[derive(Debug)]
pub struct SftpEntry {
    pub name: String,
    pub path: String,
    pub is_dir: bool,
    pub size: u64,
    pub mtime: u64,
}

impl Clone for SftpEntry {
    fn clone(&self) -> (r: Self)
        ensures
            r == *self,
    {
        SftpEntry {
            name: self.name.clone(),
            path: self.path.clone(),
            is_dir: self.is_dir,
            size: self.size,
            mtime: self.mtime,
        }
    }
}

/// The text that shows the size of an entry: `"<DIR>"` for a directory, else
/// the size in decimal units as the `bytesize` crate writes it.
pub open spec fn size_text(e: SftpEntry) -> Seq<char> {
    if e.is_dir {
        "<DIR>"@
    } else {
        bytesize_text(e.size)
    }
}

impl SftpEntry {
    /// The entry for a path of a directory listing and what its status gave:
    /// the name is the path's file name (empty when it has none), a missing
    /// size or modification time counts as 0.
    pub fn from_listing(path: &str, is_dir: bool, size: Option<u64>, mtime: Option<u64>) -> (r: Self)
        ensures
            r.name@ == (match file_name_spec(path@) {
                Some(n) => n,
                None => Seq::<char>::empty(),
            }),
            r.path@ == path@,
            r.is_dir == is_dir,
            r.size == (match size {
                Some(s) => s,
                None => 0u64,
            }),
            r.mtime == (match mtime {
                Some(m) => m,
                None => 0u64,
            }),
    {
        SftpEntry {
            name: match file_name(path) {
                Some(n) => n,
                None => String::new(),
            },
            path: String::from_str(path),
            is_dir,
            size: match size {
                Some(s) => s,
                None => 0,
            },
            mtime: match mtime {
                Some(m) => m,
                None => 0,
            },
        }
    }

    /// The size as shown in the file list.
    pub fn format_size(&self) -> (r: String)
        ensures
            r@ == size_text(*self),
    {
        if self.is_dir {
            return String::from_str("<DIR>");
        }
        byte_size_text(self.size)
    }
}

/// Index of the first task with identifier `id`, or `q.len()`.
pub open spec fn task_index(q: Seq<TransferTask>, id: Seq<char>) -> int
    decreases q.len(),
{
    if q.len() == 0 {
        0
    } else if q[0].id@ == id {
        0
    } else {
        1 + task_index(q.drop_first(), id)
    }
}

/// The queue after the first task with identifier `id` takes the given status
/// and byte counts; unchanged when no task has that identifier.
pub open spec fn update_spec(
    q: Seq<TransferTask>,
    id: Seq<char>,
    status: TransferStatus,
    transferred: u64,
    total: u64,
) -> Seq<TransferTask> {
    let i = task_index(q, id);
    if 0 <= i < q.len() {
        q.update(i, TransferTask { status, transferred_bytes: transferred, total_bytes: total, ..q[i] })
    } else {
        q
    }
}

/// Adds a task at the end of the queue.
pub fn add_task(queue: &mut Vec<TransferTask>, task: TransferTask)
    ensures
        final(queue)@ == old(queue)@.push(task),
{
    queue.push(task);
}

/// Records the progress of a transfer: the first task with identifier
/// `task_id` takes the status and byte counts given; no other task changes.
pub fn update_task_status(
    queue: &mut Vec<TransferTask>,
    task_id: &str,
    status: TransferStatus,
    transferred: u64,
    total: u64,
)
    ensures
        final(queue)@ == update_spec(old(queue)@, task_id@, status, transferred, total),
{
    let ghost q0 = queue@;
    let id = String::from_str(task_id);
    let mut i: usize = 0;
    assert(q0.skip(0) =~= q0);
    while i < queue.len()
        invariant
            queue@ == q0,
            q0 == old(queue)@,
            i <= queue.len(),
            id@ == task_id@,
            task_index(q0, task_id@) == i + task_index(q0.skip(i as int), task_id@),
        decreases queue.len() - i,
    {
        if queue[i].id == id {
            let old_task = &queue[i];
            let t = TransferTask {
                id: old_task.id.clone(),
                connection_id: old_task.connection_id.clone(),
                direction: old_task.direction,
                local_path: old_task.local_path.clone(),
                remote_path: old_task.remote_path.clone(),
                total_bytes: total,
                transferred_bytes: transferred,
                status,
            };
            assert(q0.skip(i as int)[0] == q0[i as int]);
            assert(task_index(q0, task_id@) == i);
            assert(t == TransferTask {
                status,
                transferred_bytes: transferred,
                total_bytes: total,
                ..q0[i as int]
            });
            queue[i] = t;
            assert(queue@ =~= q0.update(i as int, t));
            return;
        }
        assert(q0.skip(i as int).drop_first() =~= q0.skip(i + 1));
        i += 1;
    }
    assert(q0.skip(i as int).len() == 0);
}

/// A transfer of `total` bytes begins: the task is in progress, nothing copied.
pub fn record_start(queue: &mut Vec<TransferTask>, task_id: &str, total: u64)
    ensures
        final(queue)@ == update_spec(old(queue)@, task_id@, TransferStatus::InProgress, 0, total),
{
    update_task_status(queue, task_id, TransferStatus::InProgress, 0, total);
}

/// `chunk` more bytes of a transfer of `total` bytes have been copied, after
/// `transferred`: the task is in progress with the new count, which is
/// returned.
pub fn record_chunk(queue: &mut Vec<TransferTask>, task_id: &str, transferred: u64, chunk: usize, total: u64) -> (r: u64)
    requires
        transferred + chunk <= u64::MAX,
    ensures
        r == transferred + chunk,
        final(queue)@ == update_spec(old(queue)@, task_id@, TransferStatus::InProgress, r, total),
{
    let r = transferred + chunk as u64;
    update_task_status(queue, task_id, TransferStatus::InProgress, r, total);
    r
}

/// A transfer of `total` bytes has ended: the task is completed with all of
/// them copied.
pub fn record_done(queue: &mut Vec<TransferTask>, task_id: &str, total: u64)
    ensures
        final(queue)@ == update_spec(old(queue)@, task_id@, TransferStatus::Completed, total, total),
{
    update_task_status(queue, task_id, TransferStatus::Completed, total, total);
}

/// A transfer failed for the reason `error`, after `transferred` of its
/// `total` bytes: the task is failed with that reason and those counts.
pub fn record_failed(queue: &mut Vec<TransferTask>, task_id: &str, error: String, transferred: u64, total: u64)
    ensures
        final(queue)@ == update_spec(old(queue)@, task_id@, TransferStatus::Failed(error), transferred, total),
{
    update_task_status(queue, task_id, TransferStatus::Failed(error), transferred, total);
}

proof fn lemma_task_index(q: Seq<TransferTask>, id: Seq<char>)
    ensures
        0 <= task_index(q, id) <= q.len(),
        task_index(q, id) < q.len() ==> q[task_index(q, id)].id@ == id,
        forall|k: int| 0 <= k < task_index(q, id) ==> (#[trigger] q[k]).id@ != id,
    decreases q.len(),
{
    if q.len() > 0 && q[0].id@ != id {
        lemma_task_index(q.drop_first(), id);
        assert forall|k: int| 0 <= k < task_index(q, id) implies (#[trigger] q[k]).id@ != id by {
            if k > 0 {
                assert(q[k] == q.drop_first()[k - 1]);
            }
        }
    }
}

proof fn lemma_task_index_same_ids(q: Seq<TransferTask>, p: Seq<TransferTask>, id: Seq<char>)
    requires
        q.len() == p.len(),
        forall|k: int| 0 <= k < q.len() ==> (#[trigger] q[k]).id == p[k].id,
    ensures
        task_index(q, id) == task_index(p, id),
    decreases q.len(),
{
    if q.len() > 0 {
        assert(q[0].id == p[0].id);
        assert forall|k: int| 0 <= k < q.len() - 1 implies (#[trigger] q.drop_first()[k]).id
            == p.drop_first()[k].id by {
            assert(q[k + 1].id == p[k + 1].id);
        }
        lemma_task_index_same_ids(q.drop_first(), p.drop_first(), id);
    }
}

/// Only the last record of a transfer counts: recording progress and then
/// more progress (or the end) leaves the queue as the second record alone
/// would.
pub proof fn law_last_record_wins(
    q: Seq<TransferTask>,
    id: Seq<char>,
    s1: TransferStatus,
    transferred1: u64,
    total1: u64,
    s2: TransferStatus,
    transferred2: u64,
    total2: u64,
)
    ensures
        update_spec(update_spec(q, id, s1, transferred1, total1), id, s2, transferred2, total2)
            == update_spec(q, id, s2, transferred2, total2),
{
    let r = update_spec(q, id, s1, transferred1, total1);
    lemma_task_index(q, id);
    assert forall|k: int| 0 <= k < q.len() implies (#[trigger] q[k]).id == r[k].id by {}
    lemma_task_index_same_ids(q, r, id);
    let i = task_index(q, id);
    if 0 <= i < q.len() {
        assert(update_spec(r, id, s2, transferred2, total2) =~= update_spec(q, id, s2, transferred2, total2));
    }
}

/// Recording progress changes exactly one task, the first with the given
/// identifier, and of it only the status and the byte counts; when no task
/// has the identifier, nothing changes.
pub proof fn law_update_changes_one_task(
    q: Seq<TransferTask>,
    id: Seq<char>,
    status: TransferStatus,
    transferred: u64,
    total: u64,
)
    ensures
        ({
            let r = update_spec(q, id, status, transferred, total);
            let i = task_index(q, id);
            &&& r.len() == q.len()
            &&& forall|j: int| 0 <= j < q.len() && j != i ==> r[j] == q[j]
            &&& (exists|k: int| 0 <= k < q.len() && (#[trigger] q[k]).id@ == id) ==> {
                &&& 0 <= i < q.len()
                &&& q[i].id@ == id
                &&& r[i].id == q[i].id
                &&& r[i].connection_id == q[i].connection_id
                &&& r[i].direction == q[i].direction
                &&& r[i].local_path == q[i].local_path
                &&& r[i].remote_path == q[i].remote_path
                &&& r[i].status == status
                &&& r[i].transferred_bytes == transferred
                &&& r[i].total_bytes == total
            }
            &&& (forall|k: int| 0 <= k < q.len() ==> (#[trigger] q[k]).id@ != id) ==> r == q
        }),
{
    lemma_task_index(q, id);
}

} // verus!
