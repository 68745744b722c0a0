//! Snapshots, fingerprints and projections of the settler manager's state.

use vstd::prelude::*;
use crate::text::{hex_padded, prefixed_hex8};
use super::task_def::TaskCategory;
use super::state::{Settler, SettlerStatus};
use super::task::{Task, TaskStatus};
use crate::checksum::{le_bytes, push_le};
use std::collections::hash_map::DefaultHasher;
use std::hash::Hasher;

verus! {

/// Snapshot of the settler manager's counters at a tick. `tasks_by_category`
/// holds, for each category that has tasks, the category and its count, in
/// the categories' declaration order.
#[derive(Clone, Debug, Default, PartialEq, Eq)]
pub struct SettlerSnapshot {
    pub tick: u64,
    pub total_settlers: u32,
    pub idle_settlers: u32,
    pub working_settlers: u32,
    pub incapacitated_settlers: u32,
    pub total_tasks: u32,
    pub pending_tasks: u32,
    pub in_progress_tasks: u32,
    pub completed_tasks: u32,
    pub failed_tasks: u32,
    pub total_work_done: u64,
    pub tasks_by_category: Vec<(TaskCategory, u32)>,
}

impl SettlerSnapshot {
    /// A snapshot at `tick` with every count zero.
    pub fn new(tick: u64) -> (r: Self)
        ensures
            r.tick == tick,
            r.total_settlers == 0 && r.idle_settlers == 0 && r.working_settlers == 0,
            r.incapacitated_settlers == 0 && r.total_tasks == 0 && r.pending_tasks == 0,
            r.in_progress_tasks == 0 && r.completed_tasks == 0 && r.failed_tasks == 0,
            r.total_work_done == 0,
            r.tasks_by_category@.len() == 0,
    {
        SettlerSnapshot {
            tick,
            total_settlers: 0,
            idle_settlers: 0,
            working_settlers: 0,
            incapacitated_settlers: 0,
            total_tasks: 0,
            pending_tasks: 0,
            in_progress_tasks: 0,
            completed_tasks: 0,
            failed_tasks: 0,
            total_work_done: 0,
            tasks_by_category: Vec::new(),
        }
    }
}

/// Fingerprint for settler manager state verification.
#[derive(Clone, Copy, Debug, PartialEq, Eq, Hash, Structural)]
pub struct SettlerFingerprint(pub u32);

impl SettlerFingerprint {
    /// The raw fingerprint.
    pub fn raw(self) -> (r: u32)
        ensures
            r == self.0,
    {
        self.0
    }

    /// The text form `settler:<eight hex digits>`.
    pub fn to_string(&self) -> (s: String)
        ensures
            s@ == "settler:"@ + hex_padded(self.0 as nat, 8),
    {
        prefixed_hex8("settler:", self.0)
    }
}

/// The declaration index of a settler status, which is what hashing it writes.
pub open spec fn settler_status_code(s: SettlerStatus) -> nat {
    match s {
        SettlerStatus::Idle => 0,
        SettlerStatus::Working => 1,
        SettlerStatus::Traveling => 2,
        SettlerStatus::Resting => 3,
        SettlerStatus::Incapacitated => 4,
    }
}

/// The declaration index of a task status, which is what hashing it writes.
pub open spec fn task_status_code(s: TaskStatus) -> nat {
    match s {
        TaskStatus::Pending => 0,
        TaskStatus::Claimed => 1,
        TaskStatus::InProgress => 2,
        TaskStatus::Paused => 3,
        TaskStatus::Completed => 4,
        TaskStatus::Failed => 5,
        TaskStatus::Cancelled => 6,
    }
}

/// The byte strings hashing a settler writes: its number, the index of its
/// status, and its current task as an option (tag 0 for none, or tag 1 and
/// the task number), each as eight bytes, least significant first.
pub open spec fn settler_writes(s: Settler) -> Seq<Seq<u8>> {
    seq![le_bytes(s.id.0 as nat, 8), le_bytes(settler_status_code(s.status), 8)] + match s.current_task {
        None => seq![le_bytes(0, 8)],
        Some(t) => seq![le_bytes(1, 8), le_bytes(t.0 as nat, 8)],
    }
}

/// The byte strings hashing a task writes: its number and the index of its
/// status as eight bytes, its work done and work required as four bytes,
/// each least significant first.
pub open spec fn task_writes(t: Task) -> Seq<Seq<u8>> {
    seq![
        le_bytes(t.id.0 as nat, 8),
        le_bytes(task_status_code(t.status), 8),
        le_bytes(t.work_done as nat, 4),
        le_bytes(t.work_required as nat, 4),
    ]
}

/// The writes of the settlers of a sequence, in order.
pub open spec fn settlers_writes(s: Seq<Settler>) -> Seq<Seq<u8>>
    decreases s.len(),
{
    if s.len() == 0 {
        Seq::empty()
    } else {
        settlers_writes(s.drop_last()) + settler_writes(s.last())
    }
}

/// The writes of the tasks of a sequence, in order.
pub open spec fn tasks_writes(s: Seq<Task>) -> Seq<Seq<u8>>
    decreases s.len(),
{
    if s.len() == 0 {
        Seq::empty()
    } else {
        tasks_writes(s.drop_last()) + task_writes(s.last())
    }
}

/// Writes the `n` low bytes of `x`, least significant first, to the hasher.
pub(crate) fn write_le(hasher: &mut DefaultHasher, x: u64, n: u64)
    ensures
        final(hasher)@ == old(hasher)@.push(le_bytes(x as nat, n as nat)),
{
    let mut bytes: Vec<u8> = Vec::new();
    push_le(&mut bytes, x, n);
    proof {
        assert(bytes@ =~= le_bytes(x as nat, n as nat));
    }
    hasher.write(bytes.as_slice());
}

fn settler_status_code_exec(s: SettlerStatus) -> (c: u64)
    ensures
        c == settler_status_code(s),
{
    match s {
        SettlerStatus::Idle => 0,
        SettlerStatus::Working => 1,
        SettlerStatus::Traveling => 2,
        SettlerStatus::Resting => 3,
        SettlerStatus::Incapacitated => 4,
    }
}

fn task_status_code_exec(s: TaskStatus) -> (c: u64)
    ensures
        c == task_status_code(s),
{
    match s {
        TaskStatus::Pending => 0,
        TaskStatus::Claimed => 1,
        TaskStatus::InProgress => 2,
        TaskStatus::Paused => 3,
        TaskStatus::Completed => 4,
        TaskStatus::Failed => 5,
        TaskStatus::Cancelled => 6,
    }
}

/// Writes a settler's byte strings to the hasher.
pub(crate) fn write_settler(hasher: &mut DefaultHasher, s: &Settler)
    ensures
        final(hasher)@ == old(hasher)@ + settler_writes(*s),
{
    write_le(hasher, s.id.0, 8);
    write_le(hasher, settler_status_code_exec(s.status), 8);
    match s.current_task {
        None => {
            write_le(hasher, 0, 8);
        },
        Some(t) => {
            write_le(hasher, 1, 8);
            write_le(hasher, t.0, 8);
        },
    }
    proof {
        assert(hasher@ =~= old(hasher)@ + settler_writes(*s));
    }
}

/// Writes a task's byte strings to the hasher.
pub(crate) fn write_task(hasher: &mut DefaultHasher, t: &Task)
    ensures
        final(hasher)@ == old(hasher)@ + task_writes(*t),
{
    write_le(hasher, t.id.0, 8);
    write_le(hasher, task_status_code_exec(t.status), 8);
    write_le(hasher, t.work_done as u64, 4);
    write_le(hasher, t.work_required as u64, 4);
    proof {
        assert(hasher@ =~= old(hasher)@ + task_writes(*t));
    }
}

/// Projection of the settler manager's state some ticks ahead.
#[derive(Clone, Debug, PartialEq, Eq, Structural)]
pub struct SettlerProjection {
    pub base_tick: u64,
    pub projected_tick: u64,
    pub estimated_completions: u32,
    pub estimated_idle_settlers: u32,
    pub estimated_pending_tasks: u32,
}

impl SettlerProjection {
    /// A projection between the two ticks with every estimate zero.
    pub fn new(base_tick: u64, projected_tick: u64) -> (r: Self)
        ensures
            r == (SettlerProjection {
                base_tick,
                projected_tick,
                estimated_completions: 0,
                estimated_idle_settlers: 0,
                estimated_pending_tasks: 0,
            }),
    {
        SettlerProjection {
            base_tick,
            projected_tick,
            estimated_completions: 0,
            estimated_idle_settlers: 0,
            estimated_pending_tasks: 0,
        }
    }
}

} // verus!
