//! Task instances and their lifecycle. A task's position in the world and its
//! fractional progress are kept by the host, outside this library.

use vstd::prelude::*;
use std::collections::BTreeSet;
use super::ids::{RegionId, SettlerId, TaskDefId, TaskId};
use crate::id_table::Identified;

verus! {

broadcast use vstd::laws_cmp::group_laws_cmp, vstd::std_specs::btree::group_btree_axioms;

/// Current status of a task.
#[derive(Clone, Copy, Debug, PartialEq, Eq, PartialOrd, Ord, Hash, Structural)]
pub enum TaskStatus {
    Pending,
    Claimed,
    InProgress,
    Paused,
    Completed,
    Failed,
    Cancelled,
}

impl TaskStatus {
    /// Claimed, in progress or paused.
    pub fn is_active(&self) -> (b: bool)
        ensures
            b == (*self == TaskStatus::Claimed || *self == TaskStatus::InProgress || *self
                == TaskStatus::Paused),
    {
        matches!(self, TaskStatus::Claimed | TaskStatus::InProgress | TaskStatus::Paused)
    }

    /// Completed, failed or cancelled.
    pub fn is_terminal(&self) -> (b: bool)
        ensures
            b == (*self == TaskStatus::Completed || *self == TaskStatus::Failed || *self
                == TaskStatus::Cancelled),
    {
        matches!(self, TaskStatus::Completed | TaskStatus::Failed | TaskStatus::Cancelled)
    }

    /// Pending.
    pub fn is_available(&self) -> (b: bool)
        ensures
            b == (*self == TaskStatus::Pending),
    {
        matches!(self, TaskStatus::Pending)
    }

    /// Pending: only a pending task can be claimed.
    pub fn can_be_claimed(&self) -> (b: bool)
        ensures
            b == (*self == TaskStatus::Pending),
    {
        matches!(self, TaskStatus::Pending)
    }
}

/// Reason why a task failed.
#[derive(Clone, Debug, PartialEq, Eq, Hash)]
pub enum FailureReason {
    NoWorkers,
    MissingPrerequisite,
    ResourcesUnavailable,
    PathBlocked,
    WorkerIncapacitated,
    Timeout,
    External(String),
}

/// A task instance. Workers, children and blockers are sets of raw
/// settler and task numbers.
#[derive(Clone, Debug, PartialEq)]
pub struct Task {
    pub id: TaskId,
    pub def_id: TaskDefId,
    pub status: TaskStatus,
    pub region: Option<RegionId>,
    pub created_tick: u64,
    pub started_tick: Option<u64>,
    pub completed_tick: Option<u64>,
    pub work_done: u32,
    pub work_required: u32,
    pub assigned_workers: BTreeSet<u64>,
    pub priority_override: Option<i32>,
    pub failure_reason: Option<FailureReason>,
    pub parent_task: Option<TaskId>,
    pub child_tasks: BTreeSet<u64>,
    pub blocked_by: BTreeSet<u64>,
}

/// What a newly made task is: pending, with no work done, no workers and no links.
pub open spec fn fresh_task(t: Task, id: TaskId, def_id: TaskDefId, work_required: u32, created_tick: u64) -> bool {
    &&& t.id == id
    &&& t.def_id == def_id
    &&& t.status == TaskStatus::Pending
    &&& t.region is None
    &&& t.created_tick == created_tick
    &&& t.started_tick is None
    &&& t.completed_tick is None
    &&& t.work_done == 0
    &&& t.work_required == work_required
    &&& t.assigned_workers@ == Set::<u64>::empty()
    &&& t.priority_override is None
    &&& t.failure_reason is None
    &&& t.parent_task is None
    &&& t.child_tasks@ == Set::<u64>::empty()
    &&& t.blocked_by@ == Set::<u64>::empty()
}

impl Identified for Task {
    open spec fn ident(&self) -> u64 {
        self.id.0
    }

    fn ident_value(&self) -> (r: u64) {
        self.id.0
    }
}

impl Task {
    /// A pending task with no work done, no workers and no links.
    pub fn new(id: TaskId, def_id: TaskDefId, work_required: u32, created_tick: u64) -> (r: Self)
        ensures
            fresh_task(r, id, def_id, work_required, created_tick),
    {
        Task {
            id,
            def_id,
            status: TaskStatus::Pending,
            region: None,
            created_tick,
            started_tick: None,
            completed_tick: None,
            work_done: 0,
            work_required,
            assigned_workers: BTreeSet::new(),
            priority_override: None,
            failure_reason: None,
            parent_task: None,
            child_tasks: BTreeSet::new(),
            blocked_by: BTreeSet::new(),
        }
    }

    /// Places the task in a region.
    pub fn with_region(self, region: RegionId) -> (r: Self)
        ensures
            (r == Task { region: Some(region), ..self }),
    {
        let mut t = self;
        t.region = Some(region);
        t
    }

    /// Overrides the definition's priority.
    pub fn with_priority(self, priority: i32) -> (r: Self)
        ensures
            (r == Task { priority_override: Some(priority), ..self }),
    {
        let mut t = self;
        t.priority_override = Some(priority);
        t
    }

    /// Sets the parent task.
    pub fn with_parent(self, parent: TaskId) -> (r: Self)
        ensures
            (r == Task { parent_task: Some(parent), ..self }),
    {
        let mut t = self;
        t.parent_task = Some(parent);
        t
    }

    /// Adds a blocking task.
    pub fn with_blocker(self, blocker: TaskId) -> (r: Self)
        ensures
            r.blocked_by@ == self.blocked_by@.insert(blocker.0),
            (r == Task { blocked_by: r.blocked_by, ..self }),
    {
        let mut t = self;
        t.blocked_by.insert(blocker.0);
        t
    }

    /// The work still to do, never below zero.
    pub fn remaining_work(&self) -> (r: u32)
        ensures
            r == if self.work_done <= self.work_required { self.work_required - self.work_done } else { 0 },
    {
        self.work_required.saturating_sub(self.work_done)
    }

    /// Whether some task still blocks this one.
    pub fn is_blocked(&self) -> (b: bool)
        ensures
            b == !self.blocked_by@.is_empty(),
    {
        !self.blocked_by.is_empty()
    }

    /// Whether the task is completed.
    pub fn is_complete(&self) -> (b: bool)
        ensures
            b == (self.status == TaskStatus::Completed),
    {
        self.status == TaskStatus::Completed
    }

    /// The number of assigned workers.
    pub fn worker_count(&self) -> (n: usize)
        ensures
            n == self.assigned_workers@.len(),
    {
        self.assigned_workers.len()
    }

    /// Whether the settler is assigned.
    pub fn has_worker(&self, settler: SettlerId) -> (b: bool)
        ensures
            b == self.assigned_workers@.contains(settler.0),
    {
        self.assigned_workers.contains(&settler.0)
    }

    /// Assigns a settler.
    pub fn assign_worker(&mut self, settler: SettlerId)
        ensures
            final(self).assigned_workers@ == old(self).assigned_workers@.insert(settler.0),
            (*final(self) == Task { assigned_workers: final(self).assigned_workers, ..*old(self) }),
    {
        self.assigned_workers.insert(settler.0);
    }

    /// Unassigns a settler; whether it was assigned.
    pub fn unassign_worker(&mut self, settler: SettlerId) -> (was: bool)
        ensures
            was == old(self).assigned_workers@.contains(settler.0),
            final(self).assigned_workers@ == old(self).assigned_workers@.remove(settler.0),
            (*final(self) == Task { assigned_workers: final(self).assigned_workers, ..*old(self) }),
    {
        self.assigned_workers.remove(&settler.0)
    }

    /// Adds work, saturating at the largest count; whether the required work is reached.
    pub fn add_work(&mut self, amount: u32) -> (done: bool)
        ensures
            final(self).work_done == if old(self).work_done + amount <= u32::MAX {
                (old(self).work_done + amount) as u32
            } else {
                u32::MAX
            },
            done == (final(self).work_done >= final(self).work_required),
            (*final(self) == Task { work_done: final(self).work_done, ..*old(self) }),
    {
        self.work_done = self.work_done.saturating_add(amount);
        self.work_done >= self.work_required
    }

    /// A settler claims the task: it becomes claimed, the settler is assigned, and
    /// the start tick is recorded unless one was.
    pub fn claim(&mut self, settler: SettlerId, tick: u64)
        ensures
            final(self).status == TaskStatus::Claimed,
            final(self).assigned_workers@ == old(self).assigned_workers@.insert(settler.0),
            final(self).started_tick == if old(self).started_tick is None { Some(tick) } else { old(self).started_tick },
            (*final(self) == Task {
                status: final(self).status,
                assigned_workers: final(self).assigned_workers,
                started_tick: final(self).started_tick,
                ..*old(self)
            }),
    {
        self.status = TaskStatus::Claimed;
        self.assigned_workers.insert(settler.0);
        if self.started_tick.is_none() {
            self.started_tick = Some(tick);
        }
    }

    /// Work starts: in progress, with the start tick recorded unless one was.
    pub fn start(&mut self, tick: u64)
        ensures
            final(self).status == TaskStatus::InProgress,
            final(self).started_tick == if old(self).started_tick is None { Some(tick) } else { old(self).started_tick },
            (*final(self) == Task { status: final(self).status, started_tick: final(self).started_tick, ..*old(self) }),
    {
        self.status = TaskStatus::InProgress;
        if self.started_tick.is_none() {
            self.started_tick = Some(tick);
        }
    }

    /// An active task is paused; any other is left as it is.
    pub fn pause(&mut self)
        ensures
            final(self).status == if old(self).status == TaskStatus::Claimed || old(self).status == TaskStatus::InProgress
                || old(self).status == TaskStatus::Paused { TaskStatus::Paused } else { old(self).status },
            (*final(self) == Task { status: final(self).status, ..*old(self) }),
    {
        if self.status.is_active() {
            self.status = TaskStatus::Paused;
        }
    }

    /// A paused task resumes in progress; any other is left as it is.
    pub fn resume(&mut self)
        ensures
            final(self).status == if old(self).status == TaskStatus::Paused { TaskStatus::InProgress } else { old(self).status },
            (*final(self) == Task { status: final(self).status, ..*old(self) }),
    {
        if self.status == TaskStatus::Paused {
            self.status = TaskStatus::InProgress;
        }
    }

    /// The task is completed at `tick`, with all its work done.
    pub fn complete(&mut self, tick: u64)
        ensures
            (*final(self) == Task {
                status: TaskStatus::Completed,
                completed_tick: Some(tick),
                work_done: old(self).work_required,
                ..*old(self)
            }),
    {
        self.status = TaskStatus::Completed;
        self.completed_tick = Some(tick);
        self.work_done = self.work_required;
    }

    /// The task fails at `tick` for the given reason.
    pub fn fail(&mut self, reason: FailureReason, tick: u64)
        ensures
            (*final(self) == Task {
                status: TaskStatus::Failed,
                completed_tick: Some(tick),
                failure_reason: Some(reason),
                ..*old(self)
            }),
    {
        self.status = TaskStatus::Failed;
        self.completed_tick = Some(tick);
        self.failure_reason = Some(reason);
    }

    /// The task is cancelled at `tick`.
    pub fn cancel(&mut self, tick: u64)
        ensures
            (*final(self) == Task { status: TaskStatus::Cancelled, completed_tick: Some(tick), ..*old(self) }),
    {
        self.status = TaskStatus::Cancelled;
        self.completed_tick = Some(tick);
    }

    /// The task returns to pending with no workers.
    pub fn release(&mut self)
        ensures
            final(self).status == TaskStatus::Pending,
            final(self).assigned_workers@ == Set::<u64>::empty(),
            (*final(self) == Task { status: TaskStatus::Pending, assigned_workers: final(self).assigned_workers, ..*old(self) }),
    {
        self.status = TaskStatus::Pending;
        self.assigned_workers.clear();
    }

    /// Drops a blocker; whether it was one.
    pub fn remove_blocker(&mut self, blocker: TaskId) -> (was: bool)
        ensures
            was == old(self).blocked_by@.contains(blocker.0),
            final(self).blocked_by@ == old(self).blocked_by@.remove(blocker.0),
            (*final(self) == Task { blocked_by: final(self).blocked_by, ..*old(self) }),
    {
        self.blocked_by.remove(&blocker.0)
    }

    /// Adds a child task.
    pub fn add_child(&mut self, child: TaskId)
        ensures
            final(self).child_tasks@ == old(self).child_tasks@.insert(child.0),
            (*final(self) == Task { child_tasks: final(self).child_tasks, ..*old(self) }),
    {
        self.child_tasks.insert(child.0);
    }

    /// Ticks since creation, zero before it.
    pub fn age(&self, current_tick: u64) -> (a: u64)
        ensures
            a == if current_tick >= self.created_tick { current_tick - self.created_tick } else { 0 },
    {
        current_tick.saturating_sub(self.created_tick)
    }

    /// Ticks since work started, zero before it; none when it has not started.
    pub fn duration(&self, current_tick: u64) -> (d: Option<u64>)
        ensures
            d == match self.started_tick {
                Some(s) => Some(if current_tick >= s { (current_tick - s) as u64 } else { 0 }),
                None => None,
            },
    {
        match self.started_tick {
            Some(start) => Some(current_tick.saturating_sub(start)),
            None => None,
        }
    }
}

} // verus!
