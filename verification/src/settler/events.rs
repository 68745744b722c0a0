//! Events emitted by the settler task system. A progress event carries the
//! work done and the work required; the host derives the fraction from them.

use vstd::prelude::*;
use super::ids::{CapabilityId, RegionId, SettlerId, TaskDefId, TaskId};
use super::task::FailureReason;

verus! {

/// Kind of settler event.
#[derive(Clone, Debug, PartialEq)]
pub enum SettlerEventKind {
    TaskCreated { task: TaskId, def: TaskDefId, region: Option<RegionId> },
    TaskClaimed { task: TaskId, settler: SettlerId },
    TaskStarted { task: TaskId, settler: SettlerId },
    TaskProgress { task: TaskId, settler: SettlerId, work_done: u32, work_required: u32 },
    TaskCompleted { task: TaskId, settler: SettlerId, duration_ticks: u64 },
    TaskFailed { task: TaskId, settler: Option<SettlerId>, reason: FailureReason },
    TaskCancelled { task: TaskId, reason: String },
    TaskReassigned { task: TaskId, from_settler: SettlerId, to_settler: SettlerId },
    TaskReleased { task: TaskId, settler: SettlerId },
    SettlerCreated { settler: SettlerId, name: String },
    SettlerIncapacitated { settler: SettlerId, dropped_task: Option<TaskId> },
    SettlerRecovered { settler: SettlerId },
    SettlerIdle { settler: SettlerId },
    SkillLevelUp { settler: SettlerId, capability: CapabilityId, new_level: String },
    PrerequisiteMet { task: TaskId, prerequisite: TaskId },
    TaskUnblocked { task: TaskId },
}

/// An event with the tick at which it happened.
#[derive(Clone, Debug, PartialEq)]
pub struct SettlerEvent {
    pub tick: u64,
    pub kind: SettlerEventKind,
}

/// Whether an event kind concerns a task: its task field, or the task an
/// incapacitated settler dropped.
pub open spec fn kind_involves_task(kind: SettlerEventKind, task: TaskId) -> bool {
    match kind {
        SettlerEventKind::TaskCreated { task: t, .. } => t == task,
        SettlerEventKind::TaskClaimed { task: t, .. } => t == task,
        SettlerEventKind::TaskStarted { task: t, .. } => t == task,
        SettlerEventKind::TaskProgress { task: t, .. } => t == task,
        SettlerEventKind::TaskCompleted { task: t, .. } => t == task,
        SettlerEventKind::TaskFailed { task: t, .. } => t == task,
        SettlerEventKind::TaskCancelled { task: t, .. } => t == task,
        SettlerEventKind::TaskReleased { task: t, .. } => t == task,
        SettlerEventKind::PrerequisiteMet { task: t, .. } => t == task,
        SettlerEventKind::TaskUnblocked { task: t } => t == task,
        SettlerEventKind::TaskReassigned { task: t, .. } => t == task,
        SettlerEventKind::SettlerIncapacitated { dropped_task, .. } => dropped_task == Some(task),
        _ => false,
    }
}

/// Whether an event kind concerns a settler: its settler field, the settler of a
/// failure, or either side of a reassignment.
pub open spec fn kind_involves_settler(kind: SettlerEventKind, settler: SettlerId) -> bool {
    match kind {
        SettlerEventKind::TaskClaimed { settler: s, .. } => s == settler,
        SettlerEventKind::TaskStarted { settler: s, .. } => s == settler,
        SettlerEventKind::TaskProgress { settler: s, .. } => s == settler,
        SettlerEventKind::TaskCompleted { settler: s, .. } => s == settler,
        SettlerEventKind::TaskReleased { settler: s, .. } => s == settler,
        SettlerEventKind::SettlerCreated { settler: s, .. } => s == settler,
        SettlerEventKind::SettlerIncapacitated { settler: s, .. } => s == settler,
        SettlerEventKind::SettlerRecovered { settler: s } => s == settler,
        SettlerEventKind::SettlerIdle { settler: s } => s == settler,
        SettlerEventKind::SkillLevelUp { settler: s, .. } => s == settler,
        SettlerEventKind::TaskFailed { settler: s, .. } => s == Some(settler),
        SettlerEventKind::TaskReassigned { from_settler, to_settler, .. } => from_settler == settler
            || to_settler == settler,
        _ => false,
    }
}

impl SettlerEvent {
    /// An event of the given kind at `tick`.
    pub fn new(tick: u64, kind: SettlerEventKind) -> (e: Self)
        ensures
            e == (SettlerEvent { tick, kind }),
    {
        SettlerEvent { tick, kind }
    }

    /// A task was created.
    pub fn task_created(tick: u64, task: TaskId, def: TaskDefId, region: Option<RegionId>) -> (e: Self)
        ensures
            e == (SettlerEvent { tick, kind: SettlerEventKind::TaskCreated { task, def, region } }),
    {
        SettlerEvent::new(tick, SettlerEventKind::TaskCreated { task, def, region })
    }

    /// A settler claimed a task.
    pub fn task_claimed(tick: u64, task: TaskId, settler: SettlerId) -> (e: Self)
        ensures
            e == (SettlerEvent { tick, kind: SettlerEventKind::TaskClaimed { task, settler } }),
    {
        SettlerEvent::new(tick, SettlerEventKind::TaskClaimed { task, settler })
    }

    /// A settler started work on a task.
    pub fn task_started(tick: u64, task: TaskId, settler: SettlerId) -> (e: Self)
        ensures
            e == (SettlerEvent { tick, kind: SettlerEventKind::TaskStarted { task, settler } }),
    {
        SettlerEvent::new(tick, SettlerEventKind::TaskStarted { task, settler })
    }

    /// Work was done on a task.
    pub fn task_progress(tick: u64, task: TaskId, settler: SettlerId, work_done: u32, work_required: u32) -> (e:
        Self)
        ensures
            e == (SettlerEvent {
                tick,
                kind: SettlerEventKind::TaskProgress { task, settler, work_done, work_required },
            }),
    {
        SettlerEvent::new(tick, SettlerEventKind::TaskProgress { task, settler, work_done, work_required })
    }

    /// A settler completed a task that took `duration_ticks`.
    pub fn task_completed(tick: u64, task: TaskId, settler: SettlerId, duration_ticks: u64) -> (e: Self)
        ensures
            e == (SettlerEvent { tick, kind: SettlerEventKind::TaskCompleted { task, settler, duration_ticks } }),
    {
        SettlerEvent::new(tick, SettlerEventKind::TaskCompleted { task, settler, duration_ticks })
    }

    /// A task failed.
    pub fn task_failed(tick: u64, task: TaskId, settler: Option<SettlerId>, reason: FailureReason) -> (e: Self)
        ensures
            e == (SettlerEvent { tick, kind: SettlerEventKind::TaskFailed { task, settler, reason } }),
    {
        SettlerEvent::new(tick, SettlerEventKind::TaskFailed { task, settler, reason })
    }

    /// A task was cancelled for a reason.
    pub fn task_cancelled(tick: u64, task: TaskId, reason: &str) -> (e: Self)
        ensures
            e.tick == tick,
            e.kind matches SettlerEventKind::TaskCancelled { task: t, reason: r } && t == task && r@ == reason@,
    {
        SettlerEvent::new(tick, SettlerEventKind::TaskCancelled { task, reason: String::from_str(reason) })
    }

    /// A settler was created.
    pub fn settler_created(tick: u64, settler: SettlerId, name: &str) -> (e: Self)
        ensures
            e.tick == tick,
            e.kind matches SettlerEventKind::SettlerCreated { settler: s, name: n } && s == settler && n@ == name@,
    {
        SettlerEvent::new(tick, SettlerEventKind::SettlerCreated { settler, name: String::from_str(name) })
    }

    /// A settler was incapacitated, dropping its task if it had one.
    pub fn settler_incapacitated(tick: u64, settler: SettlerId, dropped_task: Option<TaskId>) -> (e: Self)
        ensures
            e == (SettlerEvent { tick, kind: SettlerEventKind::SettlerIncapacitated { settler, dropped_task } }),
    {
        SettlerEvent::new(tick, SettlerEventKind::SettlerIncapacitated { settler, dropped_task })
    }

    /// A settler's skill in a capability reached a new level.
    pub fn skill_level_up(tick: u64, settler: SettlerId, capability: CapabilityId, new_level: &str) -> (e: Self)
        ensures
            e.tick == tick,
            e.kind matches SettlerEventKind::SkillLevelUp { settler: s, capability: c, new_level: l } && s == settler
                && c == capability && l@ == new_level@,
    {
        SettlerEvent::new(
            tick,
            SettlerEventKind::SkillLevelUp { settler, capability, new_level: String::from_str(new_level) },
        )
    }

    /// Whether the event concerns the task.
    pub fn involves_task(&self, task: TaskId) -> (b: bool)
        ensures
            b == kind_involves_task(self.kind, task),
    {
        match &self.kind {
            SettlerEventKind::TaskCreated { task: t, .. } => *t == task,
            SettlerEventKind::TaskClaimed { task: t, .. } => *t == task,
            SettlerEventKind::TaskStarted { task: t, .. } => *t == task,
            SettlerEventKind::TaskProgress { task: t, .. } => *t == task,
            SettlerEventKind::TaskCompleted { task: t, .. } => *t == task,
            SettlerEventKind::TaskFailed { task: t, .. } => *t == task,
            SettlerEventKind::TaskCancelled { task: t, .. } => *t == task,
            SettlerEventKind::TaskReleased { task: t, .. } => *t == task,
            SettlerEventKind::PrerequisiteMet { task: t, .. } => *t == task,
            SettlerEventKind::TaskUnblocked { task: t } => *t == task,
            SettlerEventKind::TaskReassigned { task: t, .. } => *t == task,
            SettlerEventKind::SettlerIncapacitated { dropped_task, .. } => match dropped_task {
                Some(t) => *t == task,
                None => false,
            },
            _ => false,
        }
    }

    /// Whether the event concerns the settler.
    pub fn involves_settler(&self, settler: SettlerId) -> (b: bool)
        ensures
            b == kind_involves_settler(self.kind, settler),
    {
        match &self.kind {
            SettlerEventKind::TaskClaimed { settler: s, .. } => *s == settler,
            SettlerEventKind::TaskStarted { settler: s, .. } => *s == settler,
            SettlerEventKind::TaskProgress { settler: s, .. } => *s == settler,
            SettlerEventKind::TaskCompleted { settler: s, .. } => *s == settler,
            SettlerEventKind::TaskReleased { settler: s, .. } => *s == settler,
            SettlerEventKind::SettlerCreated { settler: s, .. } => *s == settler,
            SettlerEventKind::SettlerIncapacitated { settler: s, .. } => *s == settler,
            SettlerEventKind::SettlerRecovered { settler: s } => *s == settler,
            SettlerEventKind::SettlerIdle { settler: s } => *s == settler,
            SettlerEventKind::SkillLevelUp { settler: s, .. } => *s == settler,
            SettlerEventKind::TaskFailed { settler: s, .. } => match s {
                Some(x) => *x == settler,
                None => false,
            },
            SettlerEventKind::TaskReassigned { from_settler, to_settler, .. } => *from_settler == settler
                || *to_settler == settler,
            _ => false,
        }
    }
}

/// An event that names a task concerns exactly that task, whatever its other
/// fields; so does an incapacitation that dropped it. Events that name no task
/// concern none.
pub proof fn law_events_concern_the_task_they_name(t: TaskId, other: TaskId, s: SettlerId, s2: SettlerId)
    ensures
        forall|def: TaskDefId, region: Option<RegionId>|
            #[trigger] kind_involves_task(SettlerEventKind::TaskCreated { task: t, def, region }, other) == (t == other),
        kind_involves_task(SettlerEventKind::TaskClaimed { task: t, settler: s }, other) == (t == other),
        kind_involves_task(SettlerEventKind::TaskStarted { task: t, settler: s }, other) == (t == other),
        forall|done: u32, required: u32|
            #[trigger] kind_involves_task(
                SettlerEventKind::TaskProgress { task: t, settler: s, work_done: done, work_required: required },
                other,
            ) == (t == other),
        forall|d: u64|
            #[trigger] kind_involves_task(SettlerEventKind::TaskCompleted { task: t, settler: s, duration_ticks: d }, other)
                == (t == other),
        forall|by: Option<SettlerId>, reason: FailureReason|
            #[trigger] kind_involves_task(SettlerEventKind::TaskFailed { task: t, settler: by, reason }, other) == (t
                == other),
        forall|reason: String|
            #[trigger] kind_involves_task(SettlerEventKind::TaskCancelled { task: t, reason }, other) == (t == other),
        kind_involves_task(SettlerEventKind::TaskReassigned { task: t, from_settler: s, to_settler: s2 }, other) == (t
            == other),
        kind_involves_task(SettlerEventKind::TaskReleased { task: t, settler: s }, other) == (t == other),
        kind_involves_task(SettlerEventKind::PrerequisiteMet { task: t, prerequisite: other }, other) == (t == other),
        kind_involves_task(SettlerEventKind::TaskUnblocked { task: t }, other) == (t == other),
        kind_involves_task(SettlerEventKind::SettlerIncapacitated { settler: s, dropped_task: Some(t) }, other) == (t
            == other),
        !kind_involves_task(SettlerEventKind::SettlerIncapacitated { settler: s, dropped_task: None }, other),
        !kind_involves_task(SettlerEventKind::SettlerRecovered { settler: s }, other),
        !kind_involves_task(SettlerEventKind::SettlerIdle { settler: s }, other),
{
}

/// An event that names a settler concerns exactly that settler: its settler
/// field, the settler of a failure, or either side of a reassignment.
pub proof fn law_events_concern_the_settler_they_name(t: TaskId, s: SettlerId, s2: SettlerId, other: SettlerId)
    ensures
        kind_involves_settler(SettlerEventKind::TaskClaimed { task: t, settler: s }, other) == (s == other),
        kind_involves_settler(SettlerEventKind::TaskStarted { task: t, settler: s }, other) == (s == other),
        forall|done: u32, required: u32|
            #[trigger] kind_involves_settler(
                SettlerEventKind::TaskProgress { task: t, settler: s, work_done: done, work_required: required },
                other,
            ) == (s == other),
        forall|d: u64|
            #[trigger] kind_involves_settler(SettlerEventKind::TaskCompleted { task: t, settler: s, duration_ticks: d }, other)
                == (s == other),
        kind_involves_settler(SettlerEventKind::TaskReleased { task: t, settler: s }, other) == (s == other),
        kind_involves_settler(SettlerEventKind::TaskReassigned { task: t, from_settler: s, to_settler: s2 }, other)
            == (s == other || s2 == other),
        forall|name: String|
            #[trigger] kind_involves_settler(SettlerEventKind::SettlerCreated { settler: s, name }, other) == (s == other),
        forall|dropped: Option<TaskId>|
            #[trigger] kind_involves_settler(SettlerEventKind::SettlerIncapacitated { settler: s, dropped_task: dropped }, other)
                == (s == other),
        kind_involves_settler(SettlerEventKind::SettlerRecovered { settler: s }, other) == (s == other),
        kind_involves_settler(SettlerEventKind::SettlerIdle { settler: s }, other) == (s == other),
        !kind_involves_settler(SettlerEventKind::TaskUnblocked { task: t }, other),
{
}

} // verus!
