//! Settlers: their activity status, work priorities, enabled capabilities,
//! current task and reservations. A settler's skill levels, experience,
//! position and work speed are kept by the host, outside this library.

use vstd::prelude::*;
use std::collections::BTreeSet;
use super::ids::{CapabilityId, RegionId, SettlerId, TaskId};
use crate::keys::{compare_keys, has_key, KeyOrder, Keyed};
use super::task_def::TaskCategory;
use crate::id_table::Identified;

verus! {

broadcast use vstd::laws_cmp::group_laws_cmp, vstd::std_specs::btree::group_btree_axioms;

/// Current activity status of a settler.
#[derive(Clone, Copy, Debug, PartialEq, Eq, PartialOrd, Ord, Hash, Structural)]
pub enum SettlerStatus {
    Idle,
    Working,
    Traveling,
    Resting,
    Incapacitated,
}

impl SettlerStatus {
    /// Whether a settler in this status can work: idle, working or traveling.
    pub fn can_work(&self) -> (b: bool)
        ensures
            b == (*self == SettlerStatus::Idle || *self == SettlerStatus::Working || *self
                == SettlerStatus::Traveling),
    {
        matches!(self, SettlerStatus::Idle | SettlerStatus::Working | SettlerStatus::Traveling)
    }

    /// Whether a settler in this status is free for a new task: only when idle.
    pub fn is_available(&self) -> (b: bool)
        ensures
            b == (*self == SettlerStatus::Idle),
    {
        matches!(self, SettlerStatus::Idle)
    }
}

/// Work priority settings of a settler: a priority per task category
/// (0 when never set) and a set of forbidden categories.
#[derive(Clone, Debug, PartialEq)]
pub struct WorkPriorities {
    priorities: [i32; 8],
    forbidden_categories: [bool; 8],
}

impl WorkPriorities {
    /// The priority of a category.
    pub closed spec fn priority_of(&self, category: TaskCategory) -> i32 {
        self.priorities@[category.spec_index()]
    }

    /// Whether a category is forbidden.
    pub closed spec fn forbids(&self, category: TaskCategory) -> bool {
        self.forbidden_categories@[category.spec_index()]
    }

    /// Settings with every priority 0 and nothing forbidden.
    pub fn new() -> (r: Self)
        ensures
            forall|c: TaskCategory| #[trigger] r.priority_of(c) == 0,
            forall|c: TaskCategory| !#[trigger] r.forbids(c),
    {
        WorkPriorities { priorities: [0; 8], forbidden_categories: [false; 8] }
    }

    /// Sets the priority of a category.
    pub fn set_priority(&mut self, category: TaskCategory, priority: i32)
        ensures
            final(self).priority_of(category) == priority,
            forall|c: TaskCategory| c != category ==> #[trigger] final(self).priority_of(c) == old(self).priority_of(c),
            forall|c: TaskCategory| #[trigger] final(self).forbids(c) == old(self).forbids(c),
    {
        let i = category.index();
        self.priorities[i] = priority;
    }

    /// The priority of a category (0 when never set).
    pub fn get_priority(&self, category: TaskCategory) -> (p: i32)
        ensures
            p == self.priority_of(category),
    {
        self.priorities[category.index()]
    }

    /// Forbids a category.
    pub fn forbid(&mut self, category: TaskCategory)
        ensures
            final(self).forbids(category),
            forall|c: TaskCategory| c != category ==> #[trigger] final(self).forbids(c) == old(self).forbids(c),
            forall|c: TaskCategory| #[trigger] final(self).priority_of(c) == old(self).priority_of(c),
    {
        let i = category.index();
        self.forbidden_categories[i] = true;
    }

    /// Allows a category again.
    pub fn allow(&mut self, category: TaskCategory)
        ensures
            !final(self).forbids(category),
            forall|c: TaskCategory| c != category ==> #[trigger] final(self).forbids(c) == old(self).forbids(c),
            forall|c: TaskCategory| #[trigger] final(self).priority_of(c) == old(self).priority_of(c),
    {
        let i = category.index();
        self.forbidden_categories[i] = false;
    }

    /// Whether a category is forbidden.
    pub fn is_forbidden(&self, category: TaskCategory) -> (b: bool)
        ensures
            b == self.forbids(category),
    {
        self.forbidden_categories[category.index()]
    }
}

/// A worker that claims and performs tasks.
#[derive(Clone, Debug)]
pub struct Settler {
    pub id: SettlerId,
    pub name: String,
    pub status: SettlerStatus,
    pub work_priorities: WorkPriorities,
    pub enabled_capabilities: Vec<CapabilityId>,
    pub region: Option<RegionId>,
    pub current_task: Option<TaskId>,
    pub reserved_tasks: BTreeSet<u64>,
    pub created_tick: u64,
    pub total_work_done: u64,
    pub tasks_completed: u32,
}

impl Identified for Settler {
    open spec fn ident(&self) -> u64 {
        self.id.0
    }

    fn ident_value(&self) -> (r: u64) {
        self.id.0
    }
}

/// What a newly made settler is: idle, with no task, no reservations, no
/// region, no capability, nothing done yet and default work priorities.
pub open spec fn fresh_settler(s: Settler, id: SettlerId, name: Seq<char>, created_tick: u64) -> bool {
    &&& s.id == id
    &&& s.name@ == name
    &&& s.status == SettlerStatus::Idle
    &&& s.region is None
    &&& s.current_task is None
    &&& s.reserved_tasks@ == Set::<u64>::empty()
    &&& s.created_tick == created_tick
    &&& s.total_work_done == 0
    &&& s.tasks_completed == 0
    &&& s.enabled_capabilities@ == Seq::<CapabilityId>::empty()
    &&& forall|c: TaskCategory| #[trigger] s.work_priorities.priority_of(c) == 0
    &&& forall|c: TaskCategory| !#[trigger] s.work_priorities.forbids(c)
}

impl Settler {
    /// An idle settler with no task, no reservations and nothing done yet.
    pub fn new(id: SettlerId, name: &str, created_tick: u64) -> (r: Self)
        ensures
            fresh_settler(r, id, name@, created_tick),
    {
        Settler {
            id,
            name: String::from_str(name),
            status: SettlerStatus::Idle,
            work_priorities: WorkPriorities::new(),
            enabled_capabilities: Vec::new(),
            region: None,
            current_task: None,
            reserved_tasks: BTreeSet::new(),
            created_tick,
            total_work_done: 0,
            tasks_completed: 0,
        }
    }

    /// Whether the settler has the capability of the given name enabled.
    pub open spec fn capable_of(&self, name: Seq<char>) -> bool {
        has_key(self.enabled_capabilities@, name)
    }

    /// Whether the settler has every capability of the list enabled.
    pub open spec fn capable_of_all(&self, required: Seq<CapabilityId>) -> bool {
        forall|i: int| 0 <= i < required.len() ==> self.capable_of(#[trigger] required[i].0@)
    }

    /// The settler with exactly these capabilities enabled.
    pub fn set_capabilities(&mut self, capabilities: Vec<CapabilityId>)
        ensures
            (*final(self) == Settler { enabled_capabilities: capabilities, ..*old(self) }),
    {
        self.enabled_capabilities = capabilities;
    }

    /// Whether the capability is enabled.
    pub fn has_capability(&self, capability: &CapabilityId) -> (b: bool)
        ensures
            b == self.capable_of(capability.0@),
    {
        let caps = &self.enabled_capabilities;
        let mut i: usize = 0;
        while i < caps.len()
            invariant
                i <= caps@.len(),
                caps@ == self.enabled_capabilities@,
                forall|j: int| 0 <= j < i ==> #[trigger] caps@[j].key() != capability.0@,
            decreases caps@.len() - i,
        {
            if compare_keys(caps[i].0.as_str(), capability.0.as_str()) == KeyOrder::Equal {
                proof {
                    assert(caps@[i as int].key() == capability.0@);
                }
                return true;
            }
            i = i + 1;
        }
        false
    }

    /// Whether every capability of the list is enabled.
    pub fn can_perform(&self, required: &[CapabilityId]) -> (b: bool)
        ensures
            b == self.capable_of_all(required@),
    {
        let mut i: usize = 0;
        while i < required.len()
            invariant
                i <= required@.len(),
                forall|j: int| 0 <= j < i ==> self.capable_of(#[trigger] required@[j].0@),
            decreases required@.len() - i,
        {
            if !self.has_capability(&required[i]) {
                return false;
            }
            i = i + 1;
        }
        true
    }

    /// The settler placed in a region.
    pub fn with_region(self, region: RegionId) -> (r: Self)
        ensures
            (r == Settler { region: Some(region), ..self }),
    {
        let mut s = self;
        s.region = Some(region);
        s
    }

    /// Idle and without a current task.
    pub fn is_available(&self) -> (b: bool)
        ensures
            b == (self.status == SettlerStatus::Idle && self.current_task is None),
    {
        self.status.is_available() && self.current_task.is_none()
    }

    /// Whether the settler's status lets it work.
    pub fn can_work(&self) -> (b: bool)
        ensures
            b == (self.status == SettlerStatus::Idle || self.status == SettlerStatus::Working || self.status
                == SettlerStatus::Traveling),
    {
        self.status.can_work()
    }

    /// Whether the settler has a current task.
    pub fn is_working(&self) -> (b: bool)
        ensures
            b == self.current_task is Some,
    {
        self.current_task.is_some()
    }

    /// The settler takes up a task and is working.
    pub fn assign_task(&mut self, task: TaskId)
        ensures
            (*final(self) == Settler { current_task: Some(task), status: SettlerStatus::Working, ..*old(self) }),
    {
        self.current_task = Some(task);
        self.status = SettlerStatus::Working;
    }

    /// The settler drops its task; a working settler becomes idle.
    pub fn clear_task(&mut self)
        ensures
            (*final(self) == Settler {
                current_task: None,
                status: if old(self).status == SettlerStatus::Working { SettlerStatus::Idle } else { old(self).status },
                ..*old(self)
            }),
    {
        self.current_task = None;
        if self.status == SettlerStatus::Working {
            self.status = SettlerStatus::Idle;
        }
    }

    /// Reserves a task for later.
    pub fn reserve_task(&mut self, task: TaskId)
        ensures
            final(self).reserved_tasks@ == old(self).reserved_tasks@.insert(task.0),
            (*final(self) == Settler { reserved_tasks: final(self).reserved_tasks, ..*old(self) }),
    {
        self.reserved_tasks.insert(task.0);
    }

    /// Drops a reservation; whether there was one.
    pub fn unreserve_task(&mut self, task: TaskId) -> (was: bool)
        ensures
            was == old(self).reserved_tasks@.contains(task.0),
            final(self).reserved_tasks@ == old(self).reserved_tasks@.remove(task.0),
            (*final(self) == Settler { reserved_tasks: final(self).reserved_tasks, ..*old(self) }),
    {
        self.reserved_tasks.remove(&task.0)
    }

    /// Whether the task is reserved by this settler.
    pub fn has_reservation(&self, task: TaskId) -> (b: bool)
        ensures
            b == self.reserved_tasks@.contains(task.0),
    {
        self.reserved_tasks.contains(&task.0)
    }

    /// Adds to the work done.
    pub fn record_work(&mut self, amount: u32)
        requires
            old(self).total_work_done + amount <= u64::MAX,
        ensures
            (*final(self) == Settler { total_work_done: (old(self).total_work_done + amount) as u64, ..*old(self) }),
    {
        self.total_work_done = self.total_work_done + amount as u64;
    }

    /// Counts one more completed task.
    pub fn record_completion(&mut self)
        requires
            old(self).tasks_completed < u32::MAX,
        ensures
            (*final(self) == Settler { tasks_completed: (old(self).tasks_completed + 1) as u32, ..*old(self) }),
    {
        self.tasks_completed = self.tasks_completed + 1;
    }

    /// Sets the status; a status that cannot work drops the current task.
    pub fn set_status(&mut self, status: SettlerStatus)
        ensures
            (*final(self) == Settler {
                status,
                current_task: if status == SettlerStatus::Resting || status == SettlerStatus::Incapacitated {
                    None
                } else {
                    old(self).current_task
                },
                ..*old(self)
            }),
    {
        self.status = status;
        if !status.can_work() {
            self.current_task = None;
        }
    }

    /// The settler is incapacitated: no task and no reservations.
    pub fn incapacitate(&mut self)
        ensures
            final(self).status == SettlerStatus::Incapacitated,
            final(self).current_task is None,
            final(self).reserved_tasks@ == Set::<u64>::empty(),
            (*final(self) == Settler {
                status: SettlerStatus::Incapacitated,
                current_task: None,
                reserved_tasks: final(self).reserved_tasks,
                ..*old(self)
            }),
    {
        self.set_status(SettlerStatus::Incapacitated);
        self.reserved_tasks.clear();
    }

    /// An incapacitated settler becomes idle; any other is left as it is.
    pub fn recover(&mut self)
        ensures
            (*final(self) == Settler {
                status: if old(self).status == SettlerStatus::Incapacitated { SettlerStatus::Idle } else { old(self).status },
                ..*old(self)
            }),
    {
        if self.status == SettlerStatus::Incapacitated {
            self.status = SettlerStatus::Idle;
        }
    }
}

} // verus!
