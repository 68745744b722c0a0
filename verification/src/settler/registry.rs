//! Registries of settlers and of tasks, kept in order of their identifiers.
//! Each hands out fresh identifiers, above every identifier it holds.

use vstd::prelude::*;
use super::ids::{RegionId, SettlerId, TaskDefId, TaskId};
use super::state::{fresh_settler, Settler, SettlerStatus};
use super::task::{fresh_task, Task, TaskStatus};
use crate::id_table::{get_by_id, id_map, id_map_where, insert_by_id, remove_by_id, select, sorted_by_id, find_id, lemma_id_map_at, lemma_id_map_len, lemma_id_filter};

verus! {

/// A settler with the given status.
pub open spec fn settler_in_status(status: SettlerStatus) -> spec_fn(Settler) -> bool {
    |s: Settler| s.status == status
}

/// An idle settler without a current task.
pub open spec fn settler_available() -> spec_fn(Settler) -> bool {
    |s: Settler| s.status == SettlerStatus::Idle && s.current_task is None
}

/// A task with the given status.
pub open spec fn task_in_status(status: TaskStatus) -> spec_fn(Task) -> bool {
    |t: Task| t.status == status
}

/// A task that is claimed, in progress or paused.
pub open spec fn task_active() -> spec_fn(Task) -> bool {
    |t: Task| t.status == TaskStatus::Claimed || t.status == TaskStatus::InProgress || t.status == TaskStatus::Paused
}

/// A task of the given definition.
pub open spec fn task_of_def(def: Seq<char>) -> spec_fn(Task) -> bool {
    |t: Task| t.def_id.0@ == def
}

/// A task in the given region.
pub open spec fn task_in_region(region: RegionId) -> spec_fn(Task) -> bool {
    |t: Task| t.region == Some(region)
}

/// Registry for settlers with deterministic iteration order.
#[derive(Debug)]
pub struct SettlerRegistry {
    settlers: Vec<Settler>,
    next_id: u64,
}

impl SettlerRegistry {
    #[verifier::type_invariant]
    spec fn wf(&self) -> bool {
        &&& sorted_by_id(self.settlers@)
        &&& forall|i: int| 0 <= i < self.settlers@.len() ==> #[trigger] self.settlers@[i].id.0 < self.next_id
    }

    /// The settlers in order of their identifiers.
    pub closed spec fn entries(&self) -> Seq<Settler> {
        self.settlers@
    }

    /// The identifier the next created settler receives.
    pub closed spec fn next_id(&self) -> u64 {
        self.next_id
    }

    /// The registry as a map from identifier number to settler.
    pub open spec fn view(&self) -> Map<u64, Settler> {
        id_map(self.entries())
    }

    /// An empty registry whose first settler will be number 0.
    pub fn new() -> (r: Self)
        ensures
            r.entries() == Seq::<Settler>::empty(),
            r@ == Map::<u64, Settler>::empty(),
            r.next_id() == 0,
    {
        let r = SettlerRegistry { settlers: Vec::new(), next_id: 0 };
        assert(id_map(r.settlers@) =~= Map::<u64, Settler>::empty());
        r
    }

    /// Registers a settler, replacing any with the same identifier; the next
    /// identifier handed out stays above it.
    pub fn register(&mut self, settler: Settler)
        requires
            settler.id.0 < u64::MAX,
        ensures
            final(self)@ == old(self)@.insert(settler.id.0, settler),
            final(self)@.dom().finite(),
            final(self)@.len() == old(self)@.len() + if old(self)@.contains_key(settler.id.0) { 0int } else { 1int },
            final(self).next_id() == if settler.id.0 >= old(self).next_id() {
                (settler.id.0 + 1) as u64
            } else {
                old(self).next_id()
            },
    {
        proof {
            use_type_invariant(&*self);
        }
        let id = settler.id.0;
        let mut settlers = Vec::new();
        std::mem::swap(&mut settlers, &mut self.settlers);
        let ghost old_settlers = settlers@;
        insert_by_id(&mut settlers, settler);
        let next = if id >= self.next_id { id + 1 } else { self.next_id };
        proof {
            assert forall|i: int| 0 <= i < settlers@.len() implies #[trigger] settlers@[i].id.0 < next by {
                lemma_id_map_at(settlers@, i);
                let k = settlers@[i].id.0;
                if k != id {
                    assert(id_map(old_settlers).contains_key(k));
                    let j = choose|j: int| 0 <= j < old_settlers.len() && #[trigger] old_settlers[j].id.0 == k;
                    assert(old_settlers[j].id.0 < self.next_id);
                }
            }
        }
        self.next_id = next;
        self.settlers = settlers;
        proof {
            lemma_id_map_len(old(self).settlers@);
            lemma_id_map_len(self.settlers@);
        }
    }

    /// Creates an idle settler under the next identifier and returns that identifier.
    pub fn create(&mut self, name: &str, created_tick: u64) -> (id: SettlerId)
        requires
            old(self).next_id() < u64::MAX,
        ensures
            id.0 == old(self).next_id(),
            !old(self)@.contains_key(id.0),
            final(self).next_id() == old(self).next_id() + 1,
            final(self)@.dom() == old(self)@.dom().insert(id.0),
            final(self)@.dom().finite(),
            final(self)@.len() == old(self)@.len() + 1,
            forall|k: u64| k != id.0 ==> #[trigger] final(self)@.get(k) == old(self)@.get(k),
            fresh_settler(final(self)@[id.0], id, name@, created_tick),
    {
        proof {
            use_type_invariant(&*self);
        }
        let id = SettlerId::new(self.next_id);
        let settler = Settler::new(id, name, created_tick);
        let ghost s = settler;
        proof {
            if self@.contains_key(id.0) {
                let i = choose|i: int| 0 <= i < self.settlers@.len() && #[trigger] self.settlers@[i].id.0 == id.0;
                assert(self.settlers@[i].id.0 < self.next_id);
            }
        }
        self.register(settler);
        proof {
            assert(self@ == old(self)@.insert(id.0, s));
        }
        id
    }

    /// Takes out the settler with the given identifier.
    pub fn remove(&mut self, id: SettlerId) -> (r: Option<Settler>)
        ensures
            final(self)@ == old(self)@.remove(id.0),
            final(self)@.dom().finite(),
            final(self)@.len() == old(self)@.len() - if old(self)@.contains_key(id.0) { 1int } else { 0int },
            final(self).next_id() == old(self).next_id(),
            r is Some <==> old(self)@.contains_key(id.0),
            r matches Some(s) ==> s == old(self)@[id.0] && s.id == id && id.0 < old(self).next_id(),
    {
        proof {
            use_type_invariant(&*self);
        }
        let mut settlers = Vec::new();
        std::mem::swap(&mut settlers, &mut self.settlers);
        let ghost old_settlers = settlers@;
        let r = remove_by_id(&mut settlers, id.0);
        proof {
            if r is Some {
                let i = choose|i: int| 0 <= i < old_settlers.len() && #[trigger] old_settlers[i].id.0 == id.0;
                lemma_id_map_at(old_settlers, i);
                assert(old_settlers[i].id.0 < self.next_id);
            }
            assert forall|i: int| 0 <= i < settlers@.len() implies #[trigger] settlers@[i].id.0 < self.next_id by {
                lemma_id_map_at(settlers@, i);
                let k = settlers@[i].id.0;
                assert(id_map(old_settlers).contains_key(k));
                let j = choose|j: int| 0 <= j < old_settlers.len() && #[trigger] old_settlers[j].id.0 == k;
                assert(old_settlers[j].id.0 < self.next_id);
            }
        }
        self.settlers = settlers;
        proof {
            lemma_id_map_len(old(self).settlers@);
            lemma_id_map_len(self.settlers@);
        }
        r
    }

    /// The settler with the given identifier.
    pub fn get(&self, id: SettlerId) -> (r: Option<&Settler>)
        ensures
            r is Some <==> self@.contains_key(id.0),
            r matches Some(s) ==> *s == self@[id.0] && s.id == id && id.0 < self.next_id(),
    {
        proof {
            use_type_invariant(self);
        }
        let r = get_by_id(&self.settlers, id.0);
        proof {
            if r is Some {
                let i = choose|i: int| 0 <= i < self.settlers@.len() && #[trigger] self.settlers@[i].id.0 == id.0;
                lemma_id_map_at(self.settlers@, i);
                assert(self.settlers@[i].id.0 < self.next_id);
            }
        }
        r
    }

    /// Whether a settler with the identifier is registered.
    pub fn contains(&self, id: SettlerId) -> (b: bool)
        ensures
            b == self@.contains_key(id.0),
    {
        proof {
            use_type_invariant(self);
        }
        let (found, _) = find_id(&self.settlers, id.0);
        found
    }

    /// All settlers, in order of their identifiers.
    pub fn iter(&self) -> (r: &[Settler])
        ensures
            r@ == self.entries(),
            sorted_by_id(r@),
    {
        proof {
            use_type_invariant(self);
        }
        self.settlers.as_slice()
    }

    /// The number of registered settlers.
    pub fn count(&self) -> (n: usize)
        ensures
            n == self.entries().len(),
            self@.dom().finite(),
            n == self@.len(),
    {
        proof {
            use_type_invariant(self);
            lemma_id_map_len(self.settlers@);
        }
        self.settlers.len()
    }

    /// The idle settlers without a task, in order of their identifiers.
    pub fn available(&self) -> (r: Vec<&Settler>)
        ensures
            r@.map_values(|s: &Settler| *s) == self.entries().filter(settler_available()),
            sorted_by_id(r@.map_values(|s: &Settler| *s)),
            id_map(r@.map_values(|s: &Settler| *s)) == id_map_where(self@, settler_available()),
    {
        let keep = |s: &Settler| -> (b: bool)
            ensures
                b == (s.status == SettlerStatus::Idle && s.current_task is None),
        {
            s.is_available()
        };
        proof {
            use_type_invariant(self);
            lemma_id_filter(self.settlers@, settler_available());
        }
        select(self.settlers.as_slice(), keep, Ghost(settler_available()))
    }

    /// The settlers with the given status, in order of their identifiers.
    pub fn by_status(&self, status: SettlerStatus) -> (r: Vec<&Settler>)
        ensures
            r@.map_values(|s: &Settler| *s) == self.entries().filter(settler_in_status(status)),
            sorted_by_id(r@.map_values(|s: &Settler| *s)),
            id_map(r@.map_values(|s: &Settler| *s)) == id_map_where(self@, settler_in_status(status)),
    {
        let keep = |s: &Settler| -> (b: bool)
            ensures
                b == (s.status == status),
        {
            s.status == status
        };
        proof {
            use_type_invariant(self);
            lemma_id_filter(self.settlers@, settler_in_status(status));
        }
        select(self.settlers.as_slice(), keep, Ghost(settler_in_status(status)))
    }
}


/// Registry for tasks with deterministic iteration order.
#[derive(Debug)]
pub struct TaskRegistry {
    tasks: Vec<Task>,
    next_id: u64,
}

impl TaskRegistry {
    #[verifier::type_invariant]
    spec fn wf(&self) -> bool {
        &&& sorted_by_id(self.tasks@)
        &&& forall|i: int| 0 <= i < self.tasks@.len() ==> #[trigger] self.tasks@[i].id.0 < self.next_id
    }

    /// The tasks in order of their identifiers.
    pub closed spec fn entries(&self) -> Seq<Task> {
        self.tasks@
    }

    /// The identifier the next created task receives.
    pub closed spec fn next_id(&self) -> u64 {
        self.next_id
    }

    /// The registry as a map from identifier number to task.
    pub open spec fn view(&self) -> Map<u64, Task> {
        id_map(self.entries())
    }

    /// An empty registry whose first task will be number 0.
    pub fn new() -> (r: Self)
        ensures
            r.entries() == Seq::<Task>::empty(),
            r@ == Map::<u64, Task>::empty(),
            r.next_id() == 0,
    {
        let r = TaskRegistry { tasks: Vec::new(), next_id: 0 };
        assert(id_map(r.tasks@) =~= Map::<u64, Task>::empty());
        r
    }

    /// Registers a task, replacing any with the same identifier; the next
    /// identifier handed out stays above it.
    pub fn register(&mut self, task: Task)
        requires
            task.id.0 < u64::MAX,
        ensures
            final(self)@ == old(self)@.insert(task.id.0, task),
            final(self)@.dom().finite(),
            final(self)@.len() == old(self)@.len() + if old(self)@.contains_key(task.id.0) { 0int } else { 1int },
            final(self).next_id() == if task.id.0 >= old(self).next_id() {
                (task.id.0 + 1) as u64
            } else {
                old(self).next_id()
            },
    {
        proof {
            use_type_invariant(&*self);
        }
        let id = task.id.0;
        let mut tasks = Vec::new();
        std::mem::swap(&mut tasks, &mut self.tasks);
        let ghost old_tasks = tasks@;
        insert_by_id(&mut tasks, task);
        let next = if id >= self.next_id { id + 1 } else { self.next_id };
        proof {
            assert forall|i: int| 0 <= i < tasks@.len() implies #[trigger] tasks@[i].id.0 < next by {
                lemma_id_map_at(tasks@, i);
                let k = tasks@[i].id.0;
                if k != id {
                    assert(id_map(old_tasks).contains_key(k));
                    let j = choose|j: int| 0 <= j < old_tasks.len() && #[trigger] old_tasks[j].id.0 == k;
                    assert(old_tasks[j].id.0 < self.next_id);
                }
            }
        }
        self.next_id = next;
        self.tasks = tasks;
        proof {
            lemma_id_map_len(old(self).tasks@);
            lemma_id_map_len(self.tasks@);
        }
    }

    /// Creates a pending task of a definition under the next identifier and
    /// returns that identifier.
    pub fn create(&mut self, def_id: TaskDefId, work_required: u32, created_tick: u64) -> (id: TaskId)
        requires
            old(self).next_id() < u64::MAX,
        ensures
            id.0 == old(self).next_id(),
            !old(self)@.contains_key(id.0),
            final(self).next_id() == old(self).next_id() + 1,
            final(self)@.dom() == old(self)@.dom().insert(id.0),
            final(self)@.dom().finite(),
            final(self)@.len() == old(self)@.len() + 1,
            forall|k: u64| k != id.0 ==> #[trigger] final(self)@.get(k) == old(self)@.get(k),
            fresh_task(final(self)@[id.0], id, def_id, work_required, created_tick),
    {
        proof {
            use_type_invariant(&*self);
        }
        let id = TaskId::new(self.next_id);
        let task = Task::new(id, def_id, work_required, created_tick);
        let ghost t = task;
        proof {
            if self@.contains_key(id.0) {
                let i = choose|i: int| 0 <= i < self.tasks@.len() && #[trigger] self.tasks@[i].id.0 == id.0;
                assert(self.tasks@[i].id.0 < self.next_id);
            }
        }
        self.register(task);
        proof {
            assert(self@ == old(self)@.insert(id.0, t));
        }
        id
    }

    /// Takes out the task with the given identifier.
    pub fn remove(&mut self, id: TaskId) -> (r: Option<Task>)
        ensures
            final(self)@ == old(self)@.remove(id.0),
            final(self)@.dom().finite(),
            final(self)@.len() == old(self)@.len() - if old(self)@.contains_key(id.0) { 1int } else { 0int },
            final(self).next_id() == old(self).next_id(),
            r is Some <==> old(self)@.contains_key(id.0),
            r matches Some(t) ==> t == old(self)@[id.0] && t.id == id && id.0 < old(self).next_id(),
    {
        proof {
            use_type_invariant(&*self);
        }
        let mut tasks = Vec::new();
        std::mem::swap(&mut tasks, &mut self.tasks);
        let ghost old_tasks = tasks@;
        let r = remove_by_id(&mut tasks, id.0);
        proof {
            if r is Some {
                let i = choose|i: int| 0 <= i < old_tasks.len() && #[trigger] old_tasks[i].id.0 == id.0;
                lemma_id_map_at(old_tasks, i);
                assert(old_tasks[i].id.0 < self.next_id);
            }
            assert forall|i: int| 0 <= i < tasks@.len() implies #[trigger] tasks@[i].id.0 < self.next_id by {
                lemma_id_map_at(tasks@, i);
                let k = tasks@[i].id.0;
                assert(id_map(old_tasks).contains_key(k));
                let j = choose|j: int| 0 <= j < old_tasks.len() && #[trigger] old_tasks[j].id.0 == k;
                assert(old_tasks[j].id.0 < self.next_id);
            }
        }
        self.tasks = tasks;
        proof {
            lemma_id_map_len(old(self).tasks@);
            lemma_id_map_len(self.tasks@);
        }
        r
    }

    /// The task with the given identifier.
    pub fn get(&self, id: TaskId) -> (r: Option<&Task>)
        ensures
            r is Some <==> self@.contains_key(id.0),
            r matches Some(t) ==> *t == self@[id.0] && t.id == id && id.0 < self.next_id(),
    {
        proof {
            use_type_invariant(self);
        }
        let r = get_by_id(&self.tasks, id.0);
        proof {
            if r is Some {
                let i = choose|i: int| 0 <= i < self.tasks@.len() && #[trigger] self.tasks@[i].id.0 == id.0;
                lemma_id_map_at(self.tasks@, i);
                assert(self.tasks@[i].id.0 < self.next_id);
            }
        }
        r
    }

    /// Whether a task with the identifier is registered.
    pub fn contains(&self, id: TaskId) -> (b: bool)
        ensures
            b == self@.contains_key(id.0),
    {
        proof {
            use_type_invariant(self);
        }
        let (found, _) = find_id(&self.tasks, id.0);
        found
    }

    /// All tasks, in order of their identifiers.
    pub fn iter(&self) -> (r: &[Task])
        ensures
            r@ == self.entries(),
            sorted_by_id(r@),
    {
        proof {
            use_type_invariant(self);
        }
        self.tasks.as_slice()
    }

    /// The number of registered tasks.
    pub fn count(&self) -> (n: usize)
        ensures
            n == self.entries().len(),
            self@.dom().finite(),
            n == self@.len(),
    {
        proof {
            use_type_invariant(self);
            lemma_id_map_len(self.tasks@);
        }
        self.tasks.len()
    }

    /// The pending tasks, in order of their identifiers.
    pub fn pending(&self) -> (r: Vec<&Task>)
        ensures
            r@.map_values(|t: &Task| *t) == self.entries().filter(task_in_status(TaskStatus::Pending)),
            sorted_by_id(r@.map_values(|t: &Task| *t)),
            id_map(r@.map_values(|t: &Task| *t)) == id_map_where(self@, task_in_status(TaskStatus::Pending)),
    {
        let keep = |t: &Task| -> (b: bool)
            ensures
                b == (t.status == TaskStatus::Pending),
        {
            t.status.is_available()
        };
        proof {
            use_type_invariant(self);
            lemma_id_filter(self.tasks@, task_in_status(TaskStatus::Pending));
        }
        select(self.tasks.as_slice(), keep, Ghost(task_in_status(TaskStatus::Pending)))
    }

    /// The claimed, in-progress and paused tasks, in order of their identifiers.
    pub fn active(&self) -> (r: Vec<&Task>)
        ensures
            r@.map_values(|t: &Task| *t) == self.entries().filter(task_active()),
            sorted_by_id(r@.map_values(|t: &Task| *t)),
            id_map(r@.map_values(|t: &Task| *t)) == id_map_where(self@, task_active()),
    {
        let keep = |t: &Task| -> (b: bool)
            ensures
                b == (t.status == TaskStatus::Claimed || t.status == TaskStatus::InProgress || t.status
                    == TaskStatus::Paused),
        {
            t.status.is_active()
        };
        proof {
            use_type_invariant(self);
            lemma_id_filter(self.tasks@, task_active());
        }
        select(self.tasks.as_slice(), keep, Ghost(task_active()))
    }

    /// The tasks with the given status, in order of their identifiers.
    pub fn by_status(&self, status: TaskStatus) -> (r: Vec<&Task>)
        ensures
            r@.map_values(|t: &Task| *t) == self.entries().filter(task_in_status(status)),
            sorted_by_id(r@.map_values(|t: &Task| *t)),
            id_map(r@.map_values(|t: &Task| *t)) == id_map_where(self@, task_in_status(status)),
    {
        let keep = |t: &Task| -> (b: bool)
            ensures
                b == (t.status == status),
        {
            t.status == status
        };
        proof {
            use_type_invariant(self);
            lemma_id_filter(self.tasks@, task_in_status(status));
        }
        select(self.tasks.as_slice(), keep, Ghost(task_in_status(status)))
    }

    /// The tasks of a definition, in order of their identifiers.
    pub fn by_def(&self, def_id: &TaskDefId) -> (r: Vec<&Task>)
        ensures
            r@.map_values(|t: &Task| *t) == self.entries().filter(task_of_def(def_id.0@)),
            sorted_by_id(r@.map_values(|t: &Task| *t)),
            id_map(r@.map_values(|t: &Task| *t)) == id_map_where(self@, task_of_def(def_id.0@)),
    {
        let keep = |t: &Task| -> (b: bool)
            ensures
                b == (t.def_id.0@ == def_id.0@),
        {
            crate::keys::compare_keys(t.def_id.0.as_str(), def_id.0.as_str()) == crate::keys::KeyOrder::Equal
        };
        proof {
            use_type_invariant(self);
            lemma_id_filter(self.tasks@, task_of_def(def_id.0@));
        }
        select(self.tasks.as_slice(), keep, Ghost(task_of_def(def_id.0@)))
    }

    /// The tasks in a region, in order of their identifiers.
    pub fn in_region(&self, region: RegionId) -> (r: Vec<&Task>)
        ensures
            r@.map_values(|t: &Task| *t) == self.entries().filter(task_in_region(region)),
            sorted_by_id(r@.map_values(|t: &Task| *t)),
            id_map(r@.map_values(|t: &Task| *t)) == id_map_where(self@, task_in_region(region)),
    {
        let keep = |t: &Task| -> (b: bool)
            ensures
                b == (t.region == Some(region)),
        {
            match t.region {
                Some(r) => r == region,
                None => false,
            }
        };
        proof {
            use_type_invariant(self);
            lemma_id_filter(self.tasks@, task_in_region(region));
        }
        select(self.tasks.as_slice(), keep, Ghost(task_in_region(region)))
    }
}

} // verus!
