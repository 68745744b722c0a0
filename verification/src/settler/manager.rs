//! The settler manager: settlers, tasks, definitions and reservations, with the
//! bookkeeping of each tick. The choice of which settler takes which task
//! (weighed by fractional scores) and the amount of work a settler does in a
//! tick (scaled by fractional speeds) are computed by the host and handed in.

use vstd::prelude::*;
use super::assignment::{AssignmentResult, ReservationTable};
use super::events::{kind_involves_settler, kind_involves_task, SettlerEvent, SettlerEventKind};
use super::ids::{CapabilityId, RegionId, SettlerId, TaskDefId, TaskId};
use super::registry::{settler_in_status, task_in_status, SettlerRegistry, TaskRegistry};
use super::summary::{settlers_writes, tasks_writes, write_le, write_settler, write_task, SettlerFingerprint, SettlerSnapshot};
use crate::checksum::le_bytes;
use std::collections::hash_map::DefaultHasher;
use std::hash::Hasher;
use vstd::std_specs::hash::DefaultHasherAdditionalSpecFns;
use super::task_def::TaskCategory;
use super::state::{fresh_settler, Settler, SettlerStatus, WorkPriorities};
use super::task::{fresh_task, Task, TaskStatus};
use super::task_def::{TaskDef, TaskDefRegistry};
use crate::ordered::{set_elements, set_without, strictly_increasing};
use crate::id_table::{id_map, lemma_id_map_at, lemma_id_map_insert, select, sorted_by_id, Identified};
use std::collections::BTreeSet;

verus! {

broadcast use vstd::laws_cmp::group_laws_cmp, vstd::std_specs::btree::group_btree_axioms;

/// Configuration for the settler manager.
#[derive(Clone, Copy, Debug, PartialEq, Eq, Structural)]
pub struct SettlerManagerConfig {
    pub auto_reassign_on_incapacitation: bool,
    pub track_event_history: bool,
    pub max_event_history: usize,
    pub snapshot_interval: u64,
    pub require_capability_match: bool,
}

impl Default for SettlerManagerConfig {
    fn default() -> (c: Self)
        ensures
            c == (SettlerManagerConfig {
                auto_reassign_on_incapacitation: true,
                track_event_history: true,
                max_event_history: 1000,
                snapshot_interval: 100,
                require_capability_match: true,
            }),
    {
        SettlerManagerConfig {
            auto_reassign_on_incapacitation: true,
            track_event_history: true,
            max_event_history: 1000,
            snapshot_interval: 100,
            require_capability_match: true,
        }
    }
}

impl SettlerManagerConfig {
    /// The default configuration: events tracked, at most 1000 kept,
    /// capabilities matched.
    pub fn new() -> (c: Self)
        ensures
            c == (SettlerManagerConfig {
                auto_reassign_on_incapacitation: true,
                track_event_history: true,
                max_event_history: 1000,
                snapshot_interval: 100,
                require_capability_match: true,
            }),
    {
        SettlerManagerConfig::default()
    }

    /// The configuration keeping at most `max` events.
    pub fn with_max_event_history(self, max: usize) -> (c: Self)
        ensures
            c == (SettlerManagerConfig { max_event_history: max, ..self }),
    {
        SettlerManagerConfig { max_event_history: max, ..self }
    }

    /// The configuration that does, or does not, hold pairings to the
    /// capabilities and forbidden categories of settlers.
    pub fn with_capability_match(self, required: bool) -> (c: Self)
        ensures
            c == (SettlerManagerConfig { require_capability_match: required, ..self }),
    {
        SettlerManagerConfig { require_capability_match: required, ..self }
    }
}

/// What a tick did: its events and its counts.
#[derive(Clone, Debug)]
pub struct SettlerTickResult {
    pub events: Vec<SettlerEvent>,
    pub assignments_made: u32,
    pub tasks_completed: u32,
    pub tasks_failed: u32,
    pub tasks_cancelled: u32,
    pub work_performed: u32,
}

impl SettlerTickResult {
    /// No events and every count zero.
    pub fn new() -> (r: Self)
        ensures
            r.events@ == Seq::<SettlerEvent>::empty(),
            r.assignments_made == 0 && r.tasks_completed == 0 && r.tasks_failed == 0,
            r.tasks_cancelled == 0 && r.work_performed == 0,
    {
        SettlerTickResult {
            events: Vec::new(),
            assignments_made: 0,
            tasks_completed: 0,
            tasks_failed: 0,
            tasks_cancelled: 0,
            work_performed: 0,
        }
    }

    /// Appends the other result's events and adds its counts.
    pub fn merge(&mut self, other: Self)
        requires
            old(self).assignments_made + other.assignments_made <= u32::MAX,
            old(self).tasks_completed + other.tasks_completed <= u32::MAX,
            old(self).tasks_failed + other.tasks_failed <= u32::MAX,
            old(self).tasks_cancelled + other.tasks_cancelled <= u32::MAX,
            old(self).work_performed + other.work_performed <= u32::MAX,
        ensures
            final(self).events@ == old(self).events@ + other.events@,
            final(self).assignments_made == old(self).assignments_made + other.assignments_made,
            final(self).tasks_completed == old(self).tasks_completed + other.tasks_completed,
            final(self).tasks_failed == old(self).tasks_failed + other.tasks_failed,
            final(self).tasks_cancelled == old(self).tasks_cancelled + other.tasks_cancelled,
            final(self).work_performed == old(self).work_performed + other.work_performed,
    {
        let mut other = other;
        self.events.append(&mut other.events);
        self.assignments_made = self.assignments_made + other.assignments_made;
        self.tasks_completed = self.tasks_completed + other.tasks_completed;
        self.tasks_failed = self.tasks_failed + other.tasks_failed;
        self.tasks_cancelled = self.tasks_cancelled + other.tasks_cancelled;
        self.work_performed = self.work_performed + other.work_performed;
    }
}

/// The event history after an event that is recorded only when tracking is on.
pub open spec fn logged(events: Seq<SettlerEvent>, tracking: bool, e: SettlerEvent) -> Seq<SettlerEvent> {
    if tracking {
        events.push(e)
    } else {
        events
    }
}

/// The history grew by one event, which satisfies `p`.
pub open spec fn appended(before: Seq<SettlerEvent>, after: Seq<SettlerEvent>, p: spec_fn(SettlerEvent) -> bool) -> bool {
    &&& after.len() == before.len() + 1
    &&& after.drop_last() == before
    &&& p(after.last())
}

/// The event records the creation of settler `id` named `name` at `tick`.
pub open spec fn settler_created_event(e: SettlerEvent, tick: u64, id: SettlerId, name: Seq<char>) -> bool {
    &&& e.tick == tick
    &&& e.kind matches SettlerEventKind::SettlerCreated { settler: s, name: n } && s == id && n@ == name
}

/// A settler after dropping its task: a working settler becomes idle.
pub open spec fn cleared(s: Settler) -> Settler {
    Settler {
        current_task: None,
        status: if s.status == SettlerStatus::Working { SettlerStatus::Idle } else { s.status },
        ..s
    }
}

/// The settlers with the given numbers drop their tasks; the others stay.
pub open spec fn clear_settlers(m: Map<u64, Settler>, ids: Set<u64>) -> Map<u64, Settler> {
    Map::new(|k: u64| m.contains_key(k), |k: u64| if ids.contains(k) { cleared(m[k]) } else { m[k] })
}

/// The event records the cancellation of `task` at `tick` for `reason`.
pub open spec fn task_cancelled_event(e: SettlerEvent, tick: u64, task: TaskId, reason: Seq<char>) -> bool {
    &&& e.tick == tick
    &&& e.kind matches SettlerEventKind::TaskCancelled { task: t, reason: r } && t == task && r@ == reason
}

/// `t2` is the task `t` after settler `s` left it: a task left without
/// workers returns to pending.
pub open spec fn after_leaving(t: Task, s: u64, t2: Task) -> bool {
    let w = t.assigned_workers@.remove(s);
    &&& t2.assigned_workers@ == w
    &&& t2 == (Task {
        assigned_workers: t2.assigned_workers,
        status: if w.is_empty() { TaskStatus::Pending } else { t.status },
        ..t
    })
}

proof fn lemma_clear_step(m: Map<u64, Settler>, v: Seq<u64>, i: int, prev: Map<u64, Settler>)
    requires
        strictly_increasing(v),
        0 <= i < v.len(),
        prev == clear_settlers(m, v.subrange(0, i).to_set()),
    ensures
        v.subrange(0, i + 1).to_set() == v.subrange(0, i).to_set().insert(v[i]),
        !v.subrange(0, i).to_set().contains(v[i]),
        m.contains_key(v[i]) ==> prev[v[i]] == m[v[i]],
        m.contains_key(v[i]) ==> clear_settlers(m, v.subrange(0, i + 1).to_set()) == prev.insert(
            v[i],
            cleared(m[v[i]]),
        ),
        !m.contains_key(v[i]) ==> clear_settlers(m, v.subrange(0, i + 1).to_set()) == prev,
{
    let a = v.subrange(0, i).to_set();
    let b = v.subrange(0, i + 1).to_set();
    assert(b =~= a.insert(v[i])) by {
        assert forall|x: u64| b.contains(x) implies a.insert(v[i]).contains(x) by {
            let j = choose|j: int| 0 <= j < i + 1 && #[trigger] v.subrange(0, i + 1)[j] == x;
            if j < i {
                assert(v.subrange(0, i)[j] == x);
            }
        }
        assert forall|x: u64| a.insert(v[i]).contains(x) implies b.contains(x) by {
            if x == v[i] {
                assert(v.subrange(0, i + 1)[i] == x);
            } else {
                let j = choose|j: int| 0 <= j < i && #[trigger] v.subrange(0, i)[j] == x;
                assert(v.subrange(0, i + 1)[j] == x);
            }
        }
    }
    assert(!a.contains(v[i])) by {
        if a.contains(v[i]) {
            let j = choose|j: int| 0 <= j < i && #[trigger] v.subrange(0, i)[j] == v[i];
            assert(v[j] < v[i]);
        }
    }
    if m.contains_key(v[i]) {
        assert(clear_settlers(m, b) =~= prev.insert(v[i], cleared(m[v[i]])));
    } else {
        assert(clear_settlers(m, b) =~= prev);
    }
}

/// The numbers of the completed tasks.
pub open spec fn completed_ids(m: Map<u64, Task>) -> Set<u64> {
    Set::new(|k: u64| m.contains_key(k) && m[k].status == TaskStatus::Completed)
}

/// `t2` is `t` with the completed tasks `done` dropped from its blockers.
pub open spec fn unblocked(t: Task, t2: Task, done: Set<u64>) -> bool {
    &&& t2.blocked_by@ == t.blocked_by@.filter(|b: u64| !done.contains(b))
    &&& t2 == (Task { blocked_by: t2.blocked_by, ..t })
}

/// A task that was blocked and that the completed tasks `done` unblock.
pub open spec fn becomes_unblocked(done: Set<u64>) -> spec_fn(Task) -> bool {
    |t: Task| !t.blocked_by@.is_empty() && t.blocked_by@.filter(|b: u64| !done.contains(b)).is_empty()
}

/// The event announcing that a task is no longer blocked.
pub open spec fn unblock_event(tick: u64) -> spec_fn(Task) -> SettlerEvent {
    |t: Task| SettlerEvent { tick, kind: SettlerEventKind::TaskUnblocked { task: t.id } }
}

proof fn lemma_completed_push(s: Seq<Task>, t: Task)
    requires
        sorted_by_id(s),
        forall|j: int| 0 <= j < s.len() ==> #[trigger] s[j].id.0 < t.id.0,
    ensures
        sorted_by_id(s.push(t)),
        completed_ids(id_map(s.push(t))) == if t.status == TaskStatus::Completed {
            completed_ids(id_map(s)).insert(t.id.0)
        } else {
            completed_ids(id_map(s))
        },
{
    assert(s.insert(s.len() as int, t) =~= s.push(t));
    lemma_id_map_insert(s, s.len() as int, t);
    let m = id_map(s);
    let n = id_map(s.push(t));
    assert(n == m.insert(t.id.0, t));
    if t.status == TaskStatus::Completed {
        assert(completed_ids(n) =~= completed_ids(m).insert(t.id.0));
    } else {
        assert(completed_ids(n) =~= completed_ids(m));
    }
}

/// The category at position `k` of the declaration order.
fn category_at(k: usize) -> (c: TaskCategory)
    requires
        k < 8,
    ensures
        c.spec_index() == k,
{
    if k == 0 {
        TaskCategory::Construction
    } else if k == 1 {
        TaskCategory::Production
    } else if k == 2 {
        TaskCategory::Hauling
    } else if k == 3 {
        TaskCategory::Maintenance
    } else if k == 4 {
        TaskCategory::Research
    } else if k == 5 {
        TaskCategory::Medical
    } else if k == 6 {
        TaskCategory::Combat
    } else {
        TaskCategory::Social
    }
}

/// The most workers a task may have: its definition's limit, or one when its
/// definition is unknown.
pub open spec fn max_workers_of(defs: Map<Seq<char>, TaskDef>, t: Task) -> int {
    if defs.contains_key(t.def_id.0@) {
        defs[t.def_id.0@].max_workers as int
    } else {
        1
    }
}

/// The settler of a candidate may do its task: when capabilities must match
/// and the task's definition is known, the settler has every capability the
/// definition requires enabled and is not forbidden its category.
pub open spec fn qualified(m: SettlerManager, c: (TaskId, SettlerId)) -> bool {
    let t = m.task_map()[c.0.0];
    let s = m.settler_map()[c.1.0];
    (m.settings().require_capability_match && m.def_map().contains_key(t.def_id.0@)) ==> {
        let d = m.def_map()[t.def_id.0@];
        s.capable_of_all(d.required_capabilities@) && !s.work_priorities.forbids(d.category)
    }
}

/// A candidate pairing can be made at the start of a round: the task is
/// pending, unblocked and below its worker limit, the settler is idle
/// without a task, and the settler is qualified for the task.
pub open spec fn eligible(m: SettlerManager, c: (TaskId, SettlerId)) -> bool {
    &&& m.task_map().contains_key(c.0.0)
    &&& m.task_map()[c.0.0].status == TaskStatus::Pending
    &&& m.task_map()[c.0.0].blocked_by@.is_empty()
    &&& m.task_map()[c.0.0].assigned_workers@.len() < max_workers_of(m.def_map(), m.task_map()[c.0.0])
    &&& m.settler_map().contains_key(c.1.0)
    &&& m.settler_map()[c.1.0].status == SettlerStatus::Idle
    &&& m.settler_map()[c.1.0].current_task is None
    &&& qualified(m, c)
}

/// Some accepted earlier candidate shares the task or the settler of `c`.
pub open spec fn taken(cands: Seq<(TaskId, SettlerId)>, acc: Seq<bool>, c: (TaskId, SettlerId)) -> bool {
    exists|j: int| 0 <= j < acc.len() && #[trigger] acc[j] && (cands[j].0 == c.0 || cands[j].1 == c.1)
}

/// Which candidates a round accepts, in order: each eligible one whose task and
/// settler no earlier accepted candidate took.
pub open spec fn accepted(m: SettlerManager, cands: Seq<(TaskId, SettlerId)>) -> Seq<bool>
    decreases cands.len(),
{
    if cands.len() == 0 {
        Seq::empty()
    } else {
        let prev = accepted(m, cands.drop_last());
        prev.push(eligible(m, cands.last()) && !taken(cands.drop_last(), prev, cands.last()))
    }
}

/// The claim events of the accepted candidates, in order.
pub open spec fn claim_events(cands: Seq<(TaskId, SettlerId)>, acc: Seq<bool>, tick: u64) -> Seq<SettlerEvent>
    decreases cands.len(),
{
    if cands.len() == 0 || acc.len() == 0 {
        Seq::empty()
    } else {
        let prev = claim_events(cands.drop_last(), acc.drop_last(), tick);
        if acc.last() {
            prev.push(
                SettlerEvent { tick, kind: SettlerEventKind::TaskClaimed { task: cands.last().0, settler: cands.last().1 } },
            )
        } else {
            prev
        }
    }
}

/// How many candidates were accepted.
pub open spec fn count_accepted(acc: Seq<bool>) -> nat
    decreases acc.len(),
{
    if acc.len() == 0 {
        0
    } else {
        count_accepted(acc.drop_last()) + if acc.last() { 1nat } else { 0nat }
    }
}

/// The task was claimed by the settler of an accepted candidate.
pub open spec fn claimed_by(t: Task, t2: Task, settler: SettlerId, tick: u64) -> bool {
    &&& t2.assigned_workers@ == t.assigned_workers@.insert(settler.0)
    &&& t2 == (Task {
        status: TaskStatus::Claimed,
        assigned_workers: t2.assigned_workers,
        started_tick: if t.started_tick is None { Some(tick) } else { t.started_tick },
        ..t
    })
}

/// The task of some accepted candidate.
pub open spec fn accepted_task(cands: Seq<(TaskId, SettlerId)>, acc: Seq<bool>, k: u64) -> bool {
    exists|j: int| 0 <= j < acc.len() && #[trigger] acc[j] && cands[j].0.0 == k
}

/// The settler of some accepted candidate.
pub open spec fn accepted_settler(cands: Seq<(TaskId, SettlerId)>, acc: Seq<bool>, k: u64) -> bool {
    exists|j: int| 0 <= j < acc.len() && #[trigger] acc[j] && cands[j].1.0 == k
}

/// The pair (task, settler) of some accepted candidate.
pub open spec fn accepted_pair(cands: Seq<(TaskId, SettlerId)>, acc: Seq<bool>, p: (u64, u64)) -> bool {
    exists|j: int| 0 <= j < acc.len() && #[trigger] acc[j] && cands[j].0.0 == p.0 && cands[j].1.0 == p.1
}

/// A settler with a current task.
pub open spec fn has_task() -> spec_fn(Settler) -> bool {
    |s: Settler| s.current_task is Some
}

/// The pair (settler, its current task) of a settler with a task.
pub open spec fn work_pair() -> spec_fn(Settler) -> (SettlerId, TaskId) {
    |s: Settler| (s.id, s.current_task->0)
}

/// The task once work starts on it: a claimed task goes into progress, with
/// its start tick recorded unless it had one.
pub open spec fn started(t: Task, tick: u64) -> Task {
    if t.status == TaskStatus::Claimed {
        Task {
            status: TaskStatus::InProgress,
            started_tick: if t.started_tick is None { Some(tick) } else { t.started_tick },
            ..t
        }
    } else {
        t
    }
}

/// Work done after adding `amount`, saturating at the largest count.
pub open spec fn added_work(done: u32, amount: u32) -> u32 {
    if done + amount <= u32::MAX {
        (done + amount) as u32
    } else {
        u32::MAX
    }
}

/// Adding `amount` of work finishes the task.
pub open spec fn finishes(t: Task, amount: u32) -> bool {
    added_work(t.work_done, amount) >= t.work_required
}

/// The events of one settler's work on a task in a tick.
pub open spec fn work_events(t: Task, settler: SettlerId, amount: u32, tick: u64) -> Seq<SettlerEvent> {
    let t1 = started(t, tick);
    let begun = if t.status == TaskStatus::Claimed {
        seq![SettlerEvent { tick, kind: SettlerEventKind::TaskStarted { task: t.id, settler } }]
    } else {
        Seq::empty()
    };
    let progress = SettlerEvent {
        tick,
        kind: SettlerEventKind::TaskProgress {
            task: t.id,
            settler,
            work_done: added_work(t1.work_done, amount),
            work_required: t1.work_required,
        },
    };
    let start = match t1.started_tick {
        Some(s) => s,
        None => tick,
    };
    let duration = if tick >= start { (tick - start) as u64 } else { 0u64 };
    let finished = if finishes(t1, amount) {
        seq![SettlerEvent { tick, kind: SettlerEventKind::TaskCompleted { task: t.id, settler, duration_ticks: duration } }]
    } else {
        Seq::empty()
    };
    begun.push(progress) + finished
}

/// A task whose definition is known and of the given category.
pub open spec fn task_in_category(defs: Map<Seq<char>, TaskDef>, c: TaskCategory) -> spec_fn(Task) -> bool {
    |t: Task| defs.contains_key(t.def_id.0@) && defs[t.def_id.0@].category == c
}

/// An event that concerns the task.
pub open spec fn event_of_task(task: TaskId) -> spec_fn(SettlerEvent) -> bool {
    |e: SettlerEvent| kind_involves_task(e.kind, task)
}

/// An event that concerns the settler.
pub open spec fn event_of_settler(settler: SettlerId) -> spec_fn(SettlerEvent) -> bool {
    |e: SettlerEvent| kind_involves_settler(e.kind, settler)
}

fn copy_def_id(id: &TaskDefId) -> (r: TaskDefId)
    ensures
        r == *id,
{
    TaskDefId(id.0.clone())
}

/// Both managers hold the same settlers and would number the next alike.
pub open spec fn same_settlers(a: SettlerManager, b: SettlerManager) -> bool {
    a.settler_map() == b.settler_map() && a.next_settler_id() == b.next_settler_id()
}

/// Both managers hold the same tasks and would number the next alike.
pub open spec fn same_tasks(a: SettlerManager, b: SettlerManager) -> bool {
    a.task_map() == b.task_map() && a.next_task_id() == b.next_task_id()
}

/// Both managers have the same configuration, tick and totals.
pub open spec fn same_clock(a: SettlerManager, b: SettlerManager) -> bool {
    a.settings() == b.settings() && a.tick() == b.tick() && a.totals() == b.totals()
}

/// Nothing observable differs between the two managers.
pub open spec fn unchanged(a: SettlerManager, b: SettlerManager) -> bool {
    &&& a.def_map() == b.def_map()
    &&& same_settlers(a, b)
    &&& same_tasks(a, b)
    &&& a.reserved() == b.reserved()
    &&& a.events() == b.events()
    &&& same_clock(a, b)
}

/// The byte strings the manager's fingerprint hashes, in order: the tick,
/// the total work done, tasks completed and tasks failed as eight bytes each,
/// then each settler's writes in order of settler number, then each task's
/// writes in order of task number.
pub open spec fn fingerprint_writes(m: SettlerManager) -> Seq<Seq<u8>> {
    seq![
        le_bytes(m.tick() as nat, 8),
        le_bytes(m.totals().0 as nat, 8),
        le_bytes(m.totals().1 as nat, 8),
        le_bytes(m.totals().2 as nat, 8),
    ] + settlers_writes(m.settler_entries()) + tasks_writes(m.task_entries())
}

/// Manager of settlers and tasks.
#[derive(Debug)]
pub struct SettlerManager {
    config: SettlerManagerConfig,
    task_defs: TaskDefRegistry,
    settlers: SettlerRegistry,
    tasks: TaskRegistry,
    reservations: ReservationTable,
    event_history: Vec<SettlerEvent>,
    current_tick: u64,
    total_work_done: u64,
    total_tasks_completed: u64,
    total_tasks_failed: u64,
}

impl SettlerManager {
    /// The manager's reservation table is well formed.
    pub closed spec fn wf(&self) -> bool {
        self.reservations.wf()
    }

    /// The configuration.
    pub closed spec fn settings(&self) -> SettlerManagerConfig {
        self.config
    }

    /// The task definitions, by identifier text.
    pub closed spec fn def_map(&self) -> Map<Seq<char>, TaskDef> {
        self.task_defs@
    }

    /// The settlers, by number.
    pub open spec fn settler_map(&self) -> Map<u64, Settler> {
        id_map(self.settler_entries())
    }

    /// The settlers in order of their numbers.
    pub closed spec fn settler_entries(&self) -> Seq<Settler> {
        self.settlers.entries()
    }

    /// The tasks, by number.
    pub open spec fn task_map(&self) -> Map<u64, Task> {
        id_map(self.task_entries())
    }

    /// The tasks in order of their numbers.
    pub closed spec fn task_entries(&self) -> Seq<Task> {
        self.tasks.entries()
    }

    /// The number the next created settler receives.
    pub closed spec fn next_settler_id(&self) -> u64 {
        self.settlers.next_id()
    }

    /// The number the next created task receives.
    pub closed spec fn next_task_id(&self) -> u64 {
        self.tasks.next_id()
    }

    /// The reservations, as pairs (task number, settler number).
    pub closed spec fn reserved(&self) -> Set<(u64, u64)> {
        self.reservations.reserved()
    }

    /// The recorded events, oldest first.
    pub closed spec fn events(&self) -> Seq<SettlerEvent> {
        self.event_history@
    }

    /// The current tick.
    pub closed spec fn tick(&self) -> u64 {
        self.current_tick
    }

    /// Total work done, tasks completed and tasks failed or cancelled.
    pub closed spec fn totals(&self) -> (u64, u64, u64) {
        (self.total_work_done, self.total_tasks_completed, self.total_tasks_failed)
    }

    /// An empty manager at tick 0.
    pub fn new(config: SettlerManagerConfig) -> (m: Self)
        ensures
            m.wf(),
            m.settings() == config,
            m.def_map() == Map::<Seq<char>, TaskDef>::empty(),
            m.settler_map() == Map::<u64, Settler>::empty(),
            m.task_map() == Map::<u64, Task>::empty(),
            m.next_settler_id() == 0,
            m.next_task_id() == 0,
            m.reserved() == Set::<(u64, u64)>::empty(),
            m.events() == Seq::<SettlerEvent>::empty(),
            m.tick() == 0,
            m.totals() == (0u64, 0u64, 0u64),
    {
        SettlerManager {
            config,
            task_defs: TaskDefRegistry::new(),
            settlers: SettlerRegistry::new(),
            tasks: TaskRegistry::new(),
            reservations: ReservationTable::new(),
            event_history: Vec::new(),
            current_tick: 0,
            total_work_done: 0,
            total_tasks_completed: 0,
            total_tasks_failed: 0,
        }
    }

    /// The configuration.
    pub fn config(&self) -> (c: &SettlerManagerConfig)
        ensures
            *c == self.settings(),
    {
        &self.config
    }

    /// The current tick.
    pub fn current_tick(&self) -> (t: u64)
        ensures
            t == self.tick(),
    {
        self.current_tick
    }

    /// The task definitions.
    pub fn task_defs(&self) -> (r: &TaskDefRegistry)
        ensures
            r@ == self.def_map(),
    {
        &self.task_defs
    }

    /// The settlers.
    pub fn settlers(&self) -> (r: &SettlerRegistry)
        ensures
            r@ == self.settler_map(),
            r.next_id() == self.next_settler_id(),
    {
        &self.settlers
    }

    /// The tasks.
    pub fn tasks(&self) -> (r: &TaskRegistry)
        ensures
            r@ == self.task_map(),
            r.next_id() == self.next_task_id(),
    {
        &self.tasks
    }

    /// The reservations.
    pub fn reservations(&self) -> (r: &ReservationTable)
        requires
            self.wf(),
        ensures
            r.wf(),
            r.reserved() == self.reserved(),
    {
        &self.reservations
    }

    /// The recorded events, oldest first.
    pub fn event_history(&self) -> (r: &[SettlerEvent])
        ensures
            r@ == self.events(),
    {
        self.event_history.as_slice()
    }

    /// Total work done, tasks completed, and tasks failed or cancelled.
    pub fn total_counts(&self) -> (r: (u64, u64, u64))
        ensures
            r == self.totals(),
    {
        (self.total_work_done, self.total_tasks_completed, self.total_tasks_failed)
    }

    /// Registers a task definition, replacing any with the same identifier.
    pub fn register_task_def(&mut self, def: TaskDef)
        requires
            old(self).wf(),
        ensures
            final(self).wf(),
            final(self).def_map() == old(self).def_map().insert(def.id.0@, def),
            same_settlers(*old(self), *final(self)),
            same_tasks(*old(self), *final(self)),
            old(self).reserved() == final(self).reserved(),
            old(self).events() == final(self).events(),
            same_clock(*old(self), *final(self)),
    {
        self.task_defs.register(def);
    }

    /// Creates an idle settler under the next settler number, recording the
    /// creation when tracking events.
    pub fn create_settler(&mut self, name: &str) -> (id: SettlerId)
        requires
            old(self).wf(),
            old(self).next_settler_id() < u64::MAX,
        ensures
            final(self).wf(),
            id.0 == old(self).next_settler_id(),
            !old(self).settler_map().contains_key(id.0),
            final(self).next_settler_id() == old(self).next_settler_id() + 1,
            final(self).settler_map().dom() == old(self).settler_map().dom().insert(id.0),
            forall|k: u64| k != id.0 ==> #[trigger] final(self).settler_map().get(k) == old(self).settler_map().get(k),
            fresh_settler(final(self).settler_map()[id.0], id, name@, old(self).tick()),
            final(self).settings().track_event_history ==> appended(
                old(self).events(),
                final(self).events(),
                |e: SettlerEvent| settler_created_event(e, old(self).tick(), id, name@),
            ),
            !final(self).settings().track_event_history ==> final(self).events() == old(self).events(),
            old(self).def_map() == final(self).def_map(),
            same_tasks(*old(self), *final(self)),
            old(self).reserved() == final(self).reserved(),
            same_clock(*old(self), *final(self)),
    {
        let id = self.settlers.create(name, self.current_tick);
        if self.config.track_event_history {
            let e = SettlerEvent::settler_created(self.current_tick, id, name);
            let ghost before = self.event_history@;
            self.event_history.push(e);
            proof {
                assert(self.event_history@.drop_last() =~= before);
            }
        }
        id
    }

    /// Creates a pending task of a registered definition, with the definition's
    /// base work, in the given region; none when the definition is unknown.
    pub fn create_task(&mut self, def_id: TaskDefId, region: Option<RegionId>) -> (r: Option<TaskId>)
        requires
            old(self).wf(),
            old(self).next_task_id() < u64::MAX,
        ensures
            final(self).wf(),
            r is None <==> !old(self).def_map().contains_key(def_id.0@),
            r is None ==> unchanged(*old(self), *final(self)),
            r matches Some(id) ==> {
                &&& id.0 == old(self).next_task_id()
                &&& !old(self).task_map().contains_key(id.0)
                &&& final(self).next_task_id() == old(self).next_task_id() + 1
                &&& final(self).task_map() == old(self).task_map().insert(id.0, final(self).task_map()[id.0])
                &&& fresh_task(
                    Task { region: None, ..final(self).task_map()[id.0] },
                    id,
                    def_id,
                    old(self).def_map()[def_id.0@].base_work_amount,
                    old(self).tick(),
                )
                &&& final(self).task_map()[id.0].region == region
                &&& final(self).events() == logged(
                    old(self).events(),
                    old(self).settings().track_event_history,
                    SettlerEvent { tick: old(self).tick(), kind: SettlerEventKind::TaskCreated { task: id, def: def_id, region } },
                )
            },
            old(self).def_map() == final(self).def_map(),
            same_settlers(*old(self), *final(self)),
            old(self).reserved() == final(self).reserved(),
            same_clock(*old(self), *final(self)),
    {
        let work_required = match self.task_defs.get(&def_id) {
            Some(def) => def.base_work_amount,
            None => {
                return None;
            },
        };
        let id = self.tasks.create(copy_def_id(&def_id), work_required, self.current_tick);
        let ghost created = self.tasks@;
        match self.tasks.remove(id) {
            Some(t) => {
                let mut t = t;
                t.region = region;
                self.tasks.register(t);
                proof {
                    assert(self.tasks@ =~= created.insert(id.0, t));
                    assert(created.remove(id.0).insert(id.0, t) =~= created.insert(id.0, t));
                }
            },
            None => {},
        }
        proof {
            assert forall|k: u64| k != id.0 implies #[trigger] self.tasks@.get(k) == old(self).tasks@.get(k) by {
                assert(created.get(k) == old(self).tasks@.get(k));
            }
            assert(self.tasks@ =~= old(self).tasks@.insert(id.0, self.tasks@[id.0])) by {
                assert forall|k: u64| #[trigger] self.tasks@.contains_key(k) implies old(self).tasks@.insert(id.0, self.tasks@[id.0]).contains_key(k) by {
                    if k != id.0 {
                        assert(self.tasks@.get(k) == old(self).tasks@.get(k));
                    }
                }
                assert forall|k: u64| #[trigger] old(self).tasks@.contains_key(k) && k != id.0 implies self.tasks@.contains_key(k) && self.tasks@[k] == old(self).tasks@[k] by {
                    assert(self.tasks@.get(k) == old(self).tasks@.get(k));
                }
            }
        }
        if self.config.track_event_history {
            let ghost before = self.event_history@;
            self.event_history.push(SettlerEvent::task_created(self.current_tick, id, def_id, region));
        }
        Some(id)
    }

    /// Records that the settler reserved the task, in the table and on the
    /// settler; nothing happens unless both exist. Whether it happened.
    pub fn reserve_task(&mut self, task: TaskId, settler: SettlerId) -> (b: bool)
        requires
            old(self).wf(),
        ensures
            final(self).wf(),
            b == (old(self).task_map().contains_key(task.0) && old(self).settler_map().contains_key(settler.0)),
            !b ==> unchanged(*old(self), *final(self)),
            b ==> final(self).reserved() == old(self).reserved().insert((task.0, settler.0)),
            b ==> final(self).settler_map() == old(self).settler_map().insert(
                settler.0,
                final(self).settler_map()[settler.0],
            ),
            b ==> final(self).settler_map()[settler.0] == (Settler {
                reserved_tasks: final(self).settler_map()[settler.0].reserved_tasks,
                ..old(self).settler_map()[settler.0]
            }),
            b ==> final(self).settler_map()[settler.0].reserved_tasks@ == old(self).settler_map()[settler.0].reserved_tasks@.insert(task.0),
            final(self).next_settler_id() == old(self).next_settler_id(),
            old(self).def_map() == final(self).def_map(),
            same_tasks(*old(self), *final(self)),
            old(self).events() == final(self).events(),
            same_clock(*old(self), *final(self)),
    {
        if !self.tasks.contains(task) || !self.settlers.contains(settler) {
            return false;
        }
        self.reservations.reserve(task, settler);
        let ghost before = self.settlers@;
        match self.settlers.remove(settler) {
            Some(s) => {
                let mut s = s;
                s.reserve_task(task);
                self.settlers.register(s);
                proof {
                    assert(self.settlers@ =~= before.insert(settler.0, s));
                }
            },
            None => {},
        }
        true
    }

    /// Drops the reservation from the table and, when the settler exists, from
    /// the settler.
    pub fn release_reservation(&mut self, task: TaskId, settler: SettlerId)
        requires
            old(self).wf(),
        ensures
            final(self).wf(),
            final(self).reserved() == old(self).reserved().remove((task.0, settler.0)),
            !old(self).settler_map().contains_key(settler.0) ==> final(self).settler_map() == old(self).settler_map(),
            old(self).settler_map().contains_key(settler.0) ==> final(self).settler_map() == old(self).settler_map().insert(
                settler.0,
                final(self).settler_map()[settler.0],
            ),
            old(self).settler_map().contains_key(settler.0) ==> final(self).settler_map()[settler.0] == (Settler {
                reserved_tasks: final(self).settler_map()[settler.0].reserved_tasks,
                ..old(self).settler_map()[settler.0]
            }),
            old(self).settler_map().contains_key(settler.0) ==> final(self).settler_map()[settler.0].reserved_tasks@
                == old(self).settler_map()[settler.0].reserved_tasks@.remove(task.0),
            final(self).next_settler_id() == old(self).next_settler_id(),
            old(self).def_map() == final(self).def_map(),
            same_tasks(*old(self), *final(self)),
            old(self).events() == final(self).events(),
            same_clock(*old(self), *final(self)),
    {
        self.reservations.release(task, settler);
        let ghost before = self.settlers@;
        match self.settlers.remove(settler) {
            Some(s) => {
                let mut s = s;
                s.unreserve_task(task);
                self.settlers.register(s);
                proof {
                    assert(self.settlers@ =~= before.insert(settler.0, s));
                }
            },
            None => {
                proof {
                    assert(self.settlers@ =~= before);
                }
            },
        }
    }

    /// The settler has exactly these capabilities enabled; nothing happens to
    /// an unknown settler.
    pub fn set_settler_capabilities(&mut self, settler_id: SettlerId, capabilities: Vec<CapabilityId>)
        requires
            old(self).wf(),
        ensures
            final(self).wf(),
            !old(self).settler_map().contains_key(settler_id.0) ==> unchanged(*old(self), *final(self)),
            old(self).settler_map().contains_key(settler_id.0) ==> final(self).settler_map() == old(
                self,
            ).settler_map().insert(
                settler_id.0,
                Settler { enabled_capabilities: capabilities, ..old(self).settler_map()[settler_id.0] },
            ),
            final(self).next_settler_id() == old(self).next_settler_id(),
            old(self).def_map() == final(self).def_map(),
            same_tasks(*old(self), *final(self)),
            old(self).reserved() == final(self).reserved(),
            old(self).events() == final(self).events(),
            same_clock(*old(self), *final(self)),
    {
        let ghost before = self.settlers@;
        match self.settlers.remove(settler_id) {
            Some(s) => {
                let mut s = s;
                s.set_capabilities(capabilities);
                self.settlers.register(s);
                proof {
                    assert(self.settlers@ =~= before.insert(settler_id.0, s));
                }
            },
            None => {
                proof {
                    assert(self.settlers@ =~= before);
                }
            },
        }
    }

    /// The settler has these work priorities; nothing happens to an unknown
    /// settler.
    pub fn set_settler_work_priorities(&mut self, settler_id: SettlerId, priorities: WorkPriorities)
        requires
            old(self).wf(),
        ensures
            final(self).wf(),
            !old(self).settler_map().contains_key(settler_id.0) ==> unchanged(*old(self), *final(self)),
            old(self).settler_map().contains_key(settler_id.0) ==> final(self).settler_map() == old(
                self,
            ).settler_map().insert(
                settler_id.0,
                Settler { work_priorities: priorities, ..old(self).settler_map()[settler_id.0] },
            ),
            final(self).next_settler_id() == old(self).next_settler_id(),
            old(self).def_map() == final(self).def_map(),
            same_tasks(*old(self), *final(self)),
            old(self).reserved() == final(self).reserved(),
            old(self).events() == final(self).events(),
            same_clock(*old(self), *final(self)),
    {
        let ghost before = self.settlers@;
        match self.settlers.remove(settler_id) {
            Some(s) => {
                let mut s = s;
                s.work_priorities = priorities;
                self.settlers.register(s);
                proof {
                    assert(self.settlers@ =~= before.insert(settler_id.0, s));
                }
            },
            None => {
                proof {
                    assert(self.settlers@ =~= before);
                }
            },
        }
    }

    /// An incapacitated settler becomes idle again, recorded when tracking
    /// events; nothing happens to an unknown settler.
    pub fn recover_settler(&mut self, settler_id: SettlerId)
        requires
            old(self).wf(),
        ensures
            final(self).wf(),
            !old(self).settler_map().contains_key(settler_id.0) ==> unchanged(*old(self), *final(self)),
            old(self).settler_map().contains_key(settler_id.0) ==> {
                let s = old(self).settler_map()[settler_id.0];
                &&& final(self).settler_map() == old(self).settler_map().insert(
                    settler_id.0,
                    Settler {
                        status: if s.status == SettlerStatus::Incapacitated { SettlerStatus::Idle } else { s.status },
                        ..s
                    },
                )
                &&& final(self).events() == logged(
                    old(self).events(),
                    old(self).settings().track_event_history,
                    SettlerEvent { tick: old(self).tick(), kind: SettlerEventKind::SettlerRecovered { settler: settler_id } },
                )
            },
            final(self).next_settler_id() == old(self).next_settler_id(),
            old(self).def_map() == final(self).def_map(),
            same_tasks(*old(self), *final(self)),
            old(self).reserved() == final(self).reserved(),
            same_clock(*old(self), *final(self)),
    {
        let ghost before = self.settlers@;
        match self.settlers.remove(settler_id) {
            Some(s) => {
                let mut s = s;
                s.recover();
                self.settlers.register(s);
                proof {
                    assert(self.settlers@ =~= before.insert(settler_id.0, s));
                }
                if self.config.track_event_history {
                    self.event_history.push(
                        SettlerEvent::new(self.current_tick, SettlerEventKind::SettlerRecovered { settler: settler_id }),
                    );
                }
            },
            None => {
                proof {
                    assert(self.settlers@ =~= before);
                }
            },
        }
    }

    /// The task waits for `depends_on` to complete; nothing happens to an unknown task.
    pub fn add_dependency(&mut self, task: TaskId, depends_on: TaskId)
        requires
            old(self).wf(),
        ensures
            final(self).wf(),
            !old(self).task_map().contains_key(task.0) ==> final(self).task_map() == old(self).task_map(),
            old(self).task_map().contains_key(task.0) ==> final(self).task_map() == old(self).task_map().insert(
                task.0,
                final(self).task_map()[task.0],
            ),
            old(self).task_map().contains_key(task.0) ==> final(self).task_map()[task.0] == (Task {
                blocked_by: final(self).task_map()[task.0].blocked_by,
                ..old(self).task_map()[task.0]
            }),
            old(self).task_map().contains_key(task.0) ==> final(self).task_map()[task.0].blocked_by@
                == old(self).task_map()[task.0].blocked_by@.insert(depends_on.0),
            final(self).next_task_id() == old(self).next_task_id(),
            old(self).def_map() == final(self).def_map(),
            same_settlers(*old(self), *final(self)),
            old(self).reserved() == final(self).reserved(),
            old(self).events() == final(self).events(),
            same_clock(*old(self), *final(self)),
    {
        let ghost before = self.tasks@;
        match self.tasks.remove(task) {
            Some(t) => {
                let mut t = t;
                t.blocked_by.insert(depends_on.0);
                self.tasks.register(t);
                proof {
                    assert(self.tasks@ =~= before.insert(task.0, t));
                }
            },
            None => {
                proof {
                    assert(self.tasks@ =~= before);
                }
            },
        }
    }

    /// Cancels the task at the current tick: its workers drop it, its
    /// reservations go, the cancellation is recorded when tracking events, and
    /// the failed count grows. Nothing happens to an unknown task.
    pub fn cancel_task(&mut self, task_id: TaskId, reason: &str)
        requires
            old(self).wf(),
            old(self).totals().2 < u64::MAX,
        ensures
            final(self).wf(),
            !old(self).task_map().contains_key(task_id.0) ==> unchanged(*old(self), *final(self)),
            old(self).task_map().contains_key(task_id.0) ==> {
                let t = old(self).task_map()[task_id.0];
                &&& final(self).task_map() == old(self).task_map().insert(
                    task_id.0,
                    Task { status: TaskStatus::Cancelled, completed_tick: Some(old(self).tick()), ..t },
                )
                &&& final(self).settler_map() == clear_settlers(old(self).settler_map(), t.assigned_workers@)
                &&& final(self).reserved() == old(self).reserved().filter(|p: (u64, u64)| p.0 != task_id.0)
                &&& final(self).totals() == (old(self).totals().0, old(self).totals().1, (old(self).totals().2 + 1) as u64)
                &&& old(self).settings().track_event_history ==> appended(
                    old(self).events(),
                    final(self).events(),
                    |e: SettlerEvent| task_cancelled_event(e, old(self).tick(), task_id, reason@),
                )
                &&& !old(self).settings().track_event_history ==> final(self).events() == old(self).events()
            },
            final(self).next_settler_id() == old(self).next_settler_id(),
            final(self).next_task_id() == old(self).next_task_id(),
            old(self).def_map() == final(self).def_map(),
            old(self).settings() == final(self).settings(),
            old(self).tick() == final(self).tick(),
    {
        let ghost s0 = self.settlers@;
        let ghost t0 = self.tasks@;
        let t = match self.tasks.remove(task_id) {
            Some(t) => t,
            None => {
                proof {
                    assert(self.tasks@ =~= t0);
                }
                return;
            },
        };
        let assigned = set_elements(&t.assigned_workers);
        let mut t = t;
        t.cancel(self.current_tick);
        self.tasks.register(t);
        proof {
            assert(self.tasks@ =~= t0.insert(task_id.0, t));
            assert(clear_settlers(s0, assigned@.subrange(0, 0).to_set()) =~= s0);
        }
        let mut i: usize = 0;
        while i < assigned.len()
            invariant
                i <= assigned@.len(),
                strictly_increasing(assigned@),
                self.settlers@ == clear_settlers(s0, assigned@.subrange(0, i as int).to_set()),
                self.settlers.next_id() == old(self).settlers.next_id(),
                self.reservations == old(self).reservations,
                self.reservations.wf(),
                self.total_tasks_failed == old(self).total_tasks_failed,
                self.total_tasks_failed < u64::MAX,
                self.tasks@ == t0.insert(task_id.0, t),
                self.tasks.next_id() == old(self).tasks.next_id(),
                self.event_history == old(self).event_history,
                self.config == old(self).config,
                self.current_tick == old(self).current_tick,
                self.task_defs == old(self).task_defs,
                self.total_work_done == old(self).total_work_done,
                self.total_tasks_completed == old(self).total_tasks_completed,
            decreases assigned@.len() - i,
        {
            let x = assigned[i];
            let ghost prev = self.settlers@;
            proof {
                lemma_clear_step(s0, assigned@, i as int, prev);
            }
            match self.settlers.remove(SettlerId(x)) {
                Some(s) => {
                    let mut s = s;
                    s.clear_task();
                    self.settlers.register(s);
                    proof {
                        assert(self.settlers@ =~= prev.insert(x, s));
                    }
                },
                None => {
                    proof {
                        assert(self.settlers@ =~= prev);
                    }
                },
            }
            i = i + 1;
        }
        proof {
            assert(assigned@.subrange(0, assigned@.len() as int) =~= assigned@);
        }
        self.reservations.release_all_for_task(task_id);
        if self.config.track_event_history {
            let e = SettlerEvent::task_cancelled(self.current_tick, task_id, reason);
            let ghost before = self.event_history@;
            self.event_history.push(e);
            proof {
                assert(self.event_history@.drop_last() =~= before);
            }
        }
        self.total_tasks_failed = self.total_tasks_failed + 1;
    }

    /// Incapacitates the settler: it loses its task and every reservation; the
    /// task it held loses it as a worker and, left without workers, returns to
    /// pending; recorded when tracking events. Nothing happens to an unknown settler.
    pub fn incapacitate_settler(&mut self, settler_id: SettlerId)
        requires
            old(self).wf(),
        ensures
            final(self).wf(),
            !old(self).settler_map().contains_key(settler_id.0) ==> unchanged(*old(self), *final(self)),
            old(self).settler_map().contains_key(settler_id.0) ==> {
                let s = old(self).settler_map()[settler_id.0];
                &&& final(self).settler_map() == old(self).settler_map().insert(
                    settler_id.0,
                    final(self).settler_map()[settler_id.0],
                )
                &&& final(self).settler_map()[settler_id.0] == (Settler {
                    status: SettlerStatus::Incapacitated,
                    current_task: None,
                    reserved_tasks: final(self).settler_map()[settler_id.0].reserved_tasks,
                    ..s
                })
                &&& final(self).settler_map()[settler_id.0].reserved_tasks@ == Set::<u64>::empty()
                &&& final(self).reserved() == old(self).reserved().filter(|p: (u64, u64)| p.1 != settler_id.0)
                &&& match s.current_task {
                    Some(tid) => if old(self).task_map().contains_key(tid.0) {
                        &&& final(self).task_map() == old(self).task_map().insert(tid.0, final(self).task_map()[tid.0])
                        &&& after_leaving(old(self).task_map()[tid.0], settler_id.0, final(self).task_map()[tid.0])
                    } else {
                        final(self).task_map() == old(self).task_map()
                    },
                    None => final(self).task_map() == old(self).task_map(),
                }
                &&& final(self).events() == logged(
                    old(self).events(),
                    old(self).settings().track_event_history,
                    SettlerEvent {
                        tick: old(self).tick(),
                        kind: SettlerEventKind::SettlerIncapacitated { settler: settler_id, dropped_task: s.current_task },
                    },
                )
            },
            final(self).next_settler_id() == old(self).next_settler_id(),
            final(self).next_task_id() == old(self).next_task_id(),
            old(self).def_map() == final(self).def_map(),
            same_clock(*old(self), *final(self)),
    {
        let ghost s0 = self.settlers@;
        let ghost t0 = self.tasks@;
        let dropped = match self.settlers.remove(settler_id) {
            Some(s) => {
                let mut s = s;
                let task = s.current_task;
                s.incapacitate();
                self.settlers.register(s);
                proof {
                    assert(self.settlers@ =~= s0.insert(settler_id.0, s));
                }
                self.reservations.release_all_for_settler(settler_id);
                task
            },
            None => {
                proof {
                    assert(self.settlers@ =~= s0);
                }
                return;
            },
        };
        match dropped {
            Some(tid) => {
                match self.tasks.remove(tid) {
                    Some(t) => {
                        let mut t = t;
                        t.unassign_worker(settler_id);
                        if t.assigned_workers.is_empty() {
                            t.release();
                        }
                        self.tasks.register(t);
                        proof {
                            assert(self.tasks@ =~= t0.insert(tid.0, t));
                        }
                    },
                    None => {
                        proof {
                            assert(self.tasks@ =~= t0);
                        }
                    },
                }
            },
            None => {},
        }
        if self.config.track_event_history {
            self.event_history.push(SettlerEvent::settler_incapacitated(self.current_tick, settler_id, dropped));
        }
    }

    /// Advances to the next tick and drops completed tasks from every task's
    /// blockers; a task thereby unblocked is announced in the tick's events
    /// when tracking events.
    pub fn advance_tick(&mut self) -> (result: SettlerTickResult)
        requires
            old(self).wf(),
            old(self).tick() < u64::MAX,
        ensures
            final(self).wf(),
            final(self).tick() == old(self).tick() + 1,
            final(self).task_map().dom() == old(self).task_map().dom(),
            forall|k: u64| #[trigger] old(self).task_map().contains_key(k) ==> unblocked(
                old(self).task_map()[k],
                final(self).task_map()[k],
                completed_ids(old(self).task_map()),
            ),
            result.events@ == if old(self).settings().track_event_history {
                old(self).task_entries().filter(becomes_unblocked(completed_ids(old(self).task_map()))).map_values(
                    unblock_event(final(self).tick()),
                )
            } else {
                Seq::<SettlerEvent>::empty()
            },
            result.assignments_made == 0 && result.tasks_completed == 0 && result.tasks_failed == 0,
            result.tasks_cancelled == 0 && result.work_performed == 0,
            final(self).next_task_id() == old(self).next_task_id(),
            same_settlers(*old(self), *final(self)),
            old(self).def_map() == final(self).def_map(),
            old(self).reserved() == final(self).reserved(),
            old(self).events() == final(self).events(),
            old(self).settings() == final(self).settings(),
            old(self).totals() == final(self).totals(),
    {
        self.current_tick = self.current_tick + 1;
        let mut result = SettlerTickResult::new();
        self.resolve_blockers(&mut result);
        result
    }

    fn resolve_blockers(&mut self, result: &mut SettlerTickResult)
        requires
            old(self).wf(),
        ensures
            final(self).wf(),
            final(self).task_map().dom() == old(self).task_map().dom(),
            forall|k: u64| #[trigger] old(self).task_map().contains_key(k) ==> unblocked(
                old(self).task_map()[k],
                final(self).task_map()[k],
                completed_ids(old(self).task_map()),
            ),
            final(result).events@ == old(result).events@ + if old(self).settings().track_event_history {
                old(self).task_entries().filter(becomes_unblocked(completed_ids(old(self).task_map()))).map_values(
                    unblock_event(old(self).tick()),
                )
            } else {
                Seq::<SettlerEvent>::empty()
            },
            final(result).assignments_made == old(result).assignments_made,
            final(result).tasks_completed == old(result).tasks_completed,
            final(result).tasks_failed == old(result).tasks_failed,
            final(result).tasks_cancelled == old(result).tasks_cancelled,
            final(result).work_performed == old(result).work_performed,
            final(self).next_task_id() == old(self).next_task_id(),
            same_settlers(*old(self), *final(self)),
            old(self).def_map() == final(self).def_map(),
            old(self).reserved() == final(self).reserved(),
            old(self).events() == final(self).events(),
            same_clock(*old(self), *final(self)),
    {
        let ghost m0 = self.tasks@;
        let ghost ev0 = result.events@;
        let tracking = self.config.track_event_history;
        let tick = self.current_tick;
        let mut done: BTreeSet<u64> = BTreeSet::new();
        let mut ids: Vec<u64> = Vec::new();
        {
            let entries = self.tasks.iter();
            let ghost es = entries@;
            let mut i: usize = 0;
            while i < entries.len()
                invariant
                    i <= es.len(),
                    es == entries@,
                    sorted_by_id(es),
                    ids@.len() == i,
                    forall|j: int| 0 <= j < i ==> #[trigger] ids@[j] == es[j].id.0,
                    done@ == completed_ids(id_map(es.subrange(0, i as int))),
                decreases es.len() - i,
            {
                let t = &entries[i];
                proof {
                    let sub = es.subrange(0, i as int);
                    assert forall|a: int, b: int| 0 <= a < b < sub.len() implies #[trigger] sub[a].id.0 < #[trigger] sub[b].id.0 by {
                        assert(es[a].ident() < es[b].ident());
                    }
                    assert forall|j: int| 0 <= j < sub.len() implies #[trigger] sub[j].id.0 < t.id.0 by {
                        assert(es[j].ident() < es[i as int].ident());
                    }
                    lemma_completed_push(sub, *t);
                    assert(es.subrange(0, i + 1) =~= sub.push(*t));
                }
                if t.status == TaskStatus::Completed {
                    done.insert(t.id.0);
                }
                ids.push(t.id.0);
                i = i + 1;
            }
            proof {
                assert(es.subrange(0, es.len() as int) =~= es);
            }
        }
        let ghost es = self.tasks.entries();
        let ghost pred = becomes_unblocked(done@);
        let ghost f = unblock_event(tick);
        proof {
            assert(done@ == completed_ids(m0));
        }
        let mut i: usize = 0;
        while i < ids.len()
            invariant
                i <= ids@.len(),
                ids@.len() == es.len(),
                sorted_by_id(es),
                m0 == id_map(es),
                forall|j: int| 0 <= j < es.len() ==> #[trigger] ids@[j] == es[j].id.0,
                pred == becomes_unblocked(done@),
                f == unblock_event(tick),
                self.tasks@.dom() == m0.dom(),
                forall|k: u64| #[trigger] m0.contains_key(k) ==> if ids@.subrange(0, i as int).contains(k) {
                    unblocked(m0[k], self.tasks@[k], done@)
                } else {
                    self.tasks@[k] == m0[k]
                },
                self.tasks.next_id() == old(self).tasks.next_id(),
                result.events@ == ev0 + if tracking {
                    es.subrange(0, i as int).filter(pred).map_values(f)
                } else {
                    Seq::<SettlerEvent>::empty()
                },
                result.assignments_made == old(result).assignments_made,
                result.tasks_completed == old(result).tasks_completed,
                result.tasks_failed == old(result).tasks_failed,
                result.tasks_cancelled == old(result).tasks_cancelled,
                result.work_performed == old(result).work_performed,
                tracking == old(self).config.track_event_history,
                tick == old(self).current_tick,
                self.settlers == old(self).settlers,
                self.reservations == old(self).reservations,
                self.event_history == old(self).event_history,
                self.config == old(self).config,
                self.current_tick == old(self).current_tick,
                self.task_defs == old(self).task_defs,
                self.total_work_done == old(self).total_work_done,
                self.total_tasks_completed == old(self).total_tasks_completed,
                self.total_tasks_failed == old(self).total_tasks_failed,
            decreases ids@.len() - i,
        {
            let id = ids[i];
            let ghost cur = self.tasks@;
            let ghost e = es[i as int];
            proof {
                lemma_id_map_at(es, i as int);
                assert(!ids@.subrange(0, i as int).contains(id)) by {
                    if ids@.subrange(0, i as int).contains(id) {
                        let j = choose|j: int| 0 <= j < i && #[trigger] ids@.subrange(0, i as int)[j] == id;
                        assert(es[j].ident() < es[i as int].ident());
                    }
                }
                assert(cur[id] == e);
                reveal_with_fuel(Seq::<_>::filter, 1);
                assert(es.subrange(0, i + 1).drop_last() =~= es.subrange(0, i as int));
                assert(es.subrange(0, i + 1).last() == e);
            }
            let ghost prev_events = result.events@;
            match self.tasks.remove(TaskId(id)) {
                Some(t) => {
                    let mut t = t;
                    if t.is_blocked() {
                        let remaining = set_without(&t.blocked_by, &done);
                        let now_free = remaining.is_empty();
                        t.blocked_by = remaining;
                        if now_free && tracking {
                            result.events.push(SettlerEvent::new(tick, SettlerEventKind::TaskUnblocked { task: t.id }));
                        }
                    } else {
                        proof {
                            assert(t.blocked_by@.filter(|b: u64| !done@.contains(b)) =~= t.blocked_by@);
                        }
                    }
                    self.tasks.register(t);
                    proof {
                        assert(self.tasks@ =~= cur.insert(id, t));
                        assert(unblocked(e, t, done@));
                    }
                },
                None => {},
            }
            proof {
                if tracking {
                    let sub = es.subrange(0, i as int).filter(pred).map_values(f);
                    if pred(e) {
                        assert(es.subrange(0, i + 1).filter(pred) =~= es.subrange(0, i as int).filter(pred).push(e));
                        assert(es.subrange(0, i + 1).filter(pred).map_values(f) =~= sub.push(f(e)));
                        assert(result.events@ =~= ev0 + sub.push(f(e)));
                    } else {
                        assert(es.subrange(0, i + 1).filter(pred) =~= es.subrange(0, i as int).filter(pred));
                        assert(result.events@ =~= prev_events);
                    }
                } else {
                    assert(result.events@ =~= prev_events);
                }
                assert(ids@.subrange(0, i + 1) =~= ids@.subrange(0, i as int).push(id));
                assert forall|k: u64| #[trigger] m0.contains_key(k) implies (if ids@.subrange(0, i + 1).contains(k) {
                    unblocked(m0[k], self.tasks@[k], done@)
                } else {
                    self.tasks@[k] == m0[k]
                }) by {
                    if k != id {
                        assert(ids@.subrange(0, i + 1).contains(k) == ids@.subrange(0, i as int).contains(k));
                    } else {
                        assert(ids@.subrange(0, i + 1)[i as int] == id);
                    }
                }
            }
            i = i + 1;
        }
        proof {
            assert(es.subrange(0, es.len() as int) =~= es);
            assert forall|k: u64| #[trigger] m0.contains_key(k) implies ids@.subrange(0, ids@.len() as int).contains(k) by {
                let j = choose|j: int| 0 <= j < es.len() && #[trigger] es[j].id.0 == k;
                assert(ids@.subrange(0, ids@.len() as int)[j] == k);
            }
        }
    }

    /// Whether the task and the settler can be paired now: the task is
    /// pending, unblocked and below its worker limit, the settler is idle
    /// without a task, and the settler is qualified for the task.
    pub fn can_pair(&self, task: TaskId, settler: SettlerId) -> (b: bool)
        ensures
            b == eligible(*self, (task, settler)),
    {
        match (self.tasks.get(task), self.settlers.get(settler)) {
            (Some(t), Some(s)) => {
                let def = self.task_defs.get(&t.def_id);
                let max = match def {
                    Some(d) => d.max_workers as usize,
                    None => 1,
                };
                let qualified = match def {
                    Some(d) => !self.config.require_capability_match || (s.can_perform(
                        d.required_capabilities.as_slice(),
                    ) && !s.work_priorities.is_forbidden(d.category)),
                    None => true,
                };
                t.status == TaskStatus::Pending && !t.is_blocked() && t.worker_count() < max && s.is_available()
                    && qualified
            },
            _ => false,
        }
    }

    /// Makes the pairings of a round, taking the candidates in the order given
    /// (best first): a candidate is accepted when it is eligible at the start
    /// of the round and no earlier accepted candidate took its task or its
    /// settler. For each accepted one the task is claimed, the settler takes it
    /// up, their reservation goes, the claim is announced when tracking events,
    /// and the count of assignments grows.
    pub fn apply_assignments(&mut self, candidates: &[(TaskId, SettlerId)], result: &mut SettlerTickResult)
        requires
            old(self).wf(),
            old(result).assignments_made + count_accepted(accepted(*old(self), candidates@)) <= u32::MAX,
        ensures
            final(self).wf(),
            ({
                let acc = accepted(*old(self), candidates@);
                &&& acc.len() == candidates@.len()
                &&& forall|j: int| 0 <= j < acc.len() && #[trigger] acc[j] ==> {
                    let c = candidates@[j];
                    &&& claimed_by(old(self).task_map()[c.0.0], final(self).task_map()[c.0.0], c.1, old(self).tick())
                    &&& final(self).settler_map()[c.1.0] == (Settler {
                        current_task: Some(c.0),
                        status: SettlerStatus::Working,
                        ..old(self).settler_map()[c.1.0]
                    })
                }
                &&& final(self).task_map().dom() == old(self).task_map().dom()
                &&& forall|k: u64| #[trigger] old(self).task_map().contains_key(k) && !accepted_task(candidates@, acc, k)
                    ==> final(self).task_map()[k] == old(self).task_map()[k]
                &&& final(self).settler_map().dom() == old(self).settler_map().dom()
                &&& forall|k: u64| #[trigger] old(self).settler_map().contains_key(k) && !accepted_settler(candidates@, acc, k)
                    ==> final(self).settler_map()[k] == old(self).settler_map()[k]
                &&& final(self).reserved() == old(self).reserved().filter(|p: (u64, u64)| !accepted_pair(candidates@, acc, p))
                &&& final(result).events@ == old(result).events@ + if old(self).settings().track_event_history {
                    claim_events(candidates@, acc, old(self).tick())
                } else {
                    Seq::<SettlerEvent>::empty()
                }
                &&& final(result).assignments_made == old(result).assignments_made + count_accepted(acc)
            }),
            final(result).tasks_completed == old(result).tasks_completed,
            final(result).tasks_failed == old(result).tasks_failed,
            final(result).tasks_cancelled == old(result).tasks_cancelled,
            final(result).work_performed == old(result).work_performed,
            final(self).next_task_id() == old(self).next_task_id(),
            final(self).next_settler_id() == old(self).next_settler_id(),
            old(self).def_map() == final(self).def_map(),
            old(self).events() == final(self).events(),
            same_clock(*old(self), *final(self)),
    {
        let ghost m0 = *self;
        let ghost cs = candidates@;
        let ghost mut acc: Seq<bool> = Seq::empty();
        let ghost ev0 = result.events@;
        let ghost r0 = self.reservations.reserved();
        let tracking = self.config.track_event_history;
        let tick = self.current_tick;
        let mut assigned_tasks: BTreeSet<u64> = BTreeSet::new();
        let mut assigned_settlers: BTreeSet<u64> = BTreeSet::new();
        let mut i: usize = 0;
        while i < candidates.len()
            invariant
                i <= cs.len(),
                cs == candidates@,
                acc == accepted(m0, cs.subrange(0, i as int)),
                acc.len() == i,
                self.wf(),
                m0.wf(),
                forall|k: u64| assigned_tasks@.contains(k) == accepted_task(cs, acc, k),
                forall|k: u64| assigned_settlers@.contains(k) == accepted_settler(cs, acc, k),
                forall|j: int| 0 <= j < i && #[trigger] acc[j] ==> {
                    let c = cs[j];
                    &&& claimed_by(m0.task_map()[c.0.0], self.task_map()[c.0.0], c.1, tick)
                    &&& self.settler_map()[c.1.0] == (Settler {
                        current_task: Some(c.0),
                        status: SettlerStatus::Working,
                        ..m0.settler_map()[c.1.0]
                    })
                },
                self.task_map().dom() == m0.task_map().dom(),
                forall|k: u64| #[trigger] m0.task_map().contains_key(k) && !accepted_task(cs, acc, k) ==> self.task_map()[k] == m0.task_map()[k],
                self.settler_map().dom() == m0.settler_map().dom(),
                forall|k: u64| #[trigger] m0.settler_map().contains_key(k) && !accepted_settler(cs, acc, k) ==> self.settler_map()[k] == m0.settler_map()[k],
                self.reservations.reserved() == r0.filter(|p: (u64, u64)| !accepted_pair(cs, acc, p)),
                r0 == m0.reserved(),
                result.events@ == ev0 + if tracking { claim_events(cs.subrange(0, i as int), acc, tick) } else { Seq::<SettlerEvent>::empty() },
                result.assignments_made == old(result).assignments_made + count_accepted(acc),
                old(result).assignments_made + count_accepted(accepted(m0, cs)) <= u32::MAX,
                result.tasks_completed == old(result).tasks_completed,
                result.tasks_failed == old(result).tasks_failed,
                result.tasks_cancelled == old(result).tasks_cancelled,
                result.work_performed == old(result).work_performed,
                tracking == m0.settings().track_event_history,
                tick == m0.tick(),
                self.tasks.next_id() == old(self).tasks.next_id(),
                self.settlers.next_id() == old(self).settlers.next_id(),
                self.event_history == old(self).event_history,
                self.config == old(self).config,
                self.current_tick == old(self).current_tick,
                self.task_defs == old(self).task_defs,
                self.total_work_done == old(self).total_work_done,
                self.total_tasks_completed == old(self).total_tasks_completed,
                self.total_tasks_failed == old(self).total_tasks_failed,
                m0 == *old(self),
            decreases cs.len() - i,
        {
            let (tid, sid) = candidates[i];
            let ghost c = (tid, sid);
            proof {
                assert(cs.subrange(0, i + 1).drop_last() =~= cs.subrange(0, i as int));
                assert(cs.subrange(0, i + 1).last() == c);
            }
            let is_taken = assigned_tasks.contains(&tid.0) || assigned_settlers.contains(&sid.0);
            proof {
                assert(is_taken == taken(cs.subrange(0, i as int), acc, c)) by {
                    if is_taken {
                        if assigned_tasks@.contains(tid.0) {
                            let j = choose|j: int| 0 <= j < acc.len() && #[trigger] acc[j] && cs[j].0.0 == tid.0;
                            assert(cs.subrange(0, i as int)[j] == cs[j]);
                        } else {
                            let j = choose|j: int| 0 <= j < acc.len() && #[trigger] acc[j] && cs[j].1.0 == sid.0;
                            assert(cs.subrange(0, i as int)[j] == cs[j]);
                        }
                    }
                    if taken(cs.subrange(0, i as int), acc, c) {
                        let j = choose|j: int| 0 <= j < acc.len() && #[trigger] acc[j] && (cs.subrange(0, i as int)[j].0 == c.0 || cs.subrange(0, i as int)[j].1 == c.1);
                        assert(cs.subrange(0, i as int)[j] == cs[j]);
                        if cs[j].0 == c.0 {
                            assert(accepted_task(cs, acc, tid.0));
                        } else {
                            assert(accepted_settler(cs, acc, sid.0));
                        }
                    }
                }
            }
            let mut ok = false;
            if !is_taken {
                proof {
                    if m0.task_map().contains_key(tid.0) {
                        assert(self.task_map()[tid.0] == m0.task_map()[tid.0]);
                    }
                    if m0.settler_map().contains_key(sid.0) {
                        assert(self.settler_map()[sid.0] == m0.settler_map()[sid.0]);
                    }
                }
                ok = self.can_pair(tid, sid);
                proof {
                    assert(eligible(*self, c) == eligible(m0, c));
                }
            }
            proof {
                assert(ok == (eligible(m0, c) && !taken(cs.subrange(0, i as int), acc, c)));
            }
            let ghost cur_t = self.tasks@;
            let ghost cur_s = self.settlers@;
            let ghost prev_events = result.events@;
            let ghost prev_acc = acc;
            if ok {
                match self.tasks.remove(tid) {
                    Some(t) => {
                        let mut t = t;
                        t.claim(sid, tick);
                        self.tasks.register(t);
                        proof {
                            assert(self.tasks@ =~= cur_t.insert(tid.0, t));
                        }
                    },
                    None => {},
                }
                match self.settlers.remove(sid) {
                    Some(s) => {
                        let mut s = s;
                        s.assign_task(tid);
                        self.settlers.register(s);
                        proof {
                            assert(self.settlers@ =~= cur_s.insert(sid.0, s));
                        }
                    },
                    None => {},
                }
                self.reservations.release(tid, sid);
                assigned_tasks.insert(tid.0);
                assigned_settlers.insert(sid.0);
                if tracking {
                    result.events.push(SettlerEvent::task_claimed(tick, tid, sid));
                }
                proof {
                    let full = accepted(m0, cs);
                    lemma_accepted_prefix(m0, cs);
                    assert(accepted(m0, cs.subrange(0, i + 1)) == full.subrange(0, i + 1));
                    assert(accepted(m0, cs.subrange(0, i + 1)) == acc.push(true));
                    assert(acc.push(true).drop_last() =~= acc);
                    lemma_count_prefix(full, i + 1);
                }
                result.assignments_made = result.assignments_made + 1;
            }
            proof {
                acc = acc.push(ok);
                assert(acc == accepted(m0, cs.subrange(0, i + 1)));
                assert(acc.drop_last() =~= prev_acc);
                assert forall|j: int| 0 <= j < i ==> acc[j] == prev_acc[j] by {}
                assert forall|k: u64| assigned_tasks@.contains(k) == accepted_task(cs, acc, k) by {
                    if accepted_task(cs, prev_acc, k) {
                        let j = choose|j: int| 0 <= j < prev_acc.len() && #[trigger] prev_acc[j] && cs[j].0.0 == k;
                        assert(acc[j]);
                    }
                    if accepted_task(cs, acc, k) {
                        let j = choose|j: int| 0 <= j < acc.len() && #[trigger] acc[j] && cs[j].0.0 == k;
                        if j < i {
                            assert(prev_acc[j]);
                        }
                    }
                    if ok && k == tid.0 {
                        assert(acc[i as int]);
                    }
                }
                assert forall|k: u64| assigned_settlers@.contains(k) == accepted_settler(cs, acc, k) by {
                    if accepted_settler(cs, prev_acc, k) {
                        let j = choose|j: int| 0 <= j < prev_acc.len() && #[trigger] prev_acc[j] && cs[j].1.0 == k;
                        assert(acc[j]);
                    }
                    if accepted_settler(cs, acc, k) {
                        let j = choose|j: int| 0 <= j < acc.len() && #[trigger] acc[j] && cs[j].1.0 == k;
                        if j < i {
                            assert(prev_acc[j]);
                        }
                    }
                    if ok && k == sid.0 {
                        assert(acc[i as int]);
                    }
                }
                assert forall|p: (u64, u64)| accepted_pair(cs, acc, p) == (accepted_pair(cs, prev_acc, p) || (ok && p == (tid.0, sid.0))) by {
                    if accepted_pair(cs, prev_acc, p) {
                        let j = choose|j: int| 0 <= j < prev_acc.len() && #[trigger] prev_acc[j] && cs[j].0.0 == p.0 && cs[j].1.0 == p.1;
                        assert(acc[j]);
                    }
                    if accepted_pair(cs, acc, p) {
                        let j = choose|j: int| 0 <= j < acc.len() && #[trigger] acc[j] && cs[j].0.0 == p.0 && cs[j].1.0 == p.1;
                        if j < i {
                            assert(prev_acc[j]);
                        }
                    }
                    if ok && p == (tid.0, sid.0) {
                        assert(acc[i as int]);
                    }
                }
                assert(self.reservations.reserved() =~= r0.filter(|p: (u64, u64)| !accepted_pair(cs, acc, p)));
                assert(count_accepted(acc) == count_accepted(prev_acc) + if ok { 1nat } else { 0nat });
                assert(claim_events(cs.subrange(0, i + 1), acc, tick) == if ok {
                    claim_events(cs.subrange(0, i as int), prev_acc, tick).push(SettlerEvent { tick, kind: SettlerEventKind::TaskClaimed { task: tid, settler: sid } })
                } else {
                    claim_events(cs.subrange(0, i as int), prev_acc, tick)
                });
                if tracking {
                    assert(result.events@ =~= ev0 + claim_events(cs.subrange(0, i + 1), acc, tick));
                }
                assert forall|j: int| 0 <= j < i + 1 && #[trigger] acc[j] implies {
                    let c2 = cs[j];
                    &&& claimed_by(m0.task_map()[c2.0.0], self.task_map()[c2.0.0], c2.1, tick)
                    &&& self.settler_map()[c2.1.0] == (Settler {
                        current_task: Some(c2.0),
                        status: SettlerStatus::Working,
                        ..m0.settler_map()[c2.1.0]
                    })
                } by {
                    if j < i {
                        assert(prev_acc[j]);
                        if ok {
                            assert(cs[j].0 != tid);
                            assert(cs[j].1 != sid);
                        }
                    }
                }
                assert forall|k: u64| #[trigger] m0.task_map().contains_key(k) && !accepted_task(cs, acc, k) implies self.task_map()[k] == m0.task_map()[k] by {
                    assert(!accepted_task(cs, prev_acc, k)) by {
                        if accepted_task(cs, prev_acc, k) {
                            let j = choose|j: int| 0 <= j < prev_acc.len() && #[trigger] prev_acc[j] && cs[j].0.0 == k;
                            assert(acc[j]);
                        }
                    }
                    if ok {
                        assert(k != tid.0) by {
                            if k == tid.0 {
                                assert(acc[i as int]);
                            }
                        }
                    }
                }
                assert forall|k: u64| #[trigger] m0.settler_map().contains_key(k) && !accepted_settler(cs, acc, k) implies self.settler_map()[k] == m0.settler_map()[k] by {
                    assert(!accepted_settler(cs, prev_acc, k)) by {
                        if accepted_settler(cs, prev_acc, k) {
                            let j = choose|j: int| 0 <= j < prev_acc.len() && #[trigger] prev_acc[j] && cs[j].1.0 == k;
                            assert(acc[j]);
                        }
                    }
                    if ok {
                        assert(k != sid.0) by {
                            if k == sid.0 {
                                assert(acc[i as int]);
                            }
                        }
                    }
                }
            }
            i = i + 1;
        }
        proof {
            assert(cs.subrange(0, cs.len() as int) =~= cs);
        }
    }

    /// The settlers with a current task, paired with it, in order of settler number.
    pub fn working_pairs(&self) -> (r: Vec<(SettlerId, TaskId)>)
        ensures
            r@ == self.settler_entries().filter(has_task()).map_values(work_pair()),
    {
        let entries = self.settlers.iter();
        let ghost es = entries@;
        let ghost pred = has_task();
        let ghost f = work_pair();
        let mut r: Vec<(SettlerId, TaskId)> = Vec::new();
        let mut i: usize = 0;
        while i < entries.len()
            invariant
                i <= es.len(),
                es == entries@,
                es == self.settler_entries(),
                pred == has_task(),
                f == work_pair(),
                r@ == es.subrange(0, i as int).filter(pred).map_values(f),
            decreases es.len() - i,
        {
            let s = &entries[i];
            proof {
                reveal_with_fuel(Seq::<_>::filter, 1);
                assert(es.subrange(0, i + 1).drop_last() =~= es.subrange(0, i as int));
                assert(es.subrange(0, i + 1).last() == *s);
            }
            let ghost prev = r@;
            match s.current_task {
                Some(t) => {
                    r.push((s.id, t));
                    proof {
                        assert(es.subrange(0, i + 1).filter(pred) =~= es.subrange(0, i as int).filter(pred).push(*s));
                        assert(r@ =~= es.subrange(0, i + 1).filter(pred).map_values(f));
                    }
                },
                None => {
                    proof {
                        assert(es.subrange(0, i + 1).filter(pred) =~= es.subrange(0, i as int).filter(pred));
                    }
                },
            }
            i = i + 1;
        }
        proof {
            assert(es.subrange(0, es.len() as int) =~= es);
        }
        r
    }

    /// Books `work_amount` of work by the settler on the task: a claimed task
    /// starts; the work is added to the task, the settler and the totals; a task
    /// whose required work is reached completes, and its settler drops it; the
    /// start, progress and completion are announced when tracking events.
    /// Nothing happens, and none is returned, when the task, its definition or
    /// the settler is unknown; otherwise whether the task completed.
    pub fn apply_work(&mut self, settler_id: SettlerId, task_id: TaskId, work_amount: u32, result: &mut SettlerTickResult) -> (r:
        Option<bool>)
        requires
            old(self).wf(),
            old(self).totals().0 + work_amount <= u64::MAX,
            old(self).totals().1 < u64::MAX,
            old(result).work_performed + work_amount <= u32::MAX,
            old(result).tasks_completed < u32::MAX,
            old(self).settler_map().contains_key(settler_id.0) ==> old(self).settler_map()[settler_id.0].total_work_done
                + work_amount <= u64::MAX,
            old(self).settler_map().contains_key(settler_id.0) ==> old(self).settler_map()[settler_id.0].tasks_completed
                < u32::MAX,
        ensures
            final(self).wf(),
            r is None <==> !(old(self).task_map().contains_key(task_id.0) && old(self).def_map().contains_key(
                old(self).task_map()[task_id.0].def_id.0@,
            ) && old(self).settler_map().contains_key(settler_id.0)),
            r is None ==> unchanged(*old(self), *final(self)) && *final(result) == *old(result),
            r matches Some(done) ==> {
                let t0 = old(self).task_map()[task_id.0];
                let s0 = old(self).settler_map()[settler_id.0];
                let tick = old(self).tick();
                let t1 = started(t0, tick);
                let s1 = Settler { total_work_done: (s0.total_work_done + work_amount) as u64, ..s0 };
                &&& done == finishes(t1, work_amount)
                &&& final(self).task_map() == old(self).task_map().insert(task_id.0, if done {
                    Task { status: TaskStatus::Completed, completed_tick: Some(tick), work_done: t1.work_required, ..t1 }
                } else {
                    Task { work_done: added_work(t1.work_done, work_amount), ..t1 }
                })
                &&& final(self).settler_map() == old(self).settler_map().insert(settler_id.0, if done {
                    cleared(Settler { tasks_completed: (s1.tasks_completed + 1) as u32, ..s1 })
                } else {
                    s1
                })
                &&& final(self).totals() == (
                    (old(self).totals().0 + work_amount) as u64,
                    (old(self).totals().1 + if done { 1u64 } else { 0u64 }) as u64,
                    old(self).totals().2,
                )
                &&& final(result).work_performed == old(result).work_performed + work_amount
                &&& final(result).tasks_completed == old(result).tasks_completed + if done { 1u32 } else { 0u32 }
                &&& final(result).events@ == old(result).events@ + if old(self).settings().track_event_history {
                    work_events(t0, settler_id, work_amount, tick)
                } else {
                    Seq::<SettlerEvent>::empty()
                }
                &&& final(result).assignments_made == old(result).assignments_made
                &&& final(result).tasks_failed == old(result).tasks_failed
                &&& final(result).tasks_cancelled == old(result).tasks_cancelled
            },
            final(self).next_task_id() == old(self).next_task_id(),
            final(self).next_settler_id() == old(self).next_settler_id(),
            old(self).def_map() == final(self).def_map(),
            old(self).reserved() == final(self).reserved(),
            old(self).events() == final(self).events(),
            old(self).settings() == final(self).settings(),
            old(self).tick() == final(self).tick(),
    {
        let known = match self.tasks.get(task_id) {
            Some(t) => self.task_defs.contains(&t.def_id) && self.settlers.contains(settler_id),
            None => false,
        };
        if !known {
            return None;
        }
        let tick = self.current_tick;
        let tracking = self.config.track_event_history;
        let ghost t_map = self.tasks@;
        let ghost s_map = self.settlers@;
        let ghost ev0 = result.events@;
        let mut task = match self.tasks.remove(task_id) {
            Some(t) => t,
            None => {
                return None;
            },
        };
        let ghost t0 = task;
        if task.status == TaskStatus::Claimed {
            task.start(tick);
            if tracking {
                result.events.push(SettlerEvent::task_started(tick, task_id, settler_id));
            }
        }
        let ghost t1 = task;
        let ghost ev1 = result.events@;
        let completed = task.add_work(work_amount);
        self.total_work_done = self.total_work_done + work_amount as u64;
        result.work_performed = result.work_performed + work_amount;
        let mut settler = match self.settlers.remove(settler_id) {
            Some(s) => s,
            None => {
                self.tasks.register(task);
                return None;
            },
        };
        settler.record_work(work_amount);
        if tracking {
            result.events.push(
                SettlerEvent::task_progress(tick, task_id, settler_id, task.work_done, task.work_required),
            );
        }
        let ghost ev2 = result.events@;
        if completed {
            let started_at = match task.started_tick {
                Some(s) => s,
                None => tick,
            };
            let duration = tick.saturating_sub(started_at);
            task.complete(tick);
            settler.record_completion();
            settler.clear_task();
            self.total_tasks_completed = self.total_tasks_completed + 1;
            result.tasks_completed = result.tasks_completed + 1;
            if tracking {
                result.events.push(SettlerEvent::task_completed(tick, task_id, settler_id, duration));
            }
        }
        self.tasks.register(task);
        self.settlers.register(settler);
        proof {
            assert(t0 == t_map[task_id.0]);
            assert(t1 == started(t0, tick));
            assert(self.tasks@ =~= t_map.insert(task_id.0, task));
            assert(self.settlers@ =~= s_map.insert(settler_id.0, settler));
            if tracking {
                assert(result.events@ =~= ev0 + work_events(t0, settler_id, work_amount, tick));
            } else {
                assert(result.events@ =~= ev0 + Seq::<SettlerEvent>::empty());
            }
        }
        Some(completed)
    }

    /// A 32-bit fingerprint of the manager's state: the low 32 bits of the
    /// standard default hasher fed `fingerprint_writes`.
    pub fn fingerprint(&self) -> (r: SettlerFingerprint)
        ensures
            r.0 == (DefaultHasher::spec_finish(fingerprint_writes(*self)) as u32),
    {
        let mut hasher = DefaultHasher::new();
        write_le(&mut hasher, self.current_tick, 8);
        write_le(&mut hasher, self.total_work_done, 8);
        write_le(&mut hasher, self.total_tasks_completed, 8);
        write_le(&mut hasher, self.total_tasks_failed, 8);
        let ghost head = hasher@;
        let settlers = self.settlers.iter();
        let ghost se = settlers@;
        let mut i: usize = 0;
        while i < settlers.len()
            invariant
                i <= se.len(),
                se == settlers@,
                hasher@ == head + settlers_writes(se.subrange(0, i as int)),
            decreases se.len() - i,
        {
            write_settler(&mut hasher, &settlers[i]);
            proof {
                assert(se.subrange(0, i + 1).drop_last() =~= se.subrange(0, i as int));
                assert(hasher@ =~= head + settlers_writes(se.subrange(0, i + 1)));
            }
            i = i + 1;
        }
        proof {
            assert(se.subrange(0, se.len() as int) =~= se);
        }
        let ghost mid = hasher@;
        let tasks = self.tasks.iter();
        let ghost te = tasks@;
        let mut j: usize = 0;
        while j < tasks.len()
            invariant
                j <= te.len(),
                te == tasks@,
                hasher@ == mid + tasks_writes(te.subrange(0, j as int)),
            decreases te.len() - j,
        {
            write_task(&mut hasher, &tasks[j]);
            proof {
                assert(te.subrange(0, j + 1).drop_last() =~= te.subrange(0, j as int));
                assert(hasher@ =~= mid + tasks_writes(te.subrange(0, j + 1)));
            }
            j = j + 1;
        }
        proof {
            assert(te.subrange(0, te.len() as int) =~= te);
            assert(hasher@ =~= fingerprint_writes(*self));
        }
        let h = hasher.finish();
        SettlerFingerprint(#[verifier::truncate] (h as u32))
    }

    /// Keeps only the most recent events, at most the configured number.
    pub fn trim_event_history(&mut self)
        requires
            old(self).wf(),
        ensures
            final(self).wf(),
            final(self).events() == if old(self).events().len() > old(self).settings().max_event_history {
                old(self).events().subrange(
                    old(self).events().len() - old(self).settings().max_event_history,
                    old(self).events().len() as int,
                )
            } else {
                old(self).events()
            },
            old(self).def_map() == final(self).def_map(),
            same_settlers(*old(self), *final(self)),
            same_tasks(*old(self), *final(self)),
            old(self).reserved() == final(self).reserved(),
            same_clock(*old(self), *final(self)),
    {
        if self.event_history.len() > self.config.max_event_history {
            let excess = self.event_history.len() - self.config.max_event_history;
            let tail = self.event_history.split_off(excess);
            self.event_history = tail;
        }
    }

    /// The counts of settlers and tasks by status, the total work, and the tasks
    /// of each category (tasks of an unknown definition are in none), at the
    /// current tick.
    pub fn snapshot(&self) -> (r: SettlerSnapshot)
        requires
            self.settler_map().len() <= u32::MAX,
            self.task_map().len() <= u32::MAX,
        ensures
            r.tick == self.tick(),
            r.total_settlers == self.settler_entries().len(),
            r.total_settlers == self.settler_map().len(),
            r.total_tasks == self.task_map().len(),
            r.idle_settlers == self.settler_entries().filter(settler_in_status(SettlerStatus::Idle)).len(),
            r.working_settlers == self.settler_entries().filter(settler_in_status(SettlerStatus::Working)).len(),
            r.incapacitated_settlers == self.settler_entries().filter(
                settler_in_status(SettlerStatus::Incapacitated),
            ).len(),
            r.total_tasks == self.task_entries().len(),
            r.pending_tasks == self.task_entries().filter(task_in_status(TaskStatus::Pending)).len(),
            r.in_progress_tasks == self.task_entries().filter(task_in_status(TaskStatus::InProgress)).len()
                + self.task_entries().filter(task_in_status(TaskStatus::Claimed)).len(),
            r.completed_tasks == self.task_entries().filter(task_in_status(TaskStatus::Completed)).len(),
            r.failed_tasks == self.task_entries().filter(task_in_status(TaskStatus::Failed)).len()
                + self.task_entries().filter(task_in_status(TaskStatus::Cancelled)).len(),
            r.total_work_done == self.totals().0,
            forall|j: int| 0 <= j < r.tasks_by_category@.len() ==> {
                let e = #[trigger] r.tasks_by_category@[j];
                &&& e.1 == self.task_entries().filter(task_in_category(self.def_map(), e.0)).len()
                &&& e.1 > 0
            },
            forall|i: int, j: int|
                0 <= i < j < r.tasks_by_category@.len() ==> (#[trigger] r.tasks_by_category@[i]).0.spec_index() < (
                #[trigger] r.tasks_by_category@[j]).0.spec_index(),
            forall|c: TaskCategory|
                #[trigger] self.task_entries().filter(task_in_category(self.def_map(), c)).len() > 0 ==> exists|j: int|
                    0 <= j < r.tasks_by_category@.len() && r.tasks_by_category@[j].0 == c,
    {
        let mut snap = SettlerSnapshot::new(self.current_tick);
        let n_settlers = self.settlers.count();
        let n_tasks = self.tasks.count();
        let ghost se = self.settlers.entries();
        let ghost te = self.tasks.entries();
        proof {
            se.lemma_filter_len(settler_in_status(SettlerStatus::Idle));
            se.lemma_filter_len(settler_in_status(SettlerStatus::Working));
            se.lemma_filter_len(settler_in_status(SettlerStatus::Incapacitated));
            te.lemma_filter_len(task_in_status(TaskStatus::Pending));
            te.lemma_filter_len(task_in_status(TaskStatus::InProgress));
            te.lemma_filter_len(task_in_status(TaskStatus::Claimed));
            te.lemma_filter_len(task_in_status(TaskStatus::Completed));
            te.lemma_filter_len(task_in_status(TaskStatus::Failed));
            te.lemma_filter_len(task_in_status(TaskStatus::Cancelled));
            assert(te.filter(task_in_status(TaskStatus::InProgress)).len() + te.filter(task_in_status(TaskStatus::Claimed)).len() <= te.len()) by {
                lemma_two_status_counts(te, TaskStatus::InProgress, TaskStatus::Claimed);
            }
            assert(te.filter(task_in_status(TaskStatus::Failed)).len() + te.filter(task_in_status(TaskStatus::Cancelled)).len() <= te.len()) by {
                lemma_two_status_counts(te, TaskStatus::Failed, TaskStatus::Cancelled);
            }
        }
        snap.total_settlers = n_settlers as u32;
        snap.idle_settlers = self.settlers.by_status(SettlerStatus::Idle).len() as u32;
        snap.working_settlers = self.settlers.by_status(SettlerStatus::Working).len() as u32;
        snap.incapacitated_settlers = self.settlers.by_status(SettlerStatus::Incapacitated).len() as u32;
        snap.total_tasks = n_tasks as u32;
        snap.pending_tasks = self.tasks.by_status(TaskStatus::Pending).len() as u32;
        snap.in_progress_tasks = self.tasks.by_status(TaskStatus::InProgress).len() as u32
            + self.tasks.by_status(TaskStatus::Claimed).len() as u32;
        snap.completed_tasks = self.tasks.by_status(TaskStatus::Completed).len() as u32;
        snap.failed_tasks = self.tasks.by_status(TaskStatus::Failed).len() as u32
            + self.tasks.by_status(TaskStatus::Cancelled).len() as u32;
        snap.total_work_done = self.total_work_done;
        let entries = self.tasks.iter();
        let mut counts: [u32; 8] = [0; 8];
        let ghost defs = self.task_defs@;
        let mut i: usize = 0;
        while i < entries.len()
            invariant
                i <= te.len(),
                te == entries@,
                te.len() <= u32::MAX,
                defs == self.task_defs@,
                forall|c: TaskCategory| #[trigger] counts@[c.spec_index()] == te.subrange(0, i as int).filter(
                    task_in_category(defs, c),
                ).len(),
                snap.tick == self.current_tick,
                snap.total_settlers == se.len(),
                se.len() == self.settler_map().len(),
                te.len() == self.task_map().len(),
                snap.idle_settlers == se.filter(settler_in_status(SettlerStatus::Idle)).len(),
                snap.working_settlers == se.filter(settler_in_status(SettlerStatus::Working)).len(),
                snap.incapacitated_settlers == se.filter(settler_in_status(SettlerStatus::Incapacitated)).len(),
                snap.total_tasks == te.len(),
                snap.pending_tasks == te.filter(task_in_status(TaskStatus::Pending)).len(),
                snap.in_progress_tasks == te.filter(task_in_status(TaskStatus::InProgress)).len() + te.filter(
                    task_in_status(TaskStatus::Claimed),
                ).len(),
                snap.completed_tasks == te.filter(task_in_status(TaskStatus::Completed)).len(),
                snap.failed_tasks == te.filter(task_in_status(TaskStatus::Failed)).len() + te.filter(
                    task_in_status(TaskStatus::Cancelled),
                ).len(),
                snap.total_work_done == self.total_work_done,
            decreases te.len() - i,
        {
            let t = &entries[i];
            proof {
                reveal_with_fuel(Seq::<_>::filter, 1);
                assert(te.subrange(0, i + 1).drop_last() =~= te.subrange(0, i as int));
                assert(te.subrange(0, i + 1).last() == *t);
                assert forall|c: TaskCategory| #[trigger] te.subrange(0, i as int).filter(task_in_category(defs, c)).len() <= i by {
                    te.subrange(0, i as int).lemma_filter_len(task_in_category(defs, c));
                }
            }
            let ghost prev = counts@;
            match self.task_defs.get(&t.def_id) {
                Some(def) => {
                    let k = def.category.index();
                    proof {
                        assert(prev[k as int] == te.subrange(0, i as int).filter(task_in_category(defs, def.category)).len());
                    }
                    counts[k] = counts[k] + 1;
                    proof {
                        assert forall|c: TaskCategory| #[trigger] counts@[c.spec_index()] == te.subrange(0, i + 1).filter(
                            task_in_category(defs, c),
                        ).len() by {
                            if c == def.category {
                                assert(te.subrange(0, i + 1).filter(task_in_category(defs, c)) =~= te.subrange(0, i as int).filter(task_in_category(defs, c)).push(*t));
                            } else {
                                assert(c.spec_index() != def.category.spec_index());
                                assert(te.subrange(0, i + 1).filter(task_in_category(defs, c)) =~= te.subrange(0, i as int).filter(task_in_category(defs, c)));
                            }
                        }
                    }
                },
                None => {
                    proof {
                        assert forall|c: TaskCategory| #[trigger] counts@[c.spec_index()] == te.subrange(0, i + 1).filter(
                            task_in_category(defs, c),
                        ).len() by {
                            assert(te.subrange(0, i + 1).filter(task_in_category(defs, c)) =~= te.subrange(0, i as int).filter(task_in_category(defs, c)));
                        }
                    }
                },
            }
            i = i + 1;
        }
        proof {
            assert(te.subrange(0, te.len() as int) =~= te);
        }
        let mut present: Vec<(TaskCategory, u32)> = Vec::new();
        let mut k: usize = 0;
        while k < 8
            invariant
                k <= 8,
                te == self.task_entries(),
                defs == self.def_map(),
                forall|c: TaskCategory| #[trigger] counts@[c.spec_index()] == te.filter(task_in_category(defs, c)).len(),
                forall|j: int| 0 <= j < present@.len() ==> {
                    let e = #[trigger] present@[j];
                    &&& e.1 == te.filter(task_in_category(defs, e.0)).len()
                    &&& e.1 > 0
                    &&& e.0.spec_index() < k
                },
                forall|i: int, j: int|
                    0 <= i < j < present@.len() ==> (#[trigger] present@[i]).0.spec_index() < (#[trigger] present@[j]).0.spec_index(),
                forall|c: TaskCategory|
                    c.spec_index() < k && #[trigger] te.filter(task_in_category(defs, c)).len() > 0 ==> exists|j: int|
                        0 <= j < present@.len() && present@[j].0 == c,
            decreases 8 - k,
        {
            let c = category_at(k);
            let n = counts[k];
            proof {
                assert(n == te.filter(task_in_category(defs, c)).len());
            }
            let ghost before = present@;
            if n > 0 {
                present.push((c, n));
            }
            proof {
                assert forall|d: TaskCategory|
                    d.spec_index() < k + 1 && #[trigger] te.filter(task_in_category(defs, d)).len() > 0 implies exists|j: int|
                    0 <= j < present@.len() && present@[j].0 == d by {
                    if d.spec_index() < k {
                        let j = choose|j: int| 0 <= j < before.len() && before[j].0 == d;
                        assert(present@[j] == before[j]);
                    } else {
                        assert(d == c);
                        assert(present@[before.len() as int].0 == d);
                    }
                }
            }
            k = k + 1;
        }
        let ghost listed = present@;
        snap.tasks_by_category = present;
        proof {
            assert forall|c: TaskCategory|
                #[trigger] self.task_entries().filter(task_in_category(self.def_map(), c)).len() > 0 implies exists|j: int|
                0 <= j < snap.tasks_by_category@.len() && snap.tasks_by_category@[j].0 == c by {
                assert(te.filter(task_in_category(defs, c)).len() > 0);
                assert(c.spec_index() < 8);
                let j = choose|j: int| 0 <= j < listed.len() && listed[j].0 == c;
                assert(snap.tasks_by_category@[j].0 == c);
            }
        }
        snap
    }
    /// The recorded events that concern the task, oldest first.
    pub fn events_for_task(&self, task: TaskId) -> (r: Vec<&SettlerEvent>)
        ensures
            r@.map_values(|e: &SettlerEvent| *e) == self.events().filter(event_of_task(task)),
    {
        let keep = |e: &SettlerEvent| -> (b: bool)
            ensures
                b == kind_involves_task(e.kind, task),
        {
            e.involves_task(task)
        };
        select(self.event_history.as_slice(), keep, Ghost(event_of_task(task)))
    }

    /// The recorded events that concern the settler, oldest first.
    pub fn events_for_settler(&self, settler: SettlerId) -> (r: Vec<&SettlerEvent>)
        ensures
            r@.map_values(|e: &SettlerEvent| *e) == self.events().filter(event_of_settler(settler)),
    {
        let keep = |e: &SettlerEvent| -> (b: bool)
            ensures
                b == kind_involves_settler(e.kind, settler),
        {
            e.involves_settler(settler)
        };
        select(self.event_history.as_slice(), keep, Ghost(event_of_settler(settler)))
    }
}

/// Tasks of two different statuses are together no more than all tasks.
proof fn lemma_two_status_counts(s: Seq<Task>, a: TaskStatus, b: TaskStatus)
    requires
        a != b,
    ensures
        s.filter(task_in_status(a)).len() + s.filter(task_in_status(b)).len() <= s.len(),
    decreases s.len(),
{
    reveal_with_fuel(Seq::<_>::filter, 1);
    if s.len() > 0 {
        lemma_two_status_counts(s.drop_last(), a, b);
    }
}


} // verus!

verus! {

/// The tasks of the accepted candidates.
pub open spec fn round_tasks(cands: Seq<(TaskId, SettlerId)>, acc: Seq<bool>) -> Set<u64> {
    Set::new(|k: u64| accepted_task(cands, acc, k))
}

proof fn lemma_round_tasks(m: SettlerManager, cands: Seq<(TaskId, SettlerId)>)
    ensures
        round_tasks(cands, accepted(m, cands)).finite(),
        round_tasks(cands, accepted(m, cands)).len() == count_accepted(accepted(m, cands)),
        round_tasks(cands, accepted(m, cands)).subset_of(m.task_map().dom()),
    decreases cands.len(),
{
    let acc = accepted(m, cands);
    lemma_accepted_prefix(m, cands);
    if cands.len() == 0 {
        assert(round_tasks(cands, acc) =~= Set::<u64>::empty());
    } else {
        let pc = cands.drop_last();
        let prev = accepted(m, pc);
        let c = cands.last();
        lemma_round_tasks(m, pc);
        lemma_accepted_prefix(m, pc);
        let b = eligible(m, c) && !taken(pc, prev, c);
        assert(acc == prev.push(b));
        assert(acc.drop_last() =~= prev);
        let before = round_tasks(pc, prev);
        let now = if b { before.insert(c.0.0) } else { before };
        assert forall|k: u64| round_tasks(cands, acc).contains(k) == now.contains(k) by {
            if accepted_task(cands, acc, k) {
                let j = choose|j: int| 0 <= j < acc.len() && #[trigger] acc[j] && cands[j].0.0 == k;
                if j < prev.len() {
                    assert(prev[j] && pc[j].0.0 == k);
                }
            }
            if before.contains(k) {
                let j = choose|j: int| 0 <= j < prev.len() && #[trigger] prev[j] && pc[j].0.0 == k;
                assert(acc[j] && cands[j].0.0 == k);
            }
            if b && k == c.0.0 {
                assert(acc[prev.len() as int] && cands[prev.len() as int].0.0 == k);
            }
        }
        assert(round_tasks(cands, acc) =~= now);
        if b {
            assert(!before.contains(c.0.0)) by {
                if before.contains(c.0.0) {
                    let j = choose|j: int| 0 <= j < prev.len() && #[trigger] prev[j] && pc[j].0.0 == c.0.0;
                    assert(pc[j].0 == c.0);
                }
            }
        }
    }
}

proof fn lemma_count_prefix(acc: Seq<bool>, n: int)
    requires
        0 <= n <= acc.len(),
    ensures
        count_accepted(acc.subrange(0, n)) <= count_accepted(acc),
    decreases acc.len(),
{
    if n == acc.len() {
        assert(acc.subrange(0, n) =~= acc);
    } else {
        lemma_count_prefix(acc.drop_last(), n);
        assert(acc.drop_last().subrange(0, n) =~= acc.subrange(0, n));
    }
}

proof fn lemma_accepted_prefix(m: SettlerManager, cands: Seq<(TaskId, SettlerId)>)
    ensures
        accepted(m, cands).len() == cands.len(),
        forall|n: int| 0 <= n <= cands.len() ==> #[trigger] accepted(m, cands.subrange(0, n)) == accepted(m, cands).subrange(0, n),
    decreases cands.len(),
{
    if cands.len() > 0 {
        let prev = cands.drop_last();
        lemma_accepted_prefix(m, prev);
        assert forall|n: int| 0 <= n <= cands.len() implies #[trigger] accepted(m, cands.subrange(0, n)) == accepted(m, cands).subrange(0, n) by {
            if n < cands.len() {
                assert(cands.subrange(0, n) =~= prev.subrange(0, n));
                assert(accepted(m, cands).subrange(0, n) =~= accepted(m, prev).subrange(0, n));
            } else {
                assert(cands.subrange(0, n) =~= cands);
                assert(accepted(m, cands).subrange(0, n) =~= accepted(m, cands));
            }
        }
    } else {
        assert(cands.subrange(0, 0) =~= cands);
    }
}

/// The fingerprint is a function of the state it covers: two managers at the
/// same tick, with the same totals, settlers and tasks, hash the same bytes.
pub proof fn law_fingerprint_is_deterministic(a: SettlerManager, b: SettlerManager)
    requires
        a.tick() == b.tick(),
        a.totals() == b.totals(),
        a.settler_entries() == b.settler_entries(),
        a.task_entries() == b.task_entries(),
    ensures
        fingerprint_writes(a) == fingerprint_writes(b),
{
}

/// A round makes at most as many pairings as there are tasks.
pub proof fn law_round_count_bounded(m: SettlerManager, cands: Seq<(TaskId, SettlerId)>)
    requires
        m.task_map().dom().finite(),
    ensures
        count_accepted(accepted(m, cands)) <= m.task_map().len(),
{
    lemma_round_tasks(m, cands);
    vstd::set_lib::lemma_len_subset(round_tasks(cands, accepted(m, cands)), m.task_map().dom());
}

/// In one round no task and no settler is paired twice: two accepted
/// candidates share neither their task nor their settler.
pub proof fn law_round_pairs_distinct(m: SettlerManager, cands: Seq<(TaskId, SettlerId)>, i: int, j: int)
    requires
        0 <= i < j < cands.len(),
        accepted(m, cands)[i],
        accepted(m, cands)[j],
    ensures
        cands[i].0 != cands[j].0,
        cands[i].1 != cands[j].1,
{
    lemma_accepted_prefix(m, cands);
    let acc = accepted(m, cands);
    let pre = cands.subrange(0, j + 1);
    assert(accepted(m, pre) == acc.subrange(0, j + 1));
    assert(pre.drop_last() =~= cands.subrange(0, j));
    assert(pre.last() == cands[j]);
    let prev = accepted(m, cands.subrange(0, j));
    assert(prev == acc.subrange(0, j));
    assert(acc.subrange(0, j + 1)[j] == acc[j]);
    assert(!taken(cands.subrange(0, j), prev, cands[j]));
    assert(prev[i] == acc[i]);
    assert(cands.subrange(0, j)[i] == cands[i]);
}

/// Every candidate a round accepts was eligible when the round began.
pub proof fn law_round_accepts_only_eligible(m: SettlerManager, cands: Seq<(TaskId, SettlerId)>, i: int)
    requires
        0 <= i < cands.len(),
        accepted(m, cands)[i],
    ensures
        eligible(m, cands[i]),
{
    lemma_accepted_prefix(m, cands);
    let acc = accepted(m, cands);
    let pre = cands.subrange(0, i + 1);
    assert(accepted(m, pre) == acc.subrange(0, i + 1));
    assert(pre.drop_last() =~= cands.subrange(0, i));
    assert(pre.last() == cands[i]);
    assert(acc.subrange(0, i + 1)[i] == acc[i]);
}

/// An eligible candidate is turned down only when an earlier accepted
/// candidate took its task or its settler.
pub proof fn law_round_is_greedy(m: SettlerManager, cands: Seq<(TaskId, SettlerId)>, i: int)
    requires
        0 <= i < cands.len(),
        eligible(m, cands[i]),
        !accepted(m, cands)[i],
    ensures
        exists|j: int| 0 <= j < i && #[trigger] accepted(m, cands)[j] && (cands[j].0 == cands[i].0 || cands[j].1 == cands[i].1),
{
    lemma_accepted_prefix(m, cands);
    let acc = accepted(m, cands);
    let pre = cands.subrange(0, i + 1);
    assert(accepted(m, pre) == acc.subrange(0, i + 1));
    assert(pre.drop_last() =~= cands.subrange(0, i));
    assert(pre.last() == cands[i]);
    assert(acc.subrange(0, i + 1)[i] == acc[i]);
    let prev = accepted(m, cands.subrange(0, i));
    assert(prev == acc.subrange(0, i));
    assert(taken(cands.subrange(0, i), prev, cands[i]));
    let j = choose|j: int| 0 <= j < prev.len() && #[trigger] prev[j] && (cands.subrange(0, i)[j].0 == cands[i].0 || cands.subrange(0, i)[j].1 == cands[i].1);
    assert(acc[j]);
    assert(cands.subrange(0, i)[j] == cands[j]);
}

/// After blockers are resolved, no task is still blocked by a task that had
/// completed, and every other blocker stays.
pub proof fn law_resolved_blockers(t: Task, t2: Task, done: Set<u64>, b: u64)
    requires
        unblocked(t, t2, done),
    ensures
        done.contains(b) ==> !t2.blocked_by@.contains(b),
        !done.contains(b) ==> (t2.blocked_by@.contains(b) == t.blocked_by@.contains(b)),
{
}

/// After a cancellation none of the task's workers still holds a task or is
/// still working; every other settler is untouched.
pub proof fn law_cancel_frees_workers(m: Map<u64, Settler>, workers: Set<u64>, k: u64)
    requires
        m.contains_key(k),
    ensures
        workers.contains(k) ==> clear_settlers(m, workers)[k].current_task is None,
        workers.contains(k) ==> clear_settlers(m, workers)[k].status != SettlerStatus::Working,
        !workers.contains(k) ==> clear_settlers(m, workers)[k] == m[k],
        clear_settlers(m, workers).dom() == m.dom(),
{
    assert(clear_settlers(m, workers).dom() =~= m.dom());
}

/// Once a settler's reservations are released, none of them remains.
pub proof fn law_released_settler_keeps_none(reserved: Set<(u64, u64)>, settler: u64, task: u64)
    ensures
        !reserved.filter(|p: (u64, u64)| p.1 != settler).contains((task, settler)),
{
}

/// Once a task's reservations are released, none of them remains.
pub proof fn law_released_task_keeps_none(reserved: Set<(u64, u64)>, task: u64, settler: u64)
    ensures
        !reserved.filter(|p: (u64, u64)| p.0 != task).contains((task, settler)),
{
}

/// Work booked on a task finishes it exactly when the work done reaches the
/// work required, and the work done never falls.
pub proof fn law_work_accumulates(t: Task, amount: u32)
    ensures
        added_work(t.work_done, amount) >= t.work_done,
        finishes(t, amount) == (added_work(t.work_done, amount) >= t.work_required),
        t.work_done + amount <= u32::MAX ==> added_work(t.work_done, amount) == t.work_done + amount,
{
}

} // verus!
