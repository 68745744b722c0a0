//! Assignment outcomes and the reservation table.

use vstd::prelude::*;
use std::collections::BTreeMap;
use crate::ordered::{rel_of, no_empty_rows, row, rel_add, rel_remove, rel_contains, rel_row, rel_row_len, rel_take_row, strictly_increasing};
use super::ids::{SettlerId, TaskId};

verus! {

broadcast use vstd::laws_cmp::group_laws_cmp, vstd::std_specs::btree::group_btree_axioms;

/// Result of an assignment attempt.
#[derive(Clone, Debug, PartialEq)]
pub enum AssignmentResult {
    Assigned { task: TaskId, settler: SettlerId },
    NoEligibleWorkers { task: TaskId },
    TaskUnavailable { task: TaskId, reason: String },
    SettlerUnavailable { settler: SettlerId, reason: String },
    AlreadyAssigned { task: TaskId, settler: SettlerId },
}

impl AssignmentResult {
    /// Whether the attempt assigned the task.
    pub fn is_success(&self) -> (b: bool)
        ensures
            b == (self is Assigned),
    {
        matches!(self, AssignmentResult::Assigned { .. })
    }
}

/// The relation with each pair reversed.
pub open spec fn transpose(r: Set<(u64, u64)>) -> Set<(u64, u64)> {
    Set::new(|p: (u64, u64)| r.contains((p.1, p.0)))
}

/// Reservations of tasks by settlers, indexed both by task and by settler.
/// Its contents are the set of pairs (task number, settler number).
#[derive(Debug)]
pub struct ReservationTable {
    task_to_settlers: BTreeMap<u64, std::collections::BTreeSet<u64>>,
    settler_to_tasks: BTreeMap<u64, std::collections::BTreeSet<u64>>,
}

impl ReservationTable {
    /// The two indexes hold the same pairs, and no index entry is empty.
    pub closed spec fn wf(&self) -> bool {
        &&& no_empty_rows(self.task_to_settlers@)
        &&& no_empty_rows(self.settler_to_tasks@)
        &&& rel_of(self.settler_to_tasks@) == transpose(rel_of(self.task_to_settlers@))
    }

    /// The reservations, as pairs (task number, settler number).
    pub closed spec fn reserved(&self) -> Set<(u64, u64)> {
        rel_of(self.task_to_settlers@)
    }

    /// An empty table.
    pub fn new() -> (r: Self)
        ensures
            r.wf(),
            r.reserved() == Set::<(u64, u64)>::empty(),
    {
        let r = ReservationTable { task_to_settlers: BTreeMap::new(), settler_to_tasks: BTreeMap::new() };
        proof {
            assert(rel_of(r.task_to_settlers@) =~= Set::<(u64, u64)>::empty());
            assert(rel_of(r.settler_to_tasks@) =~= Set::<(u64, u64)>::empty());
            assert(transpose(Set::<(u64, u64)>::empty()) =~= Set::<(u64, u64)>::empty());
        }
        r
    }

    /// Records that the settler reserved the task.
    pub fn reserve(&mut self, task: TaskId, settler: SettlerId)
        requires
            old(self).wf(),
        ensures
            final(self).wf(),
            final(self).reserved() == old(self).reserved().insert((task.0, settler.0)),
    {
        let ghost t0 = rel_of(self.task_to_settlers@);
        rel_add(&mut self.task_to_settlers, task.0, settler.0);
        rel_add(&mut self.settler_to_tasks, settler.0, task.0);
        proof {
            assert(rel_of(self.settler_to_tasks@) =~= transpose(rel_of(self.task_to_settlers@)));
        }
    }

    /// Drops the settler's reservation of the task.
    pub fn release(&mut self, task: TaskId, settler: SettlerId)
        requires
            old(self).wf(),
        ensures
            final(self).wf(),
            final(self).reserved() == old(self).reserved().remove((task.0, settler.0)),
    {
        rel_remove(&mut self.task_to_settlers, task.0, settler.0);
        rel_remove(&mut self.settler_to_tasks, settler.0, task.0);
        proof {
            assert(rel_of(self.settler_to_tasks@) =~= transpose(rel_of(self.task_to_settlers@)));
        }
    }

    /// Drops every reservation of the settler.
    pub fn release_all_for_settler(&mut self, settler: SettlerId)
        requires
            old(self).wf(),
        ensures
            final(self).wf(),
            final(self).reserved() == old(self).reserved().filter(|p: (u64, u64)| p.1 != settler.0),
    {
        let ghost t0 = rel_of(self.task_to_settlers@);
        let ghost s0 = rel_of(self.settler_to_tasks@);
        let s = settler.0;
        let tasks = rel_take_row(&mut self.settler_to_tasks, s);
        proof {
            assert forall|t: u64| tasks@.to_set().contains(t) == t0.contains((t, s)) by {
                assert(rel_of(old(self).settler_to_tasks@).contains((s, t)) == t0.contains((t, s)));
            }
        }
        let mut i: usize = 0;
        while i < tasks.len()
            invariant
                i <= tasks@.len(),
                no_empty_rows(self.task_to_settlers@),
                no_empty_rows(self.settler_to_tasks@),
                rel_of(self.settler_to_tasks@) == s0.filter(|p: (u64, u64)| p.0 != s),
                rel_of(self.task_to_settlers@) == t0.filter(
                    |p: (u64, u64)| !(p.1 == s && tasks@.subrange(0, i as int).contains(p.0)),
                ),
            decreases tasks@.len() - i,
        {
            rel_remove(&mut self.task_to_settlers, tasks[i], s);
            proof {
                crate::ordered::lemma_prefix_step(tasks@, i as int);
                assert(rel_of(self.task_to_settlers@) =~= t0.filter(
                    |p: (u64, u64)| !(p.1 == s && tasks@.subrange(0, i + 1).contains(p.0)),
                ));
            }
            i = i + 1;
        }
        proof {
            assert(tasks@.subrange(0, tasks@.len() as int) =~= tasks@);
            assert forall|t: u64| tasks@.contains(t) == t0.contains((t, s)) by {
                assert(tasks@.to_set().contains(t) == tasks@.contains(t));
            }
            assert(rel_of(self.task_to_settlers@) =~= t0.filter(|p: (u64, u64)| p.1 != s));
            assert(s0 == transpose(t0));
            assert forall|p: (u64, u64)| rel_of(self.settler_to_tasks@).contains(p) == transpose(rel_of(self.task_to_settlers@)).contains(p) by {
                assert(rel_of(self.settler_to_tasks@).contains(p) == (s0.contains(p) && p.0 != s));
                assert(s0.contains(p) == t0.contains((p.1, p.0)));
            }
            assert(rel_of(self.settler_to_tasks@) =~= transpose(rel_of(self.task_to_settlers@)));
        }
    }

    /// Drops every reservation of the task.
    pub fn release_all_for_task(&mut self, task: TaskId)
        requires
            old(self).wf(),
        ensures
            final(self).wf(),
            final(self).reserved() == old(self).reserved().filter(|p: (u64, u64)| p.0 != task.0),
    {
        let ghost t0 = rel_of(self.task_to_settlers@);
        let ghost s0 = rel_of(self.settler_to_tasks@);
        let t = task.0;
        let settlers = rel_take_row(&mut self.task_to_settlers, t);
        let mut i: usize = 0;
        while i < settlers.len()
            invariant
                i <= settlers@.len(),
                no_empty_rows(self.settler_to_tasks@),
                no_empty_rows(self.task_to_settlers@),
                rel_of(self.task_to_settlers@) == t0.filter(|p: (u64, u64)| p.0 != t),
                rel_of(self.settler_to_tasks@) == s0.filter(
                    |p: (u64, u64)| !(p.1 == t && settlers@.subrange(0, i as int).contains(p.0)),
                ),
            decreases settlers@.len() - i,
        {
            rel_remove(&mut self.settler_to_tasks, settlers[i], t);
            proof {
                crate::ordered::lemma_prefix_step(settlers@, i as int);
                assert(rel_of(self.settler_to_tasks@) =~= s0.filter(
                    |p: (u64, u64)| !(p.1 == t && settlers@.subrange(0, i + 1).contains(p.0)),
                ));
            }
            i = i + 1;
        }
        proof {
            assert(settlers@.subrange(0, settlers@.len() as int) =~= settlers@);
            assert forall|x: u64| settlers@.contains(x) == t0.contains((t, x)) by {
                assert(settlers@.to_set().contains(x) == settlers@.contains(x));
            }
            assert(s0 == transpose(t0));
            assert forall|p: (u64, u64)| rel_of(self.settler_to_tasks@).contains(p) == transpose(rel_of(self.task_to_settlers@)).contains(p) by {
                assert(rel_of(self.task_to_settlers@).contains((p.1, p.0)) == (t0.contains((p.1, p.0)) && p.1 != t));
                assert(s0.contains(p) == t0.contains((p.1, p.0)));
            }
            assert(rel_of(self.settler_to_tasks@) =~= transpose(rel_of(self.task_to_settlers@)));
        }
    }

    /// Whether the settler holds a reservation of the task.
    pub fn has_reservation(&self, task: TaskId, settler: SettlerId) -> (b: bool)
        requires
            self.wf(),
        ensures
            b == self.reserved().contains((task.0, settler.0)),
    {
        rel_contains(&self.task_to_settlers, task.0, settler.0)
    }

    /// The settlers holding a reservation of the task, in increasing order.
    pub fn reservations_for_task(&self, task: TaskId) -> (r: Vec<SettlerId>)
        requires
            self.wf(),
        ensures
            strictly_increasing(r@.map_values(|s: SettlerId| s.0)),
            r@.map_values(|s: SettlerId| s.0).to_set() == row(self.reserved(), task.0),
    {
        let raw = rel_row(&self.task_to_settlers, task.0);
        let r = to_settler_ids(&raw);
        proof {
            assert(r@.map_values(|s: SettlerId| s.0) =~= raw@);
        }
        r
    }

    /// The tasks the settler holds a reservation of, in increasing order.
    pub fn reservations_for_settler(&self, settler: SettlerId) -> (r: Vec<TaskId>)
        requires
            self.wf(),
        ensures
            strictly_increasing(r@.map_values(|t: TaskId| t.0)),
            r@.map_values(|t: TaskId| t.0).to_set() == row(transpose(self.reserved()), settler.0),
    {
        let raw = rel_row(&self.settler_to_tasks, settler.0);
        let r = to_task_ids(&raw);
        proof {
            assert(r@.map_values(|t: TaskId| t.0) =~= raw@);
        }
        r
    }

    /// The number of settlers holding a reservation of the task.
    pub fn reservation_count_for_task(&self, task: TaskId) -> (n: usize)
        requires
            self.wf(),
        ensures
            n == row(self.reserved(), task.0).len(),
    {
        rel_row_len(&self.task_to_settlers, task.0)
    }

    /// The number of tasks the settler holds a reservation of.
    pub fn reservation_count_for_settler(&self, settler: SettlerId) -> (n: usize)
        requires
            self.wf(),
        ensures
            n == row(transpose(self.reserved()), settler.0).len(),
    {
        rel_row_len(&self.settler_to_tasks, settler.0)
    }
}

fn to_settler_ids(raw: &Vec<u64>) -> (r: Vec<SettlerId>)
    ensures
        r@.map_values(|s: SettlerId| s.0) == raw@,
{
    let mut r: Vec<SettlerId> = Vec::new();
    let mut i: usize = 0;
    while i < raw.len()
        invariant
            i <= raw@.len(),
            r@.map_values(|s: SettlerId| s.0) == raw@.subrange(0, i as int),
        decreases raw@.len() - i,
    {
        let ghost prev = r@;
        r.push(SettlerId(raw[i]));
        proof {
            assert(r@.map_values(|s: SettlerId| s.0) =~= prev.map_values(|s: SettlerId| s.0).push(raw@[i as int]));
            assert(r@.map_values(|s: SettlerId| s.0) =~= raw@.subrange(0, i + 1));
        }
        i = i + 1;
    }
    proof {
        assert(raw@.subrange(0, raw@.len() as int) =~= raw@);
    }
    r
}

fn to_task_ids(raw: &Vec<u64>) -> (r: Vec<TaskId>)
    ensures
        r@.map_values(|t: TaskId| t.0) == raw@,
{
    let mut r: Vec<TaskId> = Vec::new();
    let mut i: usize = 0;
    while i < raw.len()
        invariant
            i <= raw@.len(),
            r@.map_values(|t: TaskId| t.0) == raw@.subrange(0, i as int),
        decreases raw@.len() - i,
    {
        let ghost prev = r@;
        r.push(TaskId(raw[i]));
        proof {
            assert(r@.map_values(|t: TaskId| t.0) =~= prev.map_values(|t: TaskId| t.0).push(raw@[i as int]));
            assert(r@.map_values(|t: TaskId| t.0) =~= raw@.subrange(0, i + 1));
        }
        i = i + 1;
    }
    proof {
        assert(raw@.subrange(0, raw@.len() as int) =~= raw@);
    }
    r
}

} // verus!

verus! {

/// A reservation just made is held, by the task's row and by the settler's row.
pub proof fn law_reserved_is_held(reserved: Set<(u64, u64)>, task: TaskId, settler: SettlerId)
    ensures
        reserved.insert((task.0, settler.0)).contains((task.0, settler.0)),
        row(reserved.insert((task.0, settler.0)), task.0).contains(settler.0),
        row(transpose(reserved.insert((task.0, settler.0))), settler.0).contains(task.0),
{
}

/// Releasing a reservation that was just made, and was not held before,
/// restores the table's contents.
pub proof fn law_release_undoes_reserve(reserved: Set<(u64, u64)>, task: TaskId, settler: SettlerId)
    requires
        !reserved.contains((task.0, settler.0)),
    ensures
        reserved.insert((task.0, settler.0)).remove((task.0, settler.0)) == reserved,
{
    assert(reserved.insert((task.0, settler.0)).remove((task.0, settler.0)) =~= reserved);
}

/// The settler index is the task index read the other way: a settler's row
/// holds a task exactly when the task's row holds the settler.
pub proof fn law_indexes_mirror(reserved: Set<(u64, u64)>, task: u64, settler: u64)
    ensures
        row(reserved, task).contains(settler) == row(transpose(reserved), settler).contains(task),
{
}

} // verus!
