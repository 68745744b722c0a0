//! Task definitions and their registry.

use vstd::prelude::*;
use crate::keys::{Keyed, sorted_by_key, key_set, key_map, key_map_where, has_key, insert_by_key, remove_by_key, locate, lemma_key_map_len, lemma_key_filter};
use super::ids::{CapabilityId, TaskDefId};

verus! {

/// Category for grouping task definitions.
#[derive(Clone, Copy, Debug, PartialEq, Eq, PartialOrd, Ord, Hash, Structural)]
pub enum TaskCategory {
    Construction,
    Production,
    Hauling,
    Maintenance,
    Research,
    Medical,
    Combat,
    Social,
}

impl TaskCategory {
    /// The position of the category in declaration order.
    pub open spec fn spec_index(self) -> int {
        match self {
            TaskCategory::Construction => 0,
            TaskCategory::Production => 1,
            TaskCategory::Hauling => 2,
            TaskCategory::Maintenance => 3,
            TaskCategory::Research => 4,
            TaskCategory::Medical => 5,
            TaskCategory::Combat => 6,
            TaskCategory::Social => 7,
        }
    }

    /// The position of the category in declaration order.
    pub fn index(self) -> (i: usize)
        ensures
            i == self.spec_index(),
            i < 8,
    {
        match self {
            TaskCategory::Construction => 0,
            TaskCategory::Production => 1,
            TaskCategory::Hauling => 2,
            TaskCategory::Maintenance => 3,
            TaskCategory::Research => 4,
            TaskCategory::Medical => 5,
            TaskCategory::Combat => 6,
            TaskCategory::Social => 7,
        }
    }
}

/// How the priority of a task is computed.
#[derive(Clone, Copy, Debug, PartialEq, Eq, PartialOrd, Ord, Hash, Structural)]
pub enum PriorityMode {
    Fixed,
    Distance,
    Age,
    Custom,
}

impl Default for PriorityMode {
    fn default() -> (r: Self)
        ensures
            r == PriorityMode::Fixed,
    {
        PriorityMode::Fixed
    }
}

/// Definition of a task type. The capability and prerequisite lists are kept
/// sorted by key without repetition, as ordered sets.
#[derive(Clone, Debug, PartialEq)]
pub struct TaskDef {
    pub id: TaskDefId,
    pub name: String,
    pub description: Option<String>,
    pub category: TaskCategory,
    pub required_capabilities: Vec<CapabilityId>,
    pub base_work_amount: u32,
    pub base_priority: i32,
    pub priority_mode: PriorityMode,
    pub interruptible: bool,
    pub prerequisites: Vec<TaskDefId>,
    pub max_workers: u32,
    pub auto_cancel_on_failure: bool,
}

impl Keyed for TaskDef {
    open spec fn key(&self) -> Seq<char> {
        self.id.0@
    }

    fn key_str(&self) -> (s: &str) {
        self.id.0.as_str()
    }
}

impl TaskDef {
    /// The capability and prerequisite lists are ordered sets.
    pub open spec fn wf(&self) -> bool {
        &&& sorted_by_key(self.required_capabilities@)
        &&& sorted_by_key(self.prerequisites@)
    }

    /// The set of required capability names.
    pub open spec fn capability_keys(&self) -> Set<Seq<char>> {
        key_set(self.required_capabilities@)
    }

    /// The set of prerequisite definition names.
    pub open spec fn prerequisite_keys(&self) -> Set<Seq<char>> {
        key_set(self.prerequisites@)
    }

    /// A definition with default settings: 100 units of work, priority 0, fixed
    /// priority mode, interruptible, one worker, no requirements.
    pub fn new(id: TaskDefId, name: &str, category: TaskCategory) -> (r: Self)
        ensures
            r.wf(),
            r.id == id,
            r.name@ == name@,
            r.description is None,
            r.category == category,
            r.required_capabilities@ == Seq::<CapabilityId>::empty(),
            r.base_work_amount == 100,
            r.base_priority == 0,
            r.priority_mode == PriorityMode::Fixed,
            r.interruptible,
            r.prerequisites@ == Seq::<TaskDefId>::empty(),
            r.max_workers == 1,
            !r.auto_cancel_on_failure,
    {
        TaskDef {
            id,
            name: String::from_str(name),
            description: None,
            category,
            required_capabilities: Vec::new(),
            base_work_amount: 100,
            base_priority: 0,
            priority_mode: PriorityMode::Fixed,
            interruptible: true,
            prerequisites: Vec::new(),
            max_workers: 1,
            auto_cancel_on_failure: false,
        }
    }

    /// Sets the description.
    pub fn with_description(self, desc: &str) -> (r: Self)
        ensures
            r.description matches Some(d) && d@ == desc@,
            (r == TaskDef { description: r.description, ..self }),
    {
        let mut s = self;
        s.description = Some(String::from_str(desc));
        s
    }

    /// Adds a required capability.
    pub fn with_capability(self, cap: CapabilityId) -> (r: Self)
        requires
            self.wf(),
        ensures
            r.wf(),
            r.capability_keys() == self.capability_keys().insert(cap.0@),
            (r == TaskDef { required_capabilities: r.required_capabilities, ..self }),
    {
        let mut s = self;
        insert_by_key(&mut s.required_capabilities, cap);
        s
    }

    /// Adds every capability of `caps`.
    pub fn with_capabilities(self, caps: Vec<CapabilityId>) -> (r: Self)
        requires
            self.wf(),
        ensures
            r.wf(),
            r.capability_keys() == self.capability_keys().union(
                caps@.map_values(|c: CapabilityId| c.0@).to_set(),
            ),
            (r == TaskDef { required_capabilities: r.required_capabilities, ..self }),
    {
        let mut s = self;
        let mut rest = caps;
        let ghost all = rest@;
        proof {
            assert(all.subrange(all.len() as int, all.len() as int).map_values(|c: CapabilityId| c.0@).to_set() =~= Set::<Seq<char>>::empty());
            assert(self.capability_keys().union(Set::<Seq<char>>::empty()) =~= self.capability_keys());
        }
        while rest.len() > 0
            invariant
                rest@.len() <= all.len(),
                rest@ == all.subrange(0, rest@.len() as int),
                s.wf(),
                s.capability_keys() == self.capability_keys().union(
                    all.subrange(rest@.len() as int, all.len() as int).map_values(|c: CapabilityId| c.0@).to_set(),
                ),
                (s == TaskDef { required_capabilities: s.required_capabilities, ..self }),
            decreases rest@.len(),
        {
            let ghost n = rest@.len() as int;
            let ghost prev = rest@;
            let c = rest.pop().unwrap();
            proof {
                assert(c == all[n - 1]);
                assert(rest@ =~= all.subrange(0, n - 1));
                let before = all.subrange(n, all.len() as int).map_values(|c: CapabilityId| c.0@);
                let after = all.subrange(n - 1, all.len() as int).map_values(|c: CapabilityId| c.0@);
                assert(after =~= seq![c.0@] + before);
                assert forall|k: Seq<char>| after.to_set().contains(k) == (before.to_set().contains(k) || k == c.0@) by {
                    if after.to_set().contains(k) {
                        let j = choose|j: int| 0 <= j < after.len() && after[j] == k;
                        if j > 0 {
                            assert(before[j - 1] == k);
                        }
                    }
                    if before.to_set().contains(k) {
                        let j = choose|j: int| 0 <= j < before.len() && before[j] == k;
                        assert(after[j + 1] == k);
                    }
                    if k == c.0@ {
                        assert(after[0] == k);
                    }
                }
                assert(after.to_set() =~= before.to_set().insert(c.0@));
            }
            insert_by_key(&mut s.required_capabilities, c);
            proof {
                assert(s.capability_keys() =~= self.capability_keys().union(
                    all.subrange(rest@.len() as int, all.len() as int).map_values(|c: CapabilityId| c.0@).to_set(),
                ));
            }
        }
        proof {
            assert(all.subrange(0, all.len() as int) =~= all);
        }
        s
    }

    /// Sets the amount of work.
    pub fn with_work_amount(self, amount: u32) -> (r: Self)
        ensures
            (r == TaskDef { base_work_amount: amount, ..self }),
    {
        let mut s = self;
        s.base_work_amount = amount;
        s
    }

    /// Sets the base priority.
    pub fn with_priority(self, priority: i32) -> (r: Self)
        ensures
            (r == TaskDef { base_priority: priority, ..self }),
    {
        let mut s = self;
        s.base_priority = priority;
        s
    }

    /// Sets the priority mode.
    pub fn with_priority_mode(self, mode: PriorityMode) -> (r: Self)
        ensures
            (r == TaskDef { priority_mode: mode, ..self }),
    {
        let mut s = self;
        s.priority_mode = mode;
        s
    }

    /// Adds a prerequisite definition.
    pub fn with_prerequisite(self, prereq: TaskDefId) -> (r: Self)
        requires
            self.wf(),
        ensures
            r.wf(),
            r.prerequisite_keys() == self.prerequisite_keys().insert(prereq.0@),
            (r == TaskDef { prerequisites: r.prerequisites, ..self }),
    {
        let mut s = self;
        insert_by_key(&mut s.prerequisites, prereq);
        s
    }

    /// Sets the maximum number of workers; at least one.
    pub fn with_max_workers(self, max: u32) -> (r: Self)
        ensures
            r.max_workers == if max >= 1 { max } else { 1 },
            (r == TaskDef { max_workers: r.max_workers, ..self }),
    {
        let mut s = self;
        s.max_workers = if max >= 1 { max } else { 1 };
        s
    }

    /// Marks the task as not interruptible.
    pub fn non_interruptible(self) -> (r: Self)
        ensures
            (r == TaskDef { interruptible: false, ..self }),
    {
        let mut s = self;
        s.interruptible = false;
        s
    }

    /// Marks the task to be cancelled when it fails.
    pub fn auto_cancel(self) -> (r: Self)
        ensures
            (r == TaskDef { auto_cancel_on_failure: true, ..self }),
    {
        let mut s = self;
        s.auto_cancel_on_failure = true;
        s
    }

    /// Whether the capability is required.
    pub fn requires_capability(&self, cap: &CapabilityId) -> (b: bool)
        requires
            self.wf(),
        ensures
            b == self.capability_keys().contains(cap.0@),
    {
        let (found, _) = locate(&self.required_capabilities, cap.0.as_str());
        found
    }

    /// Whether the definition has any prerequisite.
    pub fn has_prerequisites(&self) -> (b: bool)
        requires
            self.wf(),
        ensures
            b == !self.prerequisite_keys().is_empty(),
    {
        let n = self.prerequisites.len();
        proof {
            if n > 0 {
                assert(self.prerequisite_keys().contains(self.prerequisites@[0].key()));
            } else {
                assert(self.prerequisite_keys() =~= Set::<Seq<char>>::empty());
            }
        }
        n > 0
    }
}

} // verus!

verus! {

/// Whether a definition belongs to a category.
pub open spec fn in_category(category: TaskCategory) -> spec_fn(TaskDef) -> bool {
    |d: TaskDef| d.category == category
}

/// Whether a definition requires a capability.
pub open spec fn requiring(cap: Seq<char>) -> spec_fn(TaskDef) -> bool {
    |d: TaskDef| key_set(d.required_capabilities@).contains(cap)
}

/// Registry of task definitions, kept in order of their identifiers.
#[derive(Debug)]
pub struct TaskDefRegistry {
    defs: Vec<TaskDef>,
}

impl TaskDefRegistry {
    #[verifier::type_invariant]
    spec fn sorted(&self) -> bool {
        sorted_by_key(self.defs@)
    }

    /// The definitions in order of their identifiers.
    pub closed spec fn entries(&self) -> Seq<TaskDef> {
        self.defs@
    }

    /// The registry as a map from identifier text to definition.
    pub open spec fn view(&self) -> Map<Seq<char>, TaskDef> {
        key_map(self.entries())
    }

    /// An empty registry.
    pub fn new() -> (r: Self)
        ensures
            r.entries() == Seq::<TaskDef>::empty(),
            r@ == Map::<Seq<char>, TaskDef>::empty(),
    {
        let r = TaskDefRegistry { defs: Vec::new() };
        assert(key_map(r.defs@) =~= Map::<Seq<char>, TaskDef>::empty());
        r
    }

    /// Registers a definition, replacing any with the same identifier.
    pub fn register(&mut self, def: TaskDef)
        ensures
            final(self)@ == old(self)@.insert(def.id.0@, def),
            final(self)@.dom().finite(),
            final(self)@.len() == old(self)@.len() + if old(self)@.contains_key(def.id.0@) { 0int } else { 1int },
    {
        proof {
            use_type_invariant(&*self);
            lemma_key_map_len(self.defs@);
        }
        let mut defs = Vec::new();
        std::mem::swap(&mut defs, &mut self.defs);
        insert_by_key(&mut defs, def);
        self.defs = defs;
        proof {
            use_type_invariant(&*self);
            lemma_key_map_len(self.defs@);
        }
    }

    /// The definition with the given identifier.
    pub fn get(&self, id: &TaskDefId) -> (r: Option<&TaskDef>)
        ensures
            r is Some <==> self@.contains_key(id.0@),
            r matches Some(d) ==> *d == self@[id.0@],
    {
        proof {
            use_type_invariant(self);
        }
        let (found, i) = locate(&self.defs, id.0.as_str());
        if found {
            proof {
                crate::keys::lemma_key_map_at(self.defs@, i as int);
            }
            Some(&self.defs[i])
        } else {
            None
        }
    }

    /// Takes out the definition with the given identifier.
    pub fn remove(&mut self, id: &TaskDefId) -> (r: Option<TaskDef>)
        ensures
            final(self)@ == old(self)@.remove(id.0@),
            final(self)@.dom().finite(),
            final(self)@.len() == old(self)@.len() - if old(self)@.contains_key(id.0@) { 1int } else { 0int },
            r is Some <==> old(self)@.contains_key(id.0@),
            r matches Some(d) ==> d == old(self)@[id.0@],
    {
        proof {
            use_type_invariant(&*self);
        }
        let mut defs = Vec::new();
        std::mem::swap(&mut defs, &mut self.defs);
        let r = remove_by_key(&mut defs, id.0.as_str());
        self.defs = defs;
        proof {
            lemma_key_map_len(old(self).defs@);
            use_type_invariant(&*self);
            lemma_key_map_len(self.defs@);
        }
        r
    }

    /// Whether a definition with the identifier is registered.
    pub fn contains(&self, id: &TaskDefId) -> (b: bool)
        ensures
            b == self@.contains_key(id.0@),
    {
        proof {
            use_type_invariant(self);
        }
        let (found, _) = locate(&self.defs, id.0.as_str());
        found
    }

    /// All definitions, in order of their identifiers.
    pub fn iter(&self) -> (r: &[TaskDef])
        ensures
            r@ == self.entries(),
            sorted_by_key(r@),
    {
        proof {
            use_type_invariant(self);
        }
        self.defs.as_slice()
    }

    /// The definitions of a category, in order of their identifiers.
    pub fn by_category(&self, category: TaskCategory) -> (r: Vec<&TaskDef>)
        ensures
            r@.map_values(|d: &TaskDef| *d) == self.entries().filter(in_category(category)),
            sorted_by_key(r@.map_values(|d: &TaskDef| *d)),
            key_map(r@.map_values(|d: &TaskDef| *d)) == key_map_where(self@, in_category(category)),
    {
        proof {
            use_type_invariant(self);
            lemma_key_filter(self.defs@, in_category(category));
        }
        let mut r: Vec<&TaskDef> = Vec::new();
        let ghost pred = in_category(category);
        let mut i: usize = 0;
        while i < self.defs.len()
            invariant
                i <= self.defs@.len(),
                pred == in_category(category),
                r@.map_values(|d: &TaskDef| *d) == self.defs@.subrange(0, i as int).filter(pred),
            decreases self.defs@.len() - i,
        {
            let d = &self.defs[i];
            proof {
                reveal_with_fuel(Seq::<_>::filter, 1);
                assert(self.defs@.subrange(0, i + 1).drop_last() =~= self.defs@.subrange(0, i as int));
            }
            let ghost prev = r@;
            if d.category == category {
                r.push(d);
                proof {
                    assert(r@.map_values(|d: &TaskDef| *d) =~= prev.map_values(|d: &TaskDef| *d).push(*d));
                }
            }
            proof {
                assert(self.defs@.subrange(0, i + 1).last() == *d);
                assert(r@.map_values(|d: &TaskDef| *d) =~= self.defs@.subrange(0, i + 1).filter(pred));
            }
            i = i + 1;
        }
        proof {
            assert(self.defs@.subrange(0, self.defs@.len() as int) =~= self.defs@);
        }
        r
    }

    /// The definitions that require a capability, in order of their identifiers.
    pub fn requiring_capability(&self, cap: &CapabilityId) -> (r: Vec<&TaskDef>)
        ensures
            r@.map_values(|d: &TaskDef| *d) == self.entries().filter(requiring(cap.0@)),
            sorted_by_key(r@.map_values(|d: &TaskDef| *d)),
            key_map(r@.map_values(|d: &TaskDef| *d)) == key_map_where(self@, requiring(cap.0@)),
    {
        proof {
            use_type_invariant(self);
            lemma_key_filter(self.defs@, requiring(cap.0@));
        }
        let mut r: Vec<&TaskDef> = Vec::new();
        let ghost pred = requiring(cap.0@);
        let mut i: usize = 0;
        while i < self.defs.len()
            invariant
                i <= self.defs@.len(),
                pred == requiring(cap.0@),
                r@.map_values(|d: &TaskDef| *d) == self.defs@.subrange(0, i as int).filter(pred),
            decreases self.defs@.len() - i,
        {
            let d = &self.defs[i];
            proof {
                reveal_with_fuel(Seq::<_>::filter, 1);
                assert(self.defs@.subrange(0, i + 1).drop_last() =~= self.defs@.subrange(0, i as int));
            }
            let (found, _) = crate::keys::locate_any(&d.required_capabilities, cap.0.as_str());
            let ghost prev = r@;
            if found {
                r.push(d);
                proof {
                    assert(r@.map_values(|d: &TaskDef| *d) =~= prev.map_values(|d: &TaskDef| *d).push(*d));
                }
            }
            proof {
                assert(self.defs@.subrange(0, i + 1).last() == *d);
                assert(r@.map_values(|d: &TaskDef| *d) =~= self.defs@.subrange(0, i + 1).filter(pred));
            }
            i = i + 1;
        }
        proof {
            assert(self.defs@.subrange(0, self.defs@.len() as int) =~= self.defs@);
        }
        r
    }

    /// The number of registered definitions.
    pub fn count(&self) -> (n: usize)
        ensures
            n == self.entries().len(),
            self@.dom().finite(),
            n == self@.len(),
    {
        proof {
            use_type_invariant(self);
            lemma_key_map_len(self.defs@);
        }
        self.defs.len()
    }
}

} // verus!
