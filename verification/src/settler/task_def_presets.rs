//! Well-known task definition identifiers and the standard definitions.

use vstd::prelude::*;
use super::ids::TaskDefId;
use super::task_def::{PriorityMode, TaskCategory, TaskDef};
use super::capability_presets as cap;

verus! {

/// The definition identifier `mine_rock`.
pub fn mine_rock() -> (r: TaskDefId)
    ensures
        r.0@ == "mine_rock"@,
{
    TaskDefId::new("mine_rock")
}

/// The definition identifier `haul_item`.
pub fn haul_item() -> (r: TaskDefId)
    ensures
        r.0@ == "haul_item"@,
{
    TaskDefId::new("haul_item")
}

/// The definition identifier `construct_wall`.
pub fn construct_wall() -> (r: TaskDefId)
    ensures
        r.0@ == "construct_wall"@,
{
    TaskDefId::new("construct_wall")
}

/// The definition identifier `plant_crop`.
pub fn plant_crop() -> (r: TaskDefId)
    ensures
        r.0@ == "plant_crop"@,
{
    TaskDefId::new("plant_crop")
}

/// The definition identifier `harvest_crop`.
pub fn harvest_crop() -> (r: TaskDefId)
    ensures
        r.0@ == "harvest_crop"@,
{
    TaskDefId::new("harvest_crop")
}

/// The definition identifier `cook_meal`.
pub fn cook_meal() -> (r: TaskDefId)
    ensures
        r.0@ == "cook_meal"@,
{
    TaskDefId::new("cook_meal")
}

/// The definition identifier `treat_patient`.
pub fn treat_patient() -> (r: TaskDefId)
    ensures
        r.0@ == "treat_patient"@,
{
    TaskDefId::new("treat_patient")
}

/// The definition identifier `research_tech`.
pub fn research_tech() -> (r: TaskDefId)
    ensures
        r.0@ == "research_tech"@,
{
    TaskDefId::new("research_tech")
}

/// The definition identifier `clean_area`.
pub fn clean_area() -> (r: TaskDefId)
    ensures
        r.0@ == "clean_area"@,
{
    TaskDefId::new("clean_area")
}

/// A standard definition: the given identifier, name, category, single
/// required capability, work, priority, mode, worker limit and interruptibility,
/// no prerequisite and no description.
pub open spec fn is_preset(
    d: TaskDef,
    id: Seq<char>,
    name: Seq<char>,
    category: TaskCategory,
    capability: Seq<char>,
    work: u32,
    priority: i32,
    mode: PriorityMode,
    max_workers: u32,
    interruptible: bool,
) -> bool {
    &&& d.wf()
    &&& d.id.0@ == id
    &&& d.name@ == name
    &&& d.description is None
    &&& d.category == category
    &&& d.capability_keys() == set![capability]
    &&& d.base_work_amount == work
    &&& d.base_priority == priority
    &&& d.priority_mode == mode
    &&& d.interruptible == interruptible
    &&& d.prerequisites@.len() == 0
    &&& d.max_workers == max_workers
    &&& !d.auto_cancel_on_failure
}

fn preset(
    id: TaskDefId,
    name: &str,
    category: TaskCategory,
    capability: super::ids::CapabilityId,
    work: u32,
    priority: i32,
) -> (r: TaskDef)
    ensures
        is_preset(r, id.0@, name@, category, capability.0@, work, priority, PriorityMode::Fixed, 1, true),
{
    let d = TaskDef::new(id, name, category);
    proof {
        assert(d.capability_keys() =~= Set::<Seq<char>>::empty());
        assert(d.capability_keys().insert(capability.0@) =~= set![capability.0@]);
    }
    d.with_capability(capability).with_work_amount(work).with_priority(priority)
}

/// The nine standard task definitions.
pub fn standard_task_defs() -> (v: Vec<TaskDef>)
    ensures
        v@.len() == 9,
        is_preset(v@[0], "mine_rock"@, "Mine Rock"@, TaskCategory::Production, "mining"@, 150, 5, PriorityMode::Fixed, 1, true),
        is_preset(v@[1], "haul_item"@, "Haul Item"@, TaskCategory::Hauling, "hauling"@, 50, 3, PriorityMode::Distance, 1, true),
        is_preset(v@[2], "construct_wall"@, "Construct Wall"@, TaskCategory::Construction, "construction"@, 200, 4, PriorityMode::Fixed, 2, true),
        is_preset(v@[3], "plant_crop"@, "Plant Crop"@, TaskCategory::Production, "farming"@, 30, 6, PriorityMode::Fixed, 1, true),
        is_preset(v@[4], "harvest_crop"@, "Harvest Crop"@, TaskCategory::Production, "farming"@, 40, 7, PriorityMode::Fixed, 1, true),
        is_preset(v@[5], "cook_meal"@, "Cook Meal"@, TaskCategory::Production, "cooking"@, 80, 8, PriorityMode::Fixed, 1, true),
        is_preset(v@[6], "treat_patient"@, "Treat Patient"@, TaskCategory::Medical, "medical"@, 100, 10, PriorityMode::Fixed, 1, false),
        is_preset(v@[7], "research_tech"@, "Research Technology"@, TaskCategory::Research, "research"@, 500, 2, PriorityMode::Fixed, 1, true),
        is_preset(v@[8], "clean_area"@, "Clean Area"@, TaskCategory::Maintenance, "cleaning"@, 60, 1, PriorityMode::Fixed, 1, true),
{
    let mut v: Vec<TaskDef> = Vec::new();
    v.push(preset(mine_rock(), "Mine Rock", TaskCategory::Production, cap::mining(), 150, 5));
    v.push(
        preset(haul_item(), "Haul Item", TaskCategory::Hauling, cap::hauling(), 50, 3)
            .with_priority_mode(PriorityMode::Distance),
    );
    v.push(
        preset(construct_wall(), "Construct Wall", TaskCategory::Construction, cap::construction(), 200, 4)
            .with_max_workers(2),
    );
    v.push(preset(plant_crop(), "Plant Crop", TaskCategory::Production, cap::farming(), 30, 6));
    v.push(preset(harvest_crop(), "Harvest Crop", TaskCategory::Production, cap::farming(), 40, 7));
    v.push(preset(cook_meal(), "Cook Meal", TaskCategory::Production, cap::cooking(), 80, 8));
    v.push(
        preset(treat_patient(), "Treat Patient", TaskCategory::Medical, cap::medical(), 100, 10)
            .non_interruptible(),
    );
    v.push(preset(research_tech(), "Research Technology", TaskCategory::Research, cap::research(), 500, 2));
    v.push(preset(clean_area(), "Clean Area", TaskCategory::Maintenance, cap::cleaning(), 60, 1));
    v
}

} // verus!
