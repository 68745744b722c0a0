use lattice_engine::settler::capability_presets as cap;
use lattice_engine::settler::task_def_presets as presets;
use lattice_engine::settler::{
    AssignmentResult, CapabilityId, SettlerRegistry, TaskRegistry, FailureReason, RegionId, ReservationTable, Settler, SettlerEvent, SettlerEventKind,
    SettlerId, SettlerStatus, SkillLevel, Task, TaskCategory, TaskDef, TaskDefId, TaskDefRegistry, TaskId, TaskStatus,
    WorkPriorities,
};

fn progress(task: &Task) -> f32 {
    if task.work_required == 0 {
        1.0
    } else {
        task.work_done as f32 / task.work_required as f32
    }
}

#[test]
fn test_reservation_table() {
    let mut table = ReservationTable::new();
    let task = TaskId::new(1);
    let settler = SettlerId::new(1);

    table.reserve(task, settler);
    assert!(table.has_reservation(task, settler));
    assert_eq!(table.reservation_count_for_task(task), 1);
    assert_eq!(table.reservation_count_for_settler(settler), 1);

    table.release(task, settler);
    assert!(!table.has_reservation(task, settler));
}

#[test]
fn test_release_all_for_settler() {
    let mut table = ReservationTable::new();
    let settler = SettlerId::new(1);

    table.reserve(TaskId::new(1), settler);
    table.reserve(TaskId::new(2), settler);
    table.reserve(TaskId::new(3), settler);

    table.release_all_for_settler(settler);
    assert_eq!(table.reservation_count_for_settler(settler), 0);
}

#[test]
fn test_skill_level_progression() {
    assert_eq!(SkillLevel::Novice.next(), Some(SkillLevel::Apprentice));
    assert_eq!(SkillLevel::Master.next(), None);
}

#[test]
fn test_settler_id() {
    let id = SettlerId::new(42);
    assert_eq!(id.raw(), 42);
    assert_eq!(id.to_string(), "settler:42");
}

#[test]
fn test_task_id() {
    let id = TaskId::new(123);
    assert_eq!(id.raw(), 123);
    assert_eq!(id.to_string(), "task:123");
}

#[test]
fn test_task_def_id() {
    let id = TaskDefId::new("mining");
    assert_eq!(id.as_str(), "mining");
    assert_eq!(id.to_string(), "taskdef:mining");
}

#[test]
fn test_capability_id() {
    let id = CapabilityId::new("carpentry");
    assert_eq!(id.as_str(), "carpentry");
    assert_eq!(id.to_string(), "cap:carpentry");
}

#[test]
fn test_region_id() {
    let id = RegionId::new(7);
    assert_eq!(id.raw(), 7);
    assert_eq!(id.to_string(), "region:7");
}

#[test]
fn test_work_priorities() {
    let mut priorities = WorkPriorities::new();
    priorities.set_priority(TaskCategory::Medical, 10);
    priorities.forbid(TaskCategory::Combat);

    assert_eq!(priorities.get_priority(TaskCategory::Medical), 10);
    assert_eq!(priorities.get_priority(TaskCategory::Production), 0);
    assert!(priorities.is_forbidden(TaskCategory::Combat));
    assert!(!priorities.is_forbidden(TaskCategory::Medical));
}

#[test]
fn test_task_status_checks() {
    assert!(TaskStatus::Pending.is_available());
    assert!(TaskStatus::Pending.can_be_claimed());
    assert!(TaskStatus::InProgress.is_active());
    assert!(TaskStatus::Completed.is_terminal());
    assert!(!TaskStatus::Pending.is_terminal());
}

#[test]
fn test_task_def_creation() {
    let def = TaskDef::new(presets::mine_rock(), "Mine Rock", TaskCategory::Production)
        .with_capability(cap::mining())
        .with_work_amount(150);

    assert_eq!(def.name, "Mine Rock");
    assert_eq!(def.base_work_amount, 150);
    assert!(def.requires_capability(&cap::mining()));
    assert!(!def.requires_capability(&cap::hauling()));
}

#[test]
fn test_task_def_prerequisites() {
    let def = TaskDef::new(presets::construct_wall(), "Build", TaskCategory::Construction)
        .with_prerequisite(presets::haul_item());

    assert!(def.has_prerequisites());
    assert!(def.prerequisites.contains(&presets::haul_item()));
}

#[test]
fn test_task_def_registry() {
    let mut registry = TaskDefRegistry::new();
    registry.register(TaskDef::new(presets::mine_rock(), "Mine", TaskCategory::Production));
    registry.register(TaskDef::new(presets::haul_item(), "Haul", TaskCategory::Hauling));

    assert_eq!(registry.count(), 2);
    assert!(registry.contains(&presets::mine_rock()));
    assert!(registry.get(&presets::mine_rock()).is_some());
}

#[test]
fn test_registry_by_category() {
    let mut registry = TaskDefRegistry::new();
    for def in presets::standard_task_defs() {
        registry.register(def);
    }

    let production = registry.by_category(TaskCategory::Production);
    assert!(production.len() >= 2);
}

#[test]
fn test_settler_creation() {
    let settler = Settler::new(SettlerId::new(1), "Alice", 0);
    assert_eq!(settler.name, "Alice");
    assert_eq!(settler.status, SettlerStatus::Idle);
    assert!(settler.is_available());
}

#[test]
fn test_settler_task_assignment() {
    let mut settler = Settler::new(SettlerId::new(1), "Bob", 0);
    let task = TaskId::new(1);

    settler.assign_task(task);
    assert!(!settler.is_available());
    assert!(settler.is_working());
    assert_eq!(settler.current_task, Some(task));
    assert_eq!(settler.status, SettlerStatus::Working);

    settler.clear_task();
    assert!(settler.is_available());
    assert!(settler.current_task.is_none());
}

#[test]
fn test_settler_reservations() {
    let mut settler = Settler::new(SettlerId::new(1), "Carol", 0);
    let task1 = TaskId::new(1);
    let task2 = TaskId::new(2);

    settler.reserve_task(task1);
    settler.reserve_task(task2);

    assert!(settler.has_reservation(task1));
    assert!(settler.has_reservation(task2));
    assert!(!settler.has_reservation(TaskId::new(3)));

    settler.unreserve_task(task1);
    assert!(!settler.has_reservation(task1));
}

#[test]
fn test_settler_incapacitation() {
    let mut settler = Settler::new(SettlerId::new(1), "Dave", 0);
    settler.assign_task(TaskId::new(1));
    settler.reserve_task(TaskId::new(2));

    settler.incapacitate();
    assert_eq!(settler.status, SettlerStatus::Incapacitated);
    assert!(settler.current_task.is_none());
    assert!(settler.reserved_tasks.is_empty());
    assert!(!settler.can_work());

    settler.recover();
    assert_eq!(settler.status, SettlerStatus::Idle);
}

#[test]
fn test_settler_work_tracking() {
    let mut settler = Settler::new(SettlerId::new(1), "Eve", 0);
    settler.record_work(100);
    settler.record_work(50);
    settler.record_completion();

    assert_eq!(settler.total_work_done, 150);
    assert_eq!(settler.tasks_completed, 1);
}

#[test]
fn test_task_creation() {
    let task = Task::new(TaskId::new(1), presets::mine_rock(), 100, 0);
    assert_eq!(task.status, TaskStatus::Pending);
    assert_eq!(task.work_required, 100);
    assert_eq!(task.work_done, 0);
    assert!((progress(&task)).abs() < f32::EPSILON);
}

#[test]
fn test_task_progress() {
    let mut task = Task::new(TaskId::new(1), presets::mine_rock(), 100, 0);
    task.add_work(50);
    assert!((progress(&task) - 0.5).abs() < f32::EPSILON);
    assert_eq!(task.remaining_work(), 50);
}

#[test]
fn test_task_lifecycle() {
    let mut task = Task::new(TaskId::new(1), presets::mine_rock(), 100, 0);
    let settler = SettlerId::new(1);

    task.claim(settler, 10);
    assert_eq!(task.status, TaskStatus::Claimed);
    assert!(task.has_worker(settler));
    assert_eq!(task.started_tick, Some(10));

    task.start(10);
    assert_eq!(task.status, TaskStatus::InProgress);

    task.add_work(100);
    task.complete(50);
    assert!(task.is_complete());
    assert_eq!(task.completed_tick, Some(50));
}

#[test]
fn test_task_failure() {
    let mut task = Task::new(TaskId::new(1), presets::mine_rock(), 100, 0);
    task.fail(FailureReason::ResourcesUnavailable, 20);

    assert_eq!(task.status, TaskStatus::Failed);
    assert!(matches!(task.failure_reason, Some(FailureReason::ResourcesUnavailable)));
}

#[test]
fn test_task_blocking() {
    let mut task = Task::new(TaskId::new(1), presets::construct_wall(), 200, 0).with_blocker(TaskId::new(2));

    assert!(task.is_blocked());
    task.remove_blocker(TaskId::new(2));
    assert!(!task.is_blocked());
}

#[test]
fn test_event_creation() {
    let event = SettlerEvent::task_created(10, TaskId::new(1), presets::mine_rock(), Some(RegionId::new(1)));
    assert_eq!(event.tick, 10);
    assert!(matches!(event.kind, SettlerEventKind::TaskCreated { .. }));
}

#[test]
fn test_event_involves_task() {
    let task = TaskId::new(1);
    let settler = SettlerId::new(1);

    let event = SettlerEvent::task_claimed(0, task, settler);
    assert!(event.involves_task(task));
    assert!(!event.involves_task(TaskId::new(2)));
}

#[test]
fn test_event_involves_settler() {
    let task = TaskId::new(1);
    let settler = SettlerId::new(1);

    let event = SettlerEvent::task_completed(100, task, settler, 50);
    assert!(event.involves_settler(settler));
    assert!(!event.involves_settler(SettlerId::new(2)));
}

#[test]
fn add_work_saturates_and_reports_completion() {
    let mut task = Task::new(TaskId::new(1), presets::mine_rock(), 100, 0);
    assert!(!task.add_work(99));
    assert!(task.add_work(1));
    let mut big = Task::new(TaskId::new(2), presets::mine_rock(), u32::MAX, 0);
    big.add_work(u32::MAX - 1);
    assert!(big.add_work(10));
    assert_eq!(big.work_done, u32::MAX);
    assert_eq!(big.remaining_work(), 0);
}

#[test]
fn reservation_indexes_agree() {
    let mut table = ReservationTable::new();
    table.reserve(TaskId::new(5), SettlerId::new(1));
    table.reserve(TaskId::new(3), SettlerId::new(1));
    table.reserve(TaskId::new(5), SettlerId::new(2));
    assert_eq!(table.reservations_for_settler(SettlerId::new(1)), vec![TaskId::new(3), TaskId::new(5)]);
    assert_eq!(table.reservations_for_task(TaskId::new(5)), vec![SettlerId::new(1), SettlerId::new(2)]);
    table.release_all_for_task(TaskId::new(5));
    assert_eq!(table.reservations_for_settler(SettlerId::new(1)), vec![TaskId::new(3)]);
    assert_eq!(table.reservation_count_for_settler(SettlerId::new(2)), 0);
    assert_eq!(table.reservation_count_for_task(TaskId::new(5)), 0);
}

#[test]
fn release_restores_table_when_new() {
    let mut table = ReservationTable::new();
    table.reserve(TaskId::new(1), SettlerId::new(1));
    table.reserve(TaskId::new(2), SettlerId::new(2));
    table.release(TaskId::new(2), SettlerId::new(2));
    assert!(table.has_reservation(TaskId::new(1), SettlerId::new(1)));
    assert!(!table.has_reservation(TaskId::new(2), SettlerId::new(2)));
    assert_eq!(table.reservation_count_for_task(TaskId::new(2)), 0);
}

#[test]
fn assignment_result_success() {
    let ok = AssignmentResult::Assigned { task: TaskId::new(1), settler: SettlerId::new(2) };
    assert!(ok.is_success());
}

#[test]
fn work_priorities_allow_undoes_forbid() {
    let mut p = WorkPriorities::new();
    p.forbid(TaskCategory::Research);
    p.allow(TaskCategory::Research);
    assert!(!p.is_forbidden(TaskCategory::Research));
    p.set_priority(TaskCategory::Research, -4);
    p.set_priority(TaskCategory::Research, 7);
    assert_eq!(p.get_priority(TaskCategory::Research), 7);
}

#[test]
fn task_def_registry_replaces_same_id() {
    let mut registry = TaskDefRegistry::new();
    registry.register(TaskDef::new(presets::mine_rock(), "Mine", TaskCategory::Production));
    registry.register(TaskDef::new(presets::mine_rock(), "Mine again", TaskCategory::Construction));
    assert_eq!(registry.count(), 1);
    assert_eq!(registry.get(&presets::mine_rock()).unwrap().name, "Mine again");
    assert!(registry.remove(&presets::mine_rock()).is_some());
    assert!(!registry.contains(&presets::mine_rock()));
    assert!(registry.remove(&presets::mine_rock()).is_none());
}

#[test]
fn task_def_registry_iterates_in_id_order() {
    let mut registry = TaskDefRegistry::new();
    for def in presets::standard_task_defs() {
        registry.register(def);
    }
    let ids: Vec<String> = registry.iter().iter().map(|d| d.id.as_str().to_string()).collect();
    let mut sorted = ids.clone();
    sorted.sort();
    assert_eq!(ids, sorted);
    let miners = registry.requiring_capability(&cap::mining());
    assert!(miners.iter().all(|d| d.requires_capability(&cap::mining())));
    assert!(!miners.is_empty());
}

#[test]
fn registries_hand_out_fresh_ids() {
    let mut settlers = SettlerRegistry::new();
    let a = settlers.create("A", 0);
    settlers.register(Settler::new(SettlerId::new(10), "J", 0));
    let b = settlers.create("B", 3);
    assert_eq!(a, SettlerId::new(0));
    assert_eq!(b, SettlerId::new(11));
    assert_eq!(settlers.count(), 3);
    assert_eq!(settlers.get(b).unwrap().created_tick, 3);
    assert!(settlers.remove(SettlerId::new(10)).is_some());
    assert!(!settlers.contains(SettlerId::new(10)));
    assert_eq!(settlers.by_status(SettlerStatus::Idle).len(), 2);

    let mut tasks = TaskRegistry::new();
    let t = tasks.create(presets::mine_rock(), 150, 2);
    assert_eq!(t, TaskId::new(0));
    assert_eq!(tasks.pending().len(), 1);
    assert_eq!(tasks.active().len(), 0);
    assert_eq!(tasks.get(t).unwrap().created_tick, 2);
}

#[test]
fn registry_by_category_lists_each_once_in_identifier_order() {
    let mut registry = TaskDefRegistry::new();
    for def in presets::standard_task_defs() {
        registry.register(def);
    }
    let names: Vec<&str> =
        registry.by_category(TaskCategory::Production).iter().map(|d| d.id.0.as_str()).collect();
    assert_eq!(names, vec!["cook_meal", "harvest_crop", "mine_rock", "plant_crop"]);
}

#[test]
fn registering_again_replaces_without_growing() {
    let mut registry = TaskDefRegistry::new();
    registry.register(TaskDef::new(presets::mine_rock(), "Mine", TaskCategory::Production));
    registry.register(TaskDef::new(presets::haul_item(), "Haul", TaskCategory::Hauling));
    assert_eq!(registry.count(), 2);
    registry.register(TaskDef::new(presets::mine_rock(), "Quarry", TaskCategory::Construction));
    assert_eq!(registry.count(), 2);
    let def = registry.get(&presets::mine_rock()).unwrap();
    assert_eq!(def.name, "Quarry");
    assert_eq!(def.category, TaskCategory::Construction);
    assert_eq!(registry.get(&presets::haul_item()).unwrap().name, "Haul");
    assert!(registry.remove(&presets::haul_item()).is_some());
    assert_eq!(registry.count(), 1);
    assert!(registry.remove(&presets::haul_item()).is_none());
    assert_eq!(registry.count(), 1);
}
