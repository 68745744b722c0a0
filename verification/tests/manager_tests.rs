use std::hash::{Hash, Hasher};
use lattice_engine::settler::capability_presets;
use lattice_engine::settler::task_def_presets;
use lattice_engine::settler::{
    CapabilityId, RegionId, SettlerEventKind, SettlerId, SettlerManager, SettlerManagerConfig, SettlerStatus, SettlerTickResult,
    TaskCategory, TaskDef, TaskId, TaskStatus,
};

fn setup_manager() -> SettlerManager {
    let mut manager = SettlerManager::new(SettlerManagerConfig::default());
    for def in task_def_presets::standard_task_defs() {
        manager.register_task_def(def);
    }
    manager
}

fn create_skilled(manager: &mut SettlerManager, name: &str, capabilities: Vec<CapabilityId>) -> SettlerId {
    let id = manager.create_settler(name);
    manager.set_settler_capabilities(id, capabilities);
    id
}

fn create_miner(manager: &mut SettlerManager, name: &str) -> SettlerId {
    create_skilled(manager, name, vec![capability_presets::mining()])
}

fn create_hauler(manager: &mut SettlerManager, name: &str) -> SettlerId {
    create_skilled(manager, name, vec![capability_presets::hauling()])
}

#[test]
fn test_manager_creation() {
    let manager = setup_manager();
    assert_eq!(manager.current_tick(), 0);
    assert_eq!(manager.settlers().count(), 0);
    assert_eq!(manager.tasks().count(), 0);
}

#[test]
fn test_settler_creation_events() {
    let mut manager = setup_manager();
    let id = manager.create_settler("Alice");

    assert!(manager.settlers().contains(id));
    assert_eq!(manager.event_history().len(), 1);
    assert!(matches!(manager.event_history()[0].kind, SettlerEventKind::SettlerCreated { .. }));
}

#[test]
fn test_manager_task_creation() {
    let mut manager = setup_manager();
    let task_id = manager.create_task(task_def_presets::mine_rock(), Some(RegionId::new(1))).unwrap();

    let task = manager.tasks().get(task_id).unwrap();
    assert_eq!(task.region, Some(RegionId::new(1)));
    assert_eq!(task.status, TaskStatus::Pending);
}

#[test]
fn test_task_failure_and_cancellation() {
    let mut manager = setup_manager();
    let task_id = manager.create_task(task_def_presets::mine_rock(), None).unwrap();

    manager.cancel_task(task_id, "Testing cancellation");

    let task = manager.tasks().get(task_id).unwrap();
    assert_eq!(task.status, TaskStatus::Cancelled);
}

#[test]
fn test_settler_recovery() {
    let mut manager = setup_manager();
    let miner = manager.create_settler("Miner");

    manager.incapacitate_settler(miner);
    manager.recover_settler(miner);

    let settler = manager.settlers().get(miner).unwrap();
    assert_eq!(settler.status, SettlerStatus::Idle);
}

#[test]
fn test_reservation_system() {
    let mut manager = setup_manager();
    let miner = manager.create_settler("Miner");
    let task_id = manager.create_task(task_def_presets::mine_rock(), None).unwrap();

    assert!(manager.reserve_task(task_id, miner));
    assert!(manager.reservations().has_reservation(task_id, miner));

    let settler = manager.settlers().get(miner).unwrap();
    assert!(settler.has_reservation(task_id));

    manager.release_reservation(task_id, miner);
    assert!(!manager.reservations().has_reservation(task_id, miner));
}

#[test]
fn test_task_registry_queries() {
    let mut manager = setup_manager();

    manager.create_task(task_def_presets::mine_rock(), Some(RegionId::new(1)));
    manager.create_task(task_def_presets::mine_rock(), Some(RegionId::new(1)));
    manager.create_task(task_def_presets::haul_item(), Some(RegionId::new(2)));

    let region1_tasks = manager.tasks().in_region(RegionId::new(1));
    assert_eq!(region1_tasks.len(), 2);

    let mine_rock_id = task_def_presets::mine_rock();
    let mine_tasks = manager.tasks().by_def(&mine_rock_id);
    assert_eq!(mine_tasks.len(), 2);
}

#[test]
fn ids_are_handed_out_in_order() {
    let mut manager = setup_manager();
    let a = manager.create_settler("A");
    let b = manager.create_settler("B");
    assert_eq!(a, SettlerId::new(0));
    assert_eq!(b, SettlerId::new(1));
    let t0 = manager.create_task(task_def_presets::mine_rock(), None).unwrap();
    let t1 = manager.create_task(task_def_presets::haul_item(), None).unwrap();
    assert_eq!(t0, TaskId::new(0));
    assert_eq!(t1, TaskId::new(1));
    assert_eq!(manager.tasks().get(t0).unwrap().work_required, 150);
}

#[test]
fn unknown_definition_creates_nothing() {
    let mut manager = setup_manager();
    let missing = lattice_engine::settler::TaskDefId::new("no_such_def");
    assert!(manager.create_task(missing, None).is_none());
    assert_eq!(manager.tasks().count(), 0);
    assert_eq!(manager.event_history().len(), 0);
}

#[test]
fn reserve_needs_both_parties() {
    let mut manager = setup_manager();
    let s = manager.create_settler("S");
    assert!(!manager.reserve_task(TaskId::new(9), s));
    let t = manager.create_task(task_def_presets::mine_rock(), None).unwrap();
    assert!(!manager.reserve_task(t, SettlerId::new(77)));
    assert_eq!(manager.reservations().reservation_count_for_task(t), 0);
}

#[test]
fn assignment_round_is_greedy_and_exclusive() {
    let mut manager = setup_manager();
    let s0 = create_miner(&mut manager, "S0");
    let s1 = create_hauler(&mut manager, "S1");
    let t0 = manager.create_task(task_def_presets::mine_rock(), None).unwrap();
    let t1 = manager.create_task(task_def_presets::haul_item(), None).unwrap();
    manager.reserve_task(t0, s0);

    let mut result = manager.advance_tick();
    let candidates = vec![(t0, s0), (t0, s1), (t1, s0), (t1, s1)];
    manager.apply_assignments(&candidates, &mut result);

    assert_eq!(result.assignments_made, 2);
    assert_eq!(result.events.len(), 2);
    assert!(manager.tasks().get(t0).unwrap().has_worker(s0));
    assert!(manager.tasks().get(t1).unwrap().has_worker(s1));
    assert_eq!(manager.tasks().get(t0).unwrap().status, TaskStatus::Claimed);
    assert_eq!(manager.tasks().get(t0).unwrap().started_tick, Some(1));
    assert_eq!(manager.settlers().get(s0).unwrap().current_task, Some(t0));
    assert_eq!(manager.settlers().get(s1).unwrap().status, SettlerStatus::Working);
    assert!(!manager.reservations().has_reservation(t0, s0));
}

#[test]
fn blocked_and_busy_candidates_are_skipped() {
    let mut manager = setup_manager();
    let s0 = create_skilled(&mut manager, "S0", vec![capability_presets::mining(), capability_presets::hauling()]);
    let t0 = manager.create_task(task_def_presets::mine_rock(), None).unwrap();
    let t1 = manager.create_task(task_def_presets::mine_rock(), None).unwrap();
    manager.add_dependency(t1, t0);

    let mut result = manager.advance_tick();
    manager.apply_assignments(&[(t1, s0)], &mut result);
    assert_eq!(result.assignments_made, 0);
    manager.apply_assignments(&[(t0, s0)], &mut result);
    assert_eq!(result.assignments_made, 1);
    // The settler is busy now: a second round gives it nothing.
    let t2 = manager.create_task(task_def_presets::haul_item(), None).unwrap();
    manager.apply_assignments(&[(t2, s0)], &mut result);
    assert_eq!(result.assignments_made, 1);
}

#[test]
fn work_completes_task_and_unblocks_dependent() {
    let mut manager = setup_manager();
    let s0 = create_miner(&mut manager, "S0");
    let t0 = manager.create_task(task_def_presets::mine_rock(), None).unwrap();
    let t1 = manager.create_task(task_def_presets::mine_rock(), None).unwrap();
    manager.add_dependency(t1, t0);

    let mut result = manager.advance_tick();
    manager.apply_assignments(&[(t0, s0)], &mut result);
    assert_eq!(manager.working_pairs(), vec![(s0, t0)]);

    assert_eq!(manager.apply_work(s0, t0, 100, &mut result), Some(false));
    assert_eq!(manager.tasks().get(t0).unwrap().status, TaskStatus::InProgress);
    assert_eq!(manager.tasks().get(t0).unwrap().work_done, 100);
    assert_eq!(manager.apply_work(s0, t0, 60, &mut result), Some(true));
    let done = manager.tasks().get(t0).unwrap();
    assert_eq!(done.status, TaskStatus::Completed);
    assert_eq!(done.work_done, 150);
    assert_eq!(manager.settlers().get(s0).unwrap().current_task, None);
    assert_eq!(manager.settlers().get(s0).unwrap().status, SettlerStatus::Idle);
    assert_eq!(manager.settlers().get(s0).unwrap().total_work_done, 160);
    assert_eq!(manager.settlers().get(s0).unwrap().tasks_completed, 1);
    assert_eq!(result.work_performed, 160);
    assert_eq!(result.tasks_completed, 1);
    assert_eq!(manager.total_counts(), (160, 1, 0));
    // claimed, started, progress, progress, completed
    assert_eq!(result.events.len(), 5);
    assert!(matches!(
        result.events[4].kind,
        SettlerEventKind::TaskCompleted { duration_ticks: 0, .. }
    ));

    let next = manager.advance_tick();
    assert!(!manager.tasks().get(t1).unwrap().is_blocked());
    assert_eq!(next.events.len(), 1);
    assert!(matches!(next.events[0].kind, SettlerEventKind::TaskUnblocked { task } if task == t1));
    assert_eq!(manager.current_tick(), 2);
}

#[test]
fn work_on_unknown_pair_does_nothing() {
    let mut manager = setup_manager();
    let s0 = manager.create_settler("S0");
    let mut result = SettlerTickResult::new();
    assert_eq!(manager.apply_work(s0, TaskId::new(4), 10, &mut result), None);
    assert_eq!(result.work_performed, 0);
    assert_eq!(manager.total_counts(), (0, 0, 0));
}

#[test]
fn cancellation_frees_workers_and_reservations() {
    let mut manager = setup_manager();
    let s0 = create_miner(&mut manager, "S0");
    let s1 = manager.create_settler("S1");
    let t0 = manager.create_task(task_def_presets::mine_rock(), None).unwrap();
    manager.reserve_task(t0, s1);
    let mut result = manager.advance_tick();
    manager.apply_assignments(&[(t0, s0)], &mut result);

    manager.cancel_task(t0, "no longer needed");
    let task = manager.tasks().get(t0).unwrap();
    assert_eq!(task.status, TaskStatus::Cancelled);
    assert_eq!(task.completed_tick, Some(1));
    assert_eq!(manager.settlers().get(s0).unwrap().current_task, None);
    assert_eq!(manager.settlers().get(s0).unwrap().status, SettlerStatus::Idle);
    assert_eq!(manager.reservations().reservation_count_for_task(t0), 0);
    assert_eq!(manager.total_counts().2, 1);
    let last = manager.event_history().last().unwrap();
    assert!(matches!(&last.kind, SettlerEventKind::TaskCancelled { task, reason } if *task == t0 && reason == "no longer needed"));
    // Cancelling an unknown task changes nothing.
    manager.cancel_task(TaskId::new(99), "x");
    assert_eq!(manager.total_counts().2, 1);
}

#[test]
fn incapacitation_releases_task() {
    let mut manager = setup_manager();
    let miner = create_miner(&mut manager, "Miner");
    let task_id = manager.create_task(task_def_presets::mine_rock(), None).unwrap();
    let other = manager.create_task(task_def_presets::haul_item(), None).unwrap();
    manager.reserve_task(other, miner);
    let mut result = manager.advance_tick();
    manager.apply_assignments(&[(task_id, miner)], &mut result);

    manager.incapacitate_settler(miner);

    let settler = manager.settlers().get(miner).unwrap();
    assert_eq!(settler.status, SettlerStatus::Incapacitated);
    assert!(settler.current_task.is_none());
    assert!(settler.reserved_tasks.is_empty());
    let task = manager.tasks().get(task_id).unwrap();
    assert!(!task.has_worker(miner));
    assert_eq!(task.status, TaskStatus::Pending);
    assert_eq!(manager.reservations().reservation_count_for_settler(miner), 0);
    let last = manager.event_history().last().unwrap();
    assert!(matches!(
        last.kind,
        SettlerEventKind::SettlerIncapacitated { settler, dropped_task: Some(t) } if settler == miner && t == task_id
    ));
}

#[test]
fn snapshot_counts_by_status_and_category() {
    let mut manager = setup_manager();
    let s0 = create_miner(&mut manager, "S0");
    manager.create_settler("S1");
    let s2 = manager.create_settler("S2");
    let t0 = manager.create_task(task_def_presets::mine_rock(), None).unwrap();
    manager.create_task(task_def_presets::haul_item(), None).unwrap();
    let t2 = manager.create_task(task_def_presets::mine_rock(), None).unwrap();
    manager.incapacitate_settler(s2);
    let mut result = manager.advance_tick();
    manager.apply_assignments(&[(t0, s0)], &mut result);
    manager.cancel_task(t2, "gone");

    let snap = manager.snapshot();
    assert_eq!(snap.tick, 1);
    assert_eq!(snap.total_settlers, 3);
    assert_eq!(snap.idle_settlers, 1);
    assert_eq!(snap.working_settlers, 1);
    assert_eq!(snap.incapacitated_settlers, 1);
    assert_eq!(snap.total_tasks, 3);
    assert_eq!(snap.pending_tasks, 1);
    assert_eq!(snap.in_progress_tasks, 1);
    assert_eq!(snap.failed_tasks, 1);
    assert_eq!(snap.completed_tasks, 0);
    assert_eq!(snap.tasks_by_category, vec![(TaskCategory::Production, 2), (TaskCategory::Hauling, 1)]);
}

#[test]
fn event_history_trims_to_limit_and_filters() {
    let config = SettlerManagerConfig::default().with_max_event_history(2);
    let mut manager = SettlerManager::new(config);
    manager.register_task_def(TaskDef::new(task_def_presets::mine_rock(), "Mine", TaskCategory::Production));
    let a = manager.create_settler("A");
    let t = manager.create_task(task_def_presets::mine_rock(), None).unwrap();
    let b = manager.create_settler("B");
    assert_eq!(manager.event_history().len(), 3);
    assert_eq!(manager.events_for_task(t).len(), 1);
    assert_eq!(manager.events_for_settler(a).len(), 1);
    manager.trim_event_history();
    assert_eq!(manager.event_history().len(), 2);
    assert!(matches!(manager.event_history()[1].kind, SettlerEventKind::SettlerCreated { settler, .. } if settler == b));
    assert_eq!(manager.events_for_settler(a).len(), 0);
}

#[test]
fn no_events_when_not_tracking() {
    let mut config = SettlerManagerConfig::new();
    config.track_event_history = false;
    let mut manager = SettlerManager::new(config);
    manager.create_settler("Quiet");
    assert!(manager.event_history().is_empty());
}

#[test]
fn tick_results_merge() {
    let mut a = SettlerTickResult::new();
    a.assignments_made = 2;
    a.work_performed = 5;
    let mut b = SettlerTickResult::new();
    b.tasks_completed = 1;
    b.work_performed = 7;
    a.merge(b);
    assert_eq!(a.assignments_made, 2);
    assert_eq!(a.tasks_completed, 1);
    assert_eq!(a.work_performed, 12);
}

#[test]
fn capability_match_decides_round() {
    let mut manager = setup_manager();
    let miner = create_miner(&mut manager, "Miner");
    let hauler = create_hauler(&mut manager, "Hauler");
    let mine_task = manager.create_task(task_def_presets::mine_rock(), None).unwrap();
    let haul_task = manager.create_task(task_def_presets::haul_item(), None).unwrap();

    let mut result = manager.advance_tick();
    // The hauler cannot mine and the miner cannot haul: those pairings are refused.
    let candidates = vec![(mine_task, hauler), (haul_task, miner), (mine_task, miner), (haul_task, hauler)];
    manager.apply_assignments(&candidates, &mut result);

    assert_eq!(result.assignments_made, 2);
    assert!(manager.tasks().get(mine_task).unwrap().has_worker(miner));
    assert!(manager.tasks().get(haul_task).unwrap().has_worker(hauler));
}

#[test]
fn forbidden_category_is_refused() {
    let mut manager = setup_manager();
    let miner = create_miner(&mut manager, "Miner");
    let task = manager.create_task(task_def_presets::mine_rock(), None).unwrap();
    let mut priorities = manager.settlers().get(miner).unwrap().work_priorities.clone();
    priorities.forbid(TaskCategory::Production);
    manager.set_settler_work_priorities(miner, priorities);
    assert!(manager.settlers().get(miner).unwrap().work_priorities.is_forbidden(TaskCategory::Production));

    let mut result = manager.advance_tick();
    manager.apply_assignments(&[(task, miner)], &mut result);
    assert_eq!(result.assignments_made, 0);
    assert_eq!(manager.tasks().get(task).unwrap().status, TaskStatus::Pending);
}

#[test]
fn settler_capability_queries() {
    let mut manager = setup_manager();
    let miner = create_miner(&mut manager, "Miner");
    let settler = manager.settlers().get(miner).unwrap();
    assert!(settler.has_capability(&capability_presets::mining()));
    assert!(!settler.has_capability(&capability_presets::hauling()));
    assert!(settler.can_perform(&[capability_presets::mining()]));
    assert!(settler.can_perform(&[]));
    assert!(!settler.can_perform(&[capability_presets::mining(), capability_presets::hauling()]));
}

#[test]
fn capability_match_can_be_switched_off() {
    let mut manager = SettlerManager::new(SettlerManagerConfig::default().with_capability_match(false));
    for def in task_def_presets::standard_task_defs() {
        manager.register_task_def(def);
    }
    let untrained = manager.create_settler("Untrained");
    let task = manager.create_task(task_def_presets::mine_rock(), None).unwrap();
    let mut result = manager.advance_tick();
    manager.apply_assignments(&[(task, untrained)], &mut result);
    assert_eq!(result.assignments_made, 1);
    assert!(manager.tasks().get(task).unwrap().has_worker(untrained));
}

#[test]
fn round_pairs_no_more_than_there_are_tasks() {
    let mut manager = setup_manager();
    let a = create_miner(&mut manager, "A");
    let b = create_miner(&mut manager, "B");
    let c = create_miner(&mut manager, "C");
    let task = manager.create_task(task_def_presets::mine_rock(), None).unwrap();
    let mut result = manager.advance_tick();
    manager.apply_assignments(&[(task, a), (task, b), (task, c)], &mut result);
    assert_eq!(result.assignments_made, 1);
    assert!(result.assignments_made as usize <= manager.tasks().count());
    assert!(manager.tasks().get(task).unwrap().has_worker(a));
}

#[test]
fn capabilities_of_unknown_settler_change_nothing() {
    let mut manager = setup_manager();
    let known = create_miner(&mut manager, "Known");
    manager.set_settler_capabilities(SettlerId::new(42), vec![capability_presets::hauling()]);
    assert_eq!(manager.settlers().count(), 1);
    assert!(!manager.settlers().get(known).unwrap().has_capability(&capability_presets::hauling()));
    manager.set_settler_capabilities(known, vec![]);
    assert!(!manager.settlers().get(known).unwrap().has_capability(&capability_presets::mining()));
}

#[test]
fn can_pair_tells_which_pairings_a_round_accepts() {
    let mut manager = setup_manager();
    let miner = create_miner(&mut manager, "Miner");
    let hauler = create_hauler(&mut manager, "Hauler");
    let mine_task = manager.create_task(task_def_presets::mine_rock(), None).unwrap();
    assert!(manager.can_pair(mine_task, miner));
    assert!(!manager.can_pair(mine_task, hauler));
    assert!(!manager.can_pair(TaskId::new(99), miner));
    assert!(!manager.can_pair(mine_task, SettlerId::new(99)));
    let mut result = manager.advance_tick();
    manager.apply_assignments(&[(mine_task, miner)], &mut result);
    // The settler is busy and the task is at its worker limit.
    assert!(!manager.can_pair(mine_task, miner));
}

fn one_round(manager: &mut SettlerManager, pairs: &[(TaskId, SettlerId)]) {
    let mut result = manager.advance_tick();
    manager.apply_assignments(pairs, &mut result);
}

#[test]
fn test_fingerprint_determinism() {
    let mut manager1 = setup_manager();
    let mut manager2 = setup_manager();

    let m1_settler = create_miner(&mut manager1, "Miner");
    let m2_settler = create_miner(&mut manager2, "Miner");

    let t1 = manager1.create_task(task_def_presets::mine_rock(), None).unwrap();
    let t2 = manager2.create_task(task_def_presets::mine_rock(), None).unwrap();

    one_round(&mut manager1, &[(t1, m1_settler)]);
    one_round(&mut manager2, &[(t2, m2_settler)]);

    let fp1 = manager1.fingerprint();
    let fp2 = manager2.fingerprint();

    assert_eq!(fp1, fp2);
}

#[test]
fn test_fingerprint_changes() {
    let mut manager = setup_manager();
    let miner = create_miner(&mut manager, "Miner");
    let task = manager.create_task(task_def_presets::mine_rock(), None).unwrap();

    let fp_before = manager.fingerprint();
    one_round(&mut manager, &[(task, miner)]);
    let fp_after = manager.fingerprint();

    assert_ne!(fp_before, fp_after);
}

#[test]
fn fingerprint_hashes_what_the_derived_hashes_write() {
    let mut manager = setup_manager();
    let miner = create_miner(&mut manager, "Miner");
    create_hauler(&mut manager, "Hauler");
    let task = manager.create_task(task_def_presets::mine_rock(), None).unwrap();
    manager.create_task(task_def_presets::haul_item(), None).unwrap();
    one_round(&mut manager, &[(task, miner)]);
    let mut result = SettlerTickResult::new();
    manager.apply_work(miner, task, 30, &mut result);

    let mut hasher = std::collections::hash_map::DefaultHasher::new();
    let (work, completed, failed) = manager.total_counts();
    manager.current_tick().hash(&mut hasher);
    work.hash(&mut hasher);
    completed.hash(&mut hasher);
    failed.hash(&mut hasher);
    for s in manager.settlers().iter() {
        s.id.0.hash(&mut hasher);
        s.status.hash(&mut hasher);
        s.current_task.map(|t| t.0).hash(&mut hasher);
    }
    for t in manager.tasks().iter() {
        t.id.0.hash(&mut hasher);
        t.status.hash(&mut hasher);
        t.work_done.hash(&mut hasher);
        t.work_required.hash(&mut hasher);
    }
    assert_eq!(manager.fingerprint().0, hasher.finish() as u32);
}
