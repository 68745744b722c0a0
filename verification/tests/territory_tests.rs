use lattice_engine::territory_pressure::{
    CollapseReason, ContestedFrontId, ExpansionFailureReason, FrontState, NestFingerprint, NestId, NestKind,
    NestStage, NestStageTransition, PressureFingerprint, PressureKind, PressureSourceId, PressureTrend,
};

#[test]
fn test_pressure_source_id() {
    let id = PressureSourceId::new("pop_forest");
    assert_eq!(id.as_str(), "pop_forest");
    assert_eq!(id.to_string(), "pop_forest");
}

#[test]
fn test_contested_front_id() {
    let id = ContestedFrontId::new(42);
    assert_eq!(id.raw(), 42);
    assert_eq!(id.to_string(), "front:42");
}

#[test]
fn test_front_state_active() {
    assert!(FrontState::Forming.is_active());
    assert!(FrontState::Active.is_active());
    assert!(!FrontState::Resolved.is_active());
    assert!(FrontState::Resolved.is_finished());
}

#[test]
fn test_pressure_fingerprint() {
    let fp = PressureFingerprint(0xCAFE_BABE);
    assert_eq!(fp.raw(), 0xCAFE_BABE);
    assert_eq!(fp.to_string(), "pressure:cafebabe");
}

#[test]
fn test_nest_id() {
    let id = NestId::new("colony_alpha");
    assert_eq!(id.as_str(), "colony_alpha");
    assert_eq!(id.to_string(), "nest:colony_alpha");
}

#[test]
fn test_nest_stage_transition() {
    let transition = NestStageTransition {
        nest_id: NestId::new("colony_1"),
        from: NestStage::Growing,
        to: NestStage::Mature,
        tick: 100,
    };

    assert_eq!(transition.from, NestStage::Growing);
    assert_eq!(transition.to, NestStage::Mature);
}

#[test]
fn test_nest_fingerprint() {
    let fp = NestFingerprint(0xDEAD_BEEF);
    assert_eq!(fp.raw(), 0xDEAD_BEEF);
    assert_eq!(fp.to_string(), "nest:deadbeef");
}

#[test]
fn fingerprints_are_zero_padded() {
    assert_eq!(NestFingerprint(0x1f).to_string(), "nest:0000001f");
    assert_eq!(PressureFingerprint(0).to_string(), "pressure:00000000");
    assert_eq!(ContestedFrontId::new(0).to_string(), "front:0");
    assert_eq!(ContestedFrontId::new(u64::MAX).to_string(), "front:18446744073709551615");
}

#[test]
fn nest_kind_capacities() {
    assert_eq!(NestKind::Colony.base_capacity(), 500);
    assert_eq!(NestKind::Hive.base_capacity(), 1000);
    assert_eq!(NestKind::Den.base_capacity(), 20);
    assert_eq!(NestKind::Burrow.base_capacity(), 50);
    assert_eq!(NestKind::Mound.base_capacity(), 200);
    assert_eq!(NestKind::Cluster.base_capacity(), 100);
    assert_eq!(NestKind::Aquatic.base_capacity(), 150);
    assert!(NestKind::Hive.base_capacity() > NestKind::Den.base_capacity());
}

#[test]
fn nest_stage_predicates() {
    assert!(NestStage::Founding.is_active());
    assert!(NestStage::Metamorphosis.is_active());
    assert!(!NestStage::Declining.is_active());
    assert!(!NestStage::Collapsed.is_active());
    assert!(NestStage::Mature.can_expand());
    assert!(NestStage::Growing.can_expand());
    assert!(!NestStage::Declining.can_expand());
    assert!(NestStage::Collapsed.is_terminal());
    assert!(!NestStage::Mature.is_terminal());
}

#[test]
fn territory_defaults() {
    assert_eq!(PressureKind::default(), PressureKind::Population);
    assert_eq!(FrontState::default(), FrontState::Forming);
    assert_eq!(PressureTrend::default(), PressureTrend::Stable);
    assert_eq!(NestKind::default(), NestKind::Colony);
    assert_eq!(NestStage::default(), NestStage::Founding);
    assert!(!FrontState::Stalemate.is_active());
    assert!(!FrontState::Stalemate.is_finished());
    assert_ne!(ExpansionFailureReason::BlockedByFront, ExpansionFailureReason::CompetitorPresent);
    assert_ne!(CollapseReason::Overrun, CollapseReason::Abandoned);
}
