use lattice_engine::social::{
    BetrayalFingerprint, BetrayalId, BetrayalIncident, BetrayalKind, BetrayalResolution, BetrayalSeverity,
    BetrayalStatus, BetrayalTracker, DiplomacyFingerprint, DiplomacyTracker, DiplomaticRelation, DiplomacyId, DiplomaticStance, MoraleFingerprint, PanicCascade, PanicEvent, PanicEventStatus, PanicSource, PanicTracker,
    PanicFingerprint, PanicId, SocialAgentId, SocialFactionId, SocialFingerprint, SocialGroupId, SocialTrend,
    StanceCounts, Treaty, TreatyId, TreatyKind, TreatyStatus,
};

#[test]
fn test_incident_lifecycle() {
    let mut incident = BetrayalIncident::new(
        BetrayalId::new(1),
        SocialAgentId::new(1),
        SocialFactionId::new("empire"),
        BetrayalKind::Defection,
    );

    assert!(incident.is_active());
    assert_eq!(incident.status, BetrayalStatus::Plotting);

    incident.execute();
    assert_eq!(incident.status, BetrayalStatus::InProgress);

    incident.detect(100);
    assert_eq!(incident.status, BetrayalStatus::Detected);
    assert_eq!(incident.detected_tick, Some(100));

    incident.resolve(BetrayalResolution::Prevented, 110);
    assert!(!incident.is_active());
}

#[test]
fn test_diplomatic_stance() {
    assert!(DiplomaticStance::War.allows_combat());
    assert!(!DiplomaticStance::War.allows_passage());
    assert!(DiplomaticStance::Neutral.allows_passage());
    assert!(DiplomaticStance::Allied.allows_trade());
    assert!(DiplomaticStance::Friendly.is_positive());
    assert!(DiplomaticStance::Hostile.is_negative());
}

#[test]
fn test_stance_value_conversion() {
    for stance in [
        DiplomaticStance::War,
        DiplomaticStance::Hostile,
        DiplomaticStance::Unfriendly,
        DiplomaticStance::Neutral,
        DiplomaticStance::Cordial,
        DiplomaticStance::Friendly,
        DiplomaticStance::Allied,
    ] {
        let value = stance.as_value();
        let restored = DiplomaticStance::from_value(value);
        assert_eq!(stance, restored);
    }
}

#[test]
fn test_treaty_lifecycle() {
    let treaty = Treaty::new(
        TreatyId::new(1),
        TreatyKind::NonAggression,
        vec![SocialFactionId::new("empire"), SocialFactionId::new("federation")],
        100,
    )
    .with_duration(500);

    assert!(treaty.is_active());
    assert!(!treaty.is_expired(200));
    assert!(treaty.is_expired(600));
}

#[test]
fn test_fingerprint_raw() {
    let fp = SocialFingerprint(0x1234_5678);
    assert_eq!(fp.raw(), 0x1234_5678);
}

#[test]
fn test_fingerprint_matches() {
    let fp1 = SocialFingerprint(100);
    let fp2 = SocialFingerprint(100);
    let fp3 = SocialFingerprint(200);

    assert!(fp1.matches(&fp2));
    assert!(!fp1.matches(&fp3));
}

#[test]
fn test_fingerprint_display() {
    let fp = SocialFingerprint(0xdead_beef);
    assert_eq!(fp.to_string(), "social:deadbeef");
}

#[test]
fn test_fingerprint_from_components() {
    let fp1 = SocialFingerprint::from_components(100, 200, 300, 400, 0);
    let fp2 = SocialFingerprint::from_components(100, 200, 300, 400, 0);
    let fp3 = SocialFingerprint::from_components(100, 200, 300, 401, 0);

    assert!(fp1.matches(&fp2));
    assert!(!fp1.matches(&fp3));
}

#[test]
fn test_fingerprint_combine() {
    let fps = vec![SocialFingerprint(100), SocialFingerprint(200), SocialFingerprint(300)];

    let combined1 = SocialFingerprint::combine(&fps);
    let combined2 = SocialFingerprint::combine(&fps);

    assert!(combined1.matches(&combined2));
}

#[test]
fn test_social_agent_id() {
    let id = SocialAgentId::new(42);
    assert_eq!(id.raw(), 42);
    assert_eq!(id.to_string(), "social_agent:42");
}

#[test]
fn test_social_faction_id() {
    let id = SocialFactionId::new("empire");
    assert_eq!(id.as_str(), "empire");
    assert_eq!(id.to_string(), "social_faction:empire");
}

#[test]
fn test_social_group_id() {
    let id = SocialGroupId::new(7);
    assert_eq!(id.raw(), 7);
    assert_eq!(id.to_string(), "social_group:7");
}

#[test]
fn test_betrayal_id() {
    let id = BetrayalId::new(99);
    assert_eq!(id.raw(), 99);
    assert_eq!(id.to_string(), "betrayal:99");
}

#[test]
fn test_diplomacy_id() {
    let id = DiplomacyId::new(15);
    assert_eq!(id.raw(), 15);
    assert_eq!(id.to_string(), "diplomacy:15");
}

#[test]
fn test_panic_id() {
    let id = PanicId::new(33);
    assert_eq!(id.raw(), 33);
    assert_eq!(id.to_string(), "panic:33");
}

#[test]
fn test_id_ordering() {
    let id1 = SocialAgentId::new(1);
    let id2 = SocialAgentId::new(2);
    assert!(id1 < id2);
}

#[test]
fn test_social_trend_classification() {
    assert!(SocialTrend::Improving.is_positive());
    assert!(SocialTrend::Deteriorating.is_negative());
    assert!(SocialTrend::Critical.is_negative());
    assert!(!SocialTrend::Stable.is_negative());
}

#[test]
fn test_social_trend_default() {
    assert_eq!(SocialTrend::default(), SocialTrend::Stable);
}

#[test]
fn test_stance_counts() {
    let mut counts = StanceCounts::default();
    counts.add_stance(DiplomaticStance::War);
    counts.add_stance(DiplomaticStance::Allied);
    counts.add_stance(DiplomaticStance::Allied);

    assert_eq!(counts.negative_count(), 1);
    assert_eq!(counts.positive_count(), 2);
}

#[test]
fn fingerprint_values_are_fnv1a_folded() {
    assert_eq!(SocialFingerprint::from_components(100, 200, 300, 400, 0).raw(), 0x0340_d33b);
    assert_eq!(SocialFingerprint::from_components(100, 200, 300, 401, 0).raw(), 0xc702_5846);
    let fps = vec![SocialFingerprint(100), SocialFingerprint(200), SocialFingerprint(300)];
    assert_eq!(SocialFingerprint::combine(&fps).raw(), 0x508b_9692);
    assert_eq!(SocialFingerprint::combine(&[]).raw(), 0x4fd0_bfc1);
    assert_eq!(MoraleFingerprint::from_checksum(7, 5).raw(), 0x5b71_a3e5);
    assert_eq!(PanicFingerprint::from_checksum(7, 5).raw(), 0x5b71_a3e5);
    assert_eq!(BetrayalFingerprint::from_checksum(7, 5).raw(), 0x5b71_a3e5);
    assert_eq!(DiplomacyFingerprint::from_checksum(7, 5).raw(), 0x5b71_a3e5);
}

#[test]
fn subsystem_fingerprint_text() {
    assert_eq!(MoraleFingerprint(0xab).to_string(), "morale:000000ab");
    assert_eq!(PanicFingerprint(1).to_string(), "panic:00000001");
    assert_eq!(BetrayalFingerprint(0xffff_ffff).to_string(), "betrayal:ffffffff");
    assert_eq!(DiplomacyFingerprint(0x10).to_string(), "diplomacy:00000010");
}

#[test]
fn treaty_checksum_is_crc32_of_its_fields() {
    let treaty = Treaty::new(
        TreatyId::new(1),
        TreatyKind::NonAggression,
        vec![SocialFactionId::new("empire"), SocialFactionId::new("federation")],
        100,
    );
    assert_eq!(treaty.checksum(), 0x9f45_15a3);
    let later = Treaty::new(TreatyId::new(1), TreatyKind::NonAggression, vec![], 100);
    assert_ne!(later.checksum(), treaty.checksum());
}

#[test]
fn incident_checksum_is_crc32_of_its_fields() {
    let incident = BetrayalIncident::new(
        BetrayalId::new(1),
        SocialAgentId::new(1),
        SocialFactionId::new("empire"),
        BetrayalKind::Defection,
    );
    assert_eq!(incident.checksum(), 0xda81_1e64);
    let worse = incident.clone().with_severity(BetrayalSeverity::Catastrophic);
    assert_eq!(worse.checksum(), 0x4388_4fde);
}

#[test]
fn treaty_break_and_expire() {
    let mut t = Treaty::new(TreatyId::new(3), TreatyKind::Ceasefire, vec![], 10);
    assert!(!t.is_expired(u64::MAX));
    t.break_treaty(20);
    assert_eq!(t.status, TreatyStatus::Broken(20));
    assert!(!t.is_active());
    t.expire(30);
    assert_eq!(t.status, TreatyStatus::Expired(30));
    assert_eq!(TreatyKind::Custom("x".to_string()).as_index(), 9);
    assert_eq!(TreatyId::new(8).to_string(), "treaty:8");
}

#[test]
fn stance_from_value_clamps() {
    assert_eq!(DiplomaticStance::from_value(-100), DiplomaticStance::War);
    assert_eq!(DiplomaticStance::from_value(i32::MIN), DiplomaticStance::War);
    assert_eq!(DiplomaticStance::from_value(100), DiplomaticStance::Allied);
    assert_eq!(DiplomaticStance::from_value(0), DiplomaticStance::Neutral);
    assert_eq!(DiplomaticStance::default(), DiplomaticStance::Neutral);
}

#[test]
fn resolved_incident_stays_resolved() {
    let mut incident = BetrayalIncident::new(
        BetrayalId::new(2),
        SocialAgentId::new(4),
        SocialFactionId::new("guild"),
        BetrayalKind::Sabotage,
    );
    incident.resolve(BetrayalResolution::Punished, 5);
    incident.detect(9);
    incident.execute();
    assert_eq!(incident.status, BetrayalStatus::Resolved(BetrayalResolution::Punished));
    assert_eq!(incident.detected_tick, None);
    assert_eq!(incident.resolved_tick, Some(5));
}

#[test]
fn panic_status_indices_and_counts() {
    assert_eq!(PanicEventStatus::Spreading.as_index(), 0);
    assert_eq!(PanicEventStatus::Contained.as_index(), 1);
    assert_eq!(PanicEventStatus::Resolved.as_index(), 2);
    assert_eq!(SocialTrend::Critical.as_index(), 3);
    let mut counts = StanceCounts::default();
    counts.add_stance(DiplomaticStance::Neutral);
    assert_eq!(counts.positive_count(), 0);
    assert_eq!(counts.negative_count(), 0);
    assert_eq!(counts.neutral, 1);
}

#[test]
fn stance_counts_follow_stance_sign() {
    let all = [
        DiplomaticStance::War,
        DiplomaticStance::Hostile,
        DiplomaticStance::Unfriendly,
        DiplomaticStance::Neutral,
        DiplomaticStance::Cordial,
        DiplomaticStance::Friendly,
        DiplomaticStance::Allied,
    ];
    for s in all {
        let mut counts = StanceCounts::default();
        counts.add_stance(s);
        assert_eq!(counts.positive_count(), if s.is_positive() { 1 } else { 0 });
        assert_eq!(counts.negative_count(), if s.is_negative() { 1 } else { 0 });
        assert_eq!(s.allows_trade(), s.as_value() >= 1);
        if s.allows_trade() {
            assert!(s.allows_passage());
        }
        if s.allows_combat() {
            assert!(!s.allows_passage());
        }
    }
}

#[test]
fn favor_moves_stance_one_step_at_a_time() {
    let mut r = DiplomaticRelation::new(SocialFactionId::new("a"), SocialFactionId::new("b"), 1);
    assert_eq!(r.stance, DiplomaticStance::Neutral);
    r.modify_favor(250, 5);
    assert_eq!(r.accumulated_favor, 250);
    assert_eq!(r.stance, DiplomaticStance::Cordial);
    assert_eq!(r.last_interaction_tick, 5);
    r.modify_favor(0, 6);
    assert_eq!(r.stance, DiplomaticStance::Cordial);
    r.modify_favor(-600, 7);
    assert_eq!(r.accumulated_favor, -350);
    assert_eq!(r.stance, DiplomaticStance::Neutral);
    r.modify_favor(-50, 8);
    assert_eq!(r.stance, DiplomaticStance::Unfriendly);
    r.modify_favor(i32::MIN, 9);
    assert_eq!(r.accumulated_favor, i32::MIN);
    assert_eq!(r.stance, DiplomaticStance::Hostile);
    r.modify_favor(i32::MAX, 10);
    assert_eq!(r.accumulated_favor, -1);
    assert_eq!(r.stance, DiplomaticStance::Unfriendly);
}

#[test]
fn relation_treaties_are_a_set() {
    let mut r = DiplomaticRelation::new(SocialFactionId::new("a"), SocialFactionId::new("b"), 0)
        .with_stance(DiplomaticStance::Friendly);
    r.add_treaty(TreatyId::new(1));
    r.add_treaty(TreatyId::new(2));
    r.add_treaty(TreatyId::new(1));
    assert_eq!(r.active_treaties, vec![TreatyId::new(1), TreatyId::new(2)]);
    r.remove_treaty(TreatyId::new(1));
    assert_eq!(r.active_treaties, vec![TreatyId::new(2)]);
    r.remove_treaty(TreatyId::new(7));
    assert_eq!(r.active_treaties, vec![TreatyId::new(2)]);
    assert_eq!(r.stance, DiplomaticStance::Friendly);
}

#[test]
fn test_diplomatic_relation() {
    let mut relation = DiplomaticRelation::new(SocialFactionId::new("empire"), SocialFactionId::new("rebels"), 0);

    relation.modify_favor(150, 100);
    assert!(relation.accumulated_favor > 0);
}

#[test]
fn test_diplomacy_tracker() {
    let mut tracker = DiplomacyTracker::new();

    let empire = SocialFactionId::new("empire");
    let rebels = SocialFactionId::new("rebels");

    tracker.set_stance(&empire, &rebels, DiplomaticStance::Hostile, 0);
    assert_eq!(tracker.get_stance(&empire, &rebels), DiplomaticStance::Hostile);

    tracker.declare_war(&empire, &rebels, 100);
    assert!(tracker.are_at_war(&empire, &rebels));
}

#[test]
fn test_treaty_signing() {
    let mut tracker = DiplomacyTracker::new();

    let parties = [SocialFactionId::new("faction_a"), SocialFactionId::new("faction_b")];

    let treaty_id = tracker.sign_treaty(TreatyKind::DefensiveAlliance, &parties, 0);
    assert!(tracker.get_treaty(treaty_id).is_some());
    assert_eq!(tracker.active_treaties().len(), 1);
}

fn default_trust_bits(tracker: &DiplomacyTracker) -> Vec<u32> {
    tracker.relations().iter().map(|_| 0.5f32.to_bits()).collect()
}

#[test]
fn diplomacy_test_checksum_determinism() {
    let mut tracker = DiplomacyTracker::new();
    tracker.set_stance(&SocialFactionId::new("a"), &SocialFactionId::new("b"), DiplomaticStance::Friendly, 0);

    let trust = default_trust_bits(&tracker);
    let checksum1 = tracker.checksum_with_trust(&trust);
    let checksum2 = tracker.checksum_with_trust(&trust);
    assert_eq!(checksum1, checksum2);
}

#[test]
fn test_diplomacy_treaty_flow() {
    let mut tracker = DiplomacyTracker::new();

    let faction_a = SocialFactionId::new("a");
    let faction_b = SocialFactionId::new("b");
    let faction_c = SocialFactionId::new("c");

    tracker.sign_treaty(TreatyKind::DefensiveAlliance, &[faction_a.clone(), faction_b.clone()], 0);

    tracker.declare_war(&faction_c, &faction_a, 100);

    assert!(tracker.are_at_war(&faction_c, &faction_a));
    assert!(!tracker.are_at_war(&faction_a, &faction_b));
}

#[test]
fn stance_reads_the_same_either_way_round() {
    let mut tracker = DiplomacyTracker::new();
    let north = SocialFactionId::new("north");
    let south = SocialFactionId::new("south");
    assert_eq!(tracker.get_stance(&north, &south), DiplomaticStance::Neutral);
    assert!(tracker.get_relation(&north, &south).is_none());

    tracker.set_stance(&south, &north, DiplomaticStance::Allied, 7);
    assert!(tracker.are_allied(&north, &south));
    assert_eq!(tracker.relation_count(), 1);
    let relation = tracker.get_relation(&north, &south).unwrap();
    assert_eq!(relation.faction_a.as_str(), "north");
    assert_eq!(relation.faction_b.as_str(), "south");
    assert_eq!(relation.last_interaction_tick, 7);

    let created = tracker.get_or_create_relation(&north, &south, 99);
    assert_eq!(created.stance, DiplomaticStance::Allied);
    assert_eq!(created.last_interaction_tick, 7);
    assert_eq!(tracker.relation_count(), 1);
}

#[test]
fn signing_links_every_pair_and_breaking_unlinks_them() {
    let mut tracker = DiplomacyTracker::new();
    let parties = [SocialFactionId::new("c"), SocialFactionId::new("a"), SocialFactionId::new("b")];
    let first = tracker.sign_treaty(TreatyKind::TradeAgreement, &parties, 10);
    let second = tracker.sign_treaty(TreatyKind::Ceasefire, &parties[..2], 11);
    assert_eq!(first, TreatyId::new(0));
    assert_eq!(second, TreatyId::new(1));
    assert_eq!(tracker.treaty_count(), 2);
    assert_eq!(tracker.relation_count(), 3);

    let names: Vec<(String, String)> = tracker
        .relations()
        .iter()
        .map(|r| (r.faction_a.as_str().to_string(), r.faction_b.as_str().to_string()))
        .collect();
    assert_eq!(
        names,
        vec![
            ("a".to_string(), "b".to_string()),
            ("a".to_string(), "c".to_string()),
            ("b".to_string(), "c".to_string())
        ]
    );
    let ac = tracker.get_relation(&SocialFactionId::new("c"), &SocialFactionId::new("a")).unwrap();
    assert_eq!(ac.active_treaties, vec![first, second]);
    assert_eq!(ac.last_interaction_tick, 10);

    let touched = tracker.break_treaty(first, 50);
    let touched: Vec<(String, String)> =
        touched.iter().map(|(x, y)| (x.as_str().to_string(), y.as_str().to_string())).collect();
    assert_eq!(
        touched,
        vec![
            ("a".to_string(), "c".to_string()),
            ("b".to_string(), "c".to_string()),
            ("a".to_string(), "b".to_string())
        ]
    );
    assert_eq!(tracker.get_treaty(first).unwrap().status, TreatyStatus::Broken(50));
    let ac = tracker.get_relation(&SocialFactionId::new("a"), &SocialFactionId::new("c")).unwrap();
    assert_eq!(ac.active_treaties, vec![second]);
    let bc = tracker.get_relation(&SocialFactionId::new("b"), &SocialFactionId::new("c")).unwrap();
    assert!(bc.active_treaties.is_empty());
    assert_eq!(tracker.active_treaties().len(), 1);
    assert_eq!(tracker.treaties_for_faction(&SocialFactionId::new("a")).len(), 1);
    assert_eq!(tracker.treaties_for_faction(&SocialFactionId::new("b")).len(), 0);

    assert!(tracker.break_treaty(TreatyId::new(9), 60).is_empty());
    assert_eq!(tracker.treaty_count(), 2);
}

#[test]
fn treaties_without_expiry_stay_in_force() {
    let mut tracker = DiplomacyTracker::new();
    let parties = [SocialFactionId::new("x"), SocialFactionId::new("y")];
    let id = tracker.sign_treaty(TreatyKind::BorderAgreement, &parties, 0);
    assert_eq!(tracker.get_treaty(id).unwrap().expires_tick, None);

    tracker.tick_treaties(1_000);
    assert!(tracker.get_treaty(id).unwrap().is_active());

    let other = tracker.sign_treaty(TreatyKind::NonAggression, &parties, 5);
    assert_eq!(tracker.get_relation(&parties[0], &parties[1]).unwrap().active_treaties, vec![id, other]);
    tracker.break_treaty(other, 6);
    tracker.tick_treaties(7);
    assert_eq!(tracker.get_treaty(other).unwrap().status, TreatyStatus::Broken(6));
    assert_eq!(tracker.get_relation(&parties[0], &parties[1]).unwrap().active_treaties, vec![id]);
}

#[test]
fn tracker_checksum_follows_relations_trust_and_treaties() {
    let mut tracker = DiplomacyTracker::new();
    let empty = tracker.checksum_with_trust(&[]);
    let mut expected_empty = crc32fast::Hasher::new();
    expected_empty.update(&0u64.to_le_bytes());
    expected_empty.update(&0u64.to_le_bytes());
    assert_eq!(empty, expected_empty.finalize());

    tracker.set_stance(&SocialFactionId::new("b"), &SocialFactionId::new("a"), DiplomaticStance::Cordial, 3);
    let relation = tracker.get_relation(&SocialFactionId::new("a"), &SocialFactionId::new("b")).unwrap();
    let trust = 0.5f32.to_bits();
    let mut expected_relation = crc32fast::Hasher::new();
    expected_relation.update(b"a");
    expected_relation.update(b"b");
    expected_relation.update(&[4u8]);
    expected_relation.update(&0.5f32.to_le_bytes());
    expected_relation.update(&0i32.to_le_bytes());
    let relation_sum = expected_relation.finalize();
    assert_eq!(relation.checksum_with_trust(trust), relation_sum);
    assert_ne!(relation.checksum_with_trust(0.25f32.to_bits()), relation_sum);

    let mut expected = crc32fast::Hasher::new();
    expected.update(&1u64.to_le_bytes());
    expected.update(&relation_sum.to_le_bytes());
    expected.update(&0u64.to_le_bytes());
    assert_eq!(tracker.checksum_with_trust(&[trust]), expected.finalize());
}

#[test]
fn betrayal_tracker_lists_incidents_per_faction() {
    let mut tracker = BetrayalTracker::new();
    let empire = SocialFactionId::new("empire");
    let rebels = SocialFactionId::new("rebels");

    let first = tracker.create_incident(SocialAgentId::new(1), empire.clone(), BetrayalKind::Sabotage);
    let second = tracker.create_incident(SocialAgentId::new(2), rebels.clone(), BetrayalKind::Mutiny);
    let third = tracker.create_incident(SocialAgentId::new(3), empire.clone(), BetrayalKind::Espionage);
    assert_eq!((first, second, third), (BetrayalId::new(0), BetrayalId::new(1), BetrayalId::new(2)));
    assert_eq!(tracker.incident_count(), 3);
    assert_eq!(tracker.active_incident_count(), 3);

    let incident = tracker.get_incident(third).unwrap();
    assert_eq!(incident.status, BetrayalStatus::Plotting);
    assert_eq!(incident.betrayer, SocialAgentId::new(3));

    let against_empire: Vec<BetrayalId> =
        tracker.active_incidents_for_faction(&empire).iter().map(|i| i.id).collect();
    assert_eq!(against_empire, vec![first, third]);

    assert!(tracker.execute_incident(first));
    assert!(tracker.detect_incident(first, 40));
    assert_eq!(tracker.get_incident(first).unwrap().detected_tick, Some(40));
    assert!(tracker.resolve_incident(first, BetrayalResolution::Punished, 50));
    assert!(!tracker.resolve_incident(BetrayalId::new(7), BetrayalResolution::Escaped, 50));

    let against_empire: Vec<BetrayalId> =
        tracker.active_incidents_for_faction(&empire).iter().map(|i| i.id).collect();
    assert_eq!(against_empire, vec![third]);
    assert!(tracker.active_incidents_for_faction(&SocialFactionId::new("nobody")).is_empty());
    assert_eq!(tracker.active_incident_count(), 2);
    assert_eq!(tracker.active_incidents().len(), 2);
    assert_eq!(tracker.incident_count(), 3);
}

#[test]
fn betrayal_checksum_covers_profiles_and_incidents() {
    let mut tracker = BetrayalTracker::new();
    let id = tracker.create_incident(SocialAgentId::new(4), SocialFactionId::new("f"), BetrayalKind::Coup);
    let incident_sum = tracker.get_incident(id).unwrap().checksum();

    let mut expected = crc32fast::Hasher::new();
    expected.update(&1u64.to_le_bytes());
    expected.update(&7u32.to_le_bytes());
    expected.update(&1u64.to_le_bytes());
    expected.update(&incident_sum.to_le_bytes());
    assert_eq!(tracker.checksum_with_profiles(&[7]), expected.finalize());
    assert_ne!(tracker.checksum_with_profiles(&[7]), tracker.checksum_with_profiles(&[]));
}

#[test]
fn test_panic_event() {
    let mut event = PanicEvent::new(PanicId::new(1), PanicSource::Explosion, 0);

    event.add_affected_agent(SocialAgentId::new(1));
    event.add_affected_agent(SocialAgentId::new(2));

    assert!(event.is_active());
    assert_eq!(event.affected_count(), 2);

    event.resolve(100);
    assert!(!event.is_active());
}

#[test]
fn panic_event_counts_each_agent_once_and_checksums_its_fields() {
    let mut event = PanicEvent::new(PanicId::new(3), PanicSource::Fire, 5);
    event.add_affected_agent(SocialAgentId::new(9));
    event.add_affected_agent(SocialAgentId::new(9));
    event.add_affected_group(SocialGroupId::new(4));
    assert_eq!(event.affected_count(), 1);
    event.contain();
    assert!(event.is_active());
    assert_eq!(event.status, PanicEventStatus::Contained);

    let intensity = 0.8f32;
    let mut expected = crc32fast::Hasher::new();
    expected.update(&3u64.to_le_bytes());
    expected.update(&intensity.to_le_bytes());
    expected.update(&1u64.to_le_bytes());
    expected.update(&[1u8]);
    assert_eq!(event.checksum_with_intensity(intensity.to_bits()), expected.finalize());
}

#[test]
fn panic_cascade_records_its_spread() {
    let mut cascade = PanicCascade::new(SocialAgentId::new(1), 10);
    assert_eq!(cascade.cascade_depth(), 1);
    assert_eq!(cascade.spread_count(), 0);
    cascade.add_spread(SocialAgentId::new(2), 11);
    cascade.add_spread(SocialAgentId::new(3), 12);
    cascade.end(20);
    assert_eq!(cascade.cascade_depth(), 3);
    assert_eq!(cascade.spread_count(), 2);
    assert_eq!(cascade.affected_sequence[2], (SocialAgentId::new(3), 12));
    assert_eq!(cascade.ended_tick, Some(20));
}

#[test]
fn panic_tracker_numbers_and_resolves_events() {
    let mut tracker = PanicTracker::new();
    let first = tracker.create_panic_event(PanicSource::SuddenNoise, 1);
    let second = tracker.create_panic_event(PanicSource::AmbushDetected, 2);
    assert_eq!((first, second), (PanicId::new(0), PanicId::new(1)));
    assert_eq!(tracker.active_event_count(), 2);
    assert!(tracker.resolve_event(first, 30));
    assert!(!tracker.resolve_event(PanicId::new(5), 30));
    assert_eq!(tracker.active_event_count(), 1);
    assert_eq!(tracker.event_count(), 2);
    assert_eq!(tracker.events()[0].resolved_tick, Some(30));

    let bits = [0.5f32.to_bits(), 0.25f32.to_bits()];
    let mut expected = crc32fast::Hasher::new();
    expected.update(&1u64.to_le_bytes());
    expected.update(&11u32.to_le_bytes());
    expected.update(&2u64.to_le_bytes());
    expected.update(&tracker.events()[0].checksum_with_intensity(bits[0]).to_le_bytes());
    expected.update(&tracker.events()[1].checksum_with_intensity(bits[1]).to_le_bytes());
    assert_eq!(tracker.checksum_with(&[11], &bits), expected.finalize());
}

#[test]
fn test_betrayal_fingerprint() {
    let tracker = BetrayalTracker::new();

    let fp1 = BetrayalFingerprint::from_checksum(tracker.checksum_with_profiles(&[]), 0);
    let fp2 = BetrayalFingerprint::from_checksum(tracker.checksum_with_profiles(&[]), 0);

    assert!(fp1.matches(&fp2));
}

#[test]
fn test_panic_fingerprint() {
    let tracker = PanicTracker::new();

    let fp1 = PanicFingerprint::from_checksum(tracker.checksum_with(&[], &[]), 0);
    let fp2 = PanicFingerprint::from_checksum(tracker.checksum_with(&[], &[]), 0);

    assert!(fp1.matches(&fp2));
}

#[test]
fn test_diplomacy_fingerprint() {
    let tracker = DiplomacyTracker::new();

    let fp1 = DiplomacyFingerprint::from_checksum(tracker.checksum_with_trust(&[]), 0);
    let fp2 = DiplomacyFingerprint::from_checksum(tracker.checksum_with_trust(&[]), 0);

    assert!(fp1.matches(&fp2));
}

#[test]
fn tracker_favor_moves_the_stance_of_the_pair() {
    let mut tracker = DiplomacyTracker::new();
    let a = SocialFactionId::new("a");
    let b = SocialFactionId::new("b");
    tracker.modify_favor(&b, &a, 350, 4);
    let relation = tracker.get_relation(&a, &b).unwrap();
    assert_eq!(relation.accumulated_favor, 350);
    assert_eq!(relation.stance, DiplomaticStance::Cordial);
    assert_eq!(relation.last_interaction_tick, 4);
    tracker.modify_favor(&a, &b, i32::MAX, 5);
    assert_eq!(tracker.get_relation(&a, &b).unwrap().accumulated_favor, i32::MAX);
    assert_eq!(tracker.get_stance(&b, &a), DiplomaticStance::Friendly);
}
