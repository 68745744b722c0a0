use lattice_engine::audio::dynamic_music::{mix_order, MAX_ACTIVE_LAYERS};
use lattice_engine::audio::{AcousticMaterial, MusicLayerKind, ReverbPreset, ReverbZoneId};

#[test]
fn test_layer_kind_priorities() {
    assert!(MusicLayerKind::Combat.default_priority() < MusicLayerKind::Danger.default_priority());
    assert!(MusicLayerKind::Danger.default_priority() < MusicLayerKind::Tension.default_priority());
    assert!(MusicLayerKind::Tension.default_priority() < MusicLayerKind::Exploration.default_priority());
    assert!(MusicLayerKind::Exploration.default_priority() < MusicLayerKind::BaseAmbient.default_priority());
}

#[test]
fn test_layer_kind_categories() {
    assert!(MusicLayerKind::Storm.is_environmental());
    assert!(MusicLayerKind::Radiation.is_environmental());
    assert!(MusicLayerKind::Void.is_environmental());
    assert!(!MusicLayerKind::Combat.is_environmental());

    assert!(MusicLayerKind::Combat.is_threat());
    assert!(MusicLayerKind::Danger.is_threat());
    assert!(!MusicLayerKind::Storm.is_threat());

    assert!(MusicLayerKind::HealthCritical.is_player_condition());
    assert!(MusicLayerKind::Stress.is_player_condition());
    assert!(!MusicLayerKind::Combat.is_player_condition());
}

#[test]
fn test_layer_kind_all_variants() {
    let all = MusicLayerKind::all();
    assert_eq!(all.len(), 16);
    for (i, kind) in all.iter().enumerate() {
        assert_eq!(*kind as usize, i);
    }
}

#[test]
fn test_material_all_variants() {
    const EXPECTED: [u8; 9] = [0, 1, 2, 3, 4, 5, 6, 7, 8];
    let all = AcousticMaterial::all();
    assert_eq!(all.len(), 9);
    for (mat, expected) in all.iter().zip(EXPECTED.iter()) {
        assert_eq!(*mat as u8, *expected);
    }
}

#[test]
fn test_preset_all_variants() {
    const EXPECTED: [u8; 12] = [0, 1, 2, 3, 4, 5, 6, 7, 8, 9, 10, 11];
    let all = ReverbPreset::all();
    assert_eq!(all.len(), 12);
    for (preset, expected) in all.iter().zip(EXPECTED.iter()) {
        assert_eq!(*preset as u8, *expected);
    }
}

#[test]
fn layer_priorities_exact_values() {
    let expected = [100, 80, 40, 10, 0, 30, 28, 25, 26, 27, 29, 15, 50, 20, 5, 45];
    for (kind, p) in MusicLayerKind::all().iter().zip(expected.iter()) {
        assert_eq!(kind.default_priority(), *p);
    }
}

#[test]
fn layer_categories_are_disjoint() {
    for kind in MusicLayerKind::all() {
        let n = [kind.is_environmental(), kind.is_threat(), kind.is_player_condition()]
            .iter()
            .filter(|b| **b)
            .count();
        let uncategorised = kind == MusicLayerKind::BaseAmbient || kind == MusicLayerKind::Exploration;
        assert_eq!(n, if uncategorised { 0 } else { 1 });
    }
}

#[test]
fn reverb_zone_id_and_presets() {
    let z = ReverbZoneId::new(9);
    assert_eq!(z.value(), 9);
    assert_eq!(ReverbZoneId::default().value(), 0);
    assert_eq!(ReverbPreset::default(), ReverbPreset::Dry);
    assert_eq!(AcousticMaterial::default(), AcousticMaterial::Air);
    assert_eq!(ReverbPreset::Dry.dominant_material(), AcousticMaterial::Air);
    assert_eq!(ReverbPreset::Forest.dominant_material(), AcousticMaterial::Air);
    assert_eq!(ReverbPreset::Cave.dominant_material(), AcousticMaterial::Stone);
    assert_eq!(ReverbPreset::Cathedral.dominant_material(), AcousticMaterial::Stone);
    assert_eq!(ReverbPreset::Underwater.dominant_material(), AcousticMaterial::Liquid);
    assert_eq!(ReverbPreset::WoodInterior.dominant_material(), AcousticMaterial::Wood);
    assert_eq!(ReverbPreset::MetalEnclosure.dominant_material(), AcousticMaterial::Metal);
}

#[test]
fn layer_priorities_are_distinct() {
    let all = MusicLayerKind::all();
    for (i, a) in all.iter().enumerate() {
        for b in all.iter().skip(i + 1) {
            assert_ne!(a.default_priority(), b.default_priority());
        }
    }
}

#[test]
fn mix_order_sorts_by_priority_and_keeps_at_most_eight() {
    let priorities = [100, 0, 40, 0, 30, 5, 10, 15, 20, 25, 26];
    assert_eq!(mix_order(&priorities), vec![1, 3, 5, 6, 7, 8, 9, 10]);
    assert_eq!(MAX_ACTIVE_LAYERS, 8);

    let few = [50, 10, 50, 20];
    assert_eq!(mix_order(&few), vec![1, 3, 0, 2]);
    assert!(mix_order(&[]).is_empty());
}
