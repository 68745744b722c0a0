use lattice_engine::sensor::{ObservationId, SensorKind, SensorProfileId, StimulusId, StimulusSource};

#[test]
fn test_sensor_kind_name() {
    assert_eq!(SensorKind::Sight.name(), "sight");
    assert_eq!(SensorKind::ElectricalField.name(), "electrical_field");
}

#[test]
fn test_sensor_kind_line_of_sight() {
    assert!(SensorKind::Sight.requires_line_of_sight());
    assert!(!SensorKind::Sound.requires_line_of_sight());
    assert!(!SensorKind::Smell.requires_line_of_sight());
}

#[test]
fn test_sensor_kind_penetrate_solids() {
    assert!(!SensorKind::Sight.can_penetrate_solids());
    assert!(SensorKind::Sound.can_penetrate_solids());
    assert!(SensorKind::Vibration.can_penetrate_solids());
    assert!(!SensorKind::Smell.can_penetrate_solids());
}

#[test]
fn test_sensor_kind_directional() {
    assert!(SensorKind::Sight.is_directional());
    assert!(SensorKind::Sound.is_directional());
    assert!(!SensorKind::Vibration.is_directional());
    assert!(!SensorKind::Heat.is_directional());
}

#[test]
fn test_sensor_kind_ordering() {
    assert!(SensorKind::Sight < SensorKind::Sound);
    assert!(SensorKind::Sound < SensorKind::ElectricalField);
}

#[test]
fn test_sensor_kind_all() {
    let all = SensorKind::all();
    assert_eq!(all.len(), 7);
    assert_eq!(all[0], SensorKind::Sight);
    assert_eq!(all[6], SensorKind::ElectricalField);
}

#[test]
fn test_observation_id() {
    let id = ObservationId::new(42);
    assert_eq!(id.0, 42);
}

#[test]
fn test_stimulus_id() {
    let id = StimulusId::new(42);
    assert_eq!(id.0, 42);
}

#[test]
fn test_stimulus_source() {
    let source = StimulusSource::new(100);
    assert_eq!(source.0, 100);
    assert!(!source.is_environmental());

    let env = StimulusSource::environmental();
    assert!(env.is_environmental());
}

#[test]
fn test_sensor_profile_id() {
    let id = SensorProfileId::new("test");
    assert_eq!(id.as_str(), "test");
}

#[test]
fn sensor_kind_names_are_distinct_and_snake_case() {
    let all = SensorKind::all();
    let names: Vec<&str> = all.iter().map(|k| k.name()).collect();
    assert_eq!(
        names,
        vec!["sight", "sound", "vibration", "smell", "heat", "pressure", "electrical_field"]
    );
}

#[test]
fn sensor_kind_every_sight_channel_is_blocked_by_solids() {
    for k in SensorKind::all() {
        if k.requires_line_of_sight() {
            assert!(!k.can_penetrate_solids());
        }
    }
}
