//! Perception channels and the identifiers of stimuli, observations and
//! sensor profiles.

use vstd::prelude::*;

verus! {

/// The type of sensory channel used for perception.
#[derive(Clone, Copy, Debug, PartialEq, Eq, PartialOrd, Ord, Hash, Structural)]
pub enum SensorKind {
    /// Visual perception (light, movement, color).
    Sight,
    /// Auditory perception.
    Sound,
    /// Substrate vibration detection.
    Vibration,
    /// Olfactory perception.
    Smell,
    /// Thermal perception.
    Heat,
    /// Pressure or touch perception.
    Pressure,
    /// Electrical field detection.
    ElectricalField,
}

impl Default for SensorKind {
    fn default() -> (k: Self)
        ensures
            k == SensorKind::Sight,
    {
        SensorKind::Sight
    }
}

impl SensorKind {
    /// All sensor kinds in their declared order.
    pub fn all() -> (v: Vec<SensorKind>)
        ensures
            v@ == seq![
                SensorKind::Sight,
                SensorKind::Sound,
                SensorKind::Vibration,
                SensorKind::Smell,
                SensorKind::Heat,
                SensorKind::Pressure,
                SensorKind::ElectricalField,
            ],
    {
        vec![
            SensorKind::Sight,
            SensorKind::Sound,
            SensorKind::Vibration,
            SensorKind::Smell,
            SensorKind::Heat,
            SensorKind::Pressure,
            SensorKind::ElectricalField,
        ]
    }

    /// The human-readable name of the channel.
    pub open spec fn spec_name(self) -> Seq<char> {
        match self {
            SensorKind::Sight => "sight"@,
            SensorKind::Sound => "sound"@,
            SensorKind::Vibration => "vibration"@,
            SensorKind::Smell => "smell"@,
            SensorKind::Heat => "heat"@,
            SensorKind::Pressure => "pressure"@,
            SensorKind::ElectricalField => "electrical_field"@,
        }
    }

    /// A human-readable name for this sensor kind.
    pub fn name(self) -> (s: &'static str)
        ensures
            s@ == self.spec_name(),
    {
        match self {
            SensorKind::Sight => "sight",
            SensorKind::Sound => "sound",
            SensorKind::Vibration => "vibration",
            SensorKind::Smell => "smell",
            SensorKind::Heat => "heat",
            SensorKind::Pressure => "pressure",
            SensorKind::ElectricalField => "electrical_field",
        }
    }

    /// Whether this sensor typically requires line of sight: only sight does.
    pub fn requires_line_of_sight(self) -> (b: bool)
        ensures
            b == (self == SensorKind::Sight),
    {
        matches!(self, SensorKind::Sight)
    }

    /// Whether this sensor detects through solid obstacles.
    pub fn can_penetrate_solids(self) -> (b: bool)
        ensures
            b == (self == SensorKind::Sound || self == SensorKind::Vibration
                || self == SensorKind::Heat || self == SensorKind::ElectricalField),
    {
        matches!(
            self,
            SensorKind::Sound | SensorKind::Vibration | SensorKind::Heat | SensorKind::ElectricalField
        )
    }

    /// Whether this sensor is directional by default.
    pub fn is_directional(self) -> (b: bool)
        ensures
            b == (self == SensorKind::Sight || self == SensorKind::Sound || self
                == SensorKind::Smell),
    {
        matches!(self, SensorKind::Sight | SensorKind::Sound | SensorKind::Smell)
    }
}

/// Strength classification for detected stimuli, weakest first (`Undetected`
/// is the absence of a detection).
#[derive(Clone, Copy, Debug, PartialEq, Eq, PartialOrd, Ord, Hash, Structural)]
pub enum DetectionStrength {
    Undetected,
    Faint,
    Weak,
    Strong,
}

/// Unique identifier for an observation instance.
#[derive(Clone, Debug, PartialEq, Eq, PartialOrd, Ord, Hash, Structural)]
pub struct ObservationId(pub u64);

impl ObservationId {
    /// The identifier with the given number.
    pub fn new(id: u64) -> (r: Self)
        ensures
            r.0 == id,
    {
        ObservationId(id)
    }
}

/// Unique identifier for a stimulus instance.
#[derive(Clone, Debug, PartialEq, Eq, PartialOrd, Ord, Hash, Structural)]
pub struct StimulusId(pub u64);

impl StimulusId {
    /// The identifier with the given number.
    pub fn new(id: u64) -> (r: Self)
        ensures
            r.0 == id,
    {
        StimulusId(id)
    }
}

/// The entity that emitted a stimulus; entity 0 stands for the environment.
#[derive(Clone, Debug, PartialEq, Eq, PartialOrd, Ord, Hash, Structural)]
pub struct StimulusSource(pub u64);

impl StimulusSource {
    /// The source for the given entity.
    pub fn new(entity_id: u64) -> (r: Self)
        ensures
            r.0 == entity_id,
    {
        StimulusSource(entity_id)
    }

    /// The anonymous, environmental source.
    pub fn environmental() -> (r: Self)
        ensures
            r.0 == 0,
    {
        StimulusSource(0)
    }

    /// Whether this is the environmental (non-entity) source.
    pub fn is_environmental(&self) -> (b: bool)
        ensures
            b == (self.0 == 0),
    {
        self.0 == 0
    }
}

/// Identifier for a sensor profile (creature type).
#[derive(Clone, Debug, Default, PartialEq, Eq, PartialOrd, Ord, Hash)]
pub struct SensorProfileId(pub String);

impl SensorProfileId {
    /// The profile identifier with the given text.
    pub fn new(id: &str) -> (r: Self)
        ensures
            r.0@ == id@,
    {
        SensorProfileId(String::from_str(id))
    }

    /// The text of the identifier.
    pub fn as_str(&self) -> (s: &str)
        ensures
            s@ == self.0@,
    {
        self.0.as_str()
    }
}

} // verus!
