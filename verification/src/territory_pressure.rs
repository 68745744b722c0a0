//! Territory pressure and nest lifecycle: identifiers, kinds, stages and
//! fingerprints of the territorial simulation.

use vstd::prelude::*;
use crate::text::{decimal, hex_padded, prefixed_decimal, prefixed_hex8, prefixed_text};

verus! {

/// Unique identifier for a pressure source.
#[derive(Clone, Debug, PartialEq, Eq, PartialOrd, Ord, Hash)]
pub struct PressureSourceId(pub String);

impl PressureSourceId {
    /// The identifier with the given text.
    pub fn new(id: &str) -> (r: Self)
        ensures
            r.0@ == id@,
    {
        PressureSourceId(String::from_str(id))
    }

    /// The text of the identifier.
    pub fn as_str(&self) -> (s: &str)
        ensures
            s@ == self.0@,
    {
        self.0.as_str()
    }

    /// The text form: the identifier's text itself.
    pub fn to_string(&self) -> (s: String)
        ensures
            s@ == self.0@,
    {
        String::from_str(self.0.as_str())
    }
}

/// Unique identifier for a contested front.
#[derive(Clone, Copy, Debug, PartialEq, Eq, PartialOrd, Ord, Hash, Structural)]
pub struct ContestedFrontId(pub u64);

impl ContestedFrontId {
    /// The identifier with the given number.
    pub fn new(id: u64) -> (r: Self)
        ensures
            r.0 == id,
    {
        ContestedFrontId(id)
    }

    /// The number of the identifier.
    pub fn raw(self) -> (r: u64)
        ensures
            r == self.0,
    {
        self.0
    }

    /// The text form `front:<number>`.
    pub fn to_string(&self) -> (s: String)
        ensures
            s@ == "front:"@ + decimal(self.0 as nat),
    {
        prefixed_decimal("front:", self.0)
    }
}

/// Kind of pressure source.
#[derive(Clone, Copy, Debug, PartialEq, Eq, PartialOrd, Ord, Hash, Structural)]
pub enum PressureKind {
    /// Pressure from population density.
    Population,
    /// Pressure from resource scarcity.
    ResourceScarcity,
    /// Pressure from resource abundance.
    ResourceAbundance,
    /// Pressure from external threats.
    Threat,
    /// Pressure from faction military activity.
    Military,
    /// Pressure from faction expansion goals.
    Expansion,
    /// Pressure from environmental hazards.
    Environmental,
    /// Pressure from infestation spread.
    Infestation,
}

impl Default for PressureKind {
    fn default() -> (k: Self)
        ensures
            k == PressureKind::Population,
    {
        PressureKind::Population
    }
}

/// State of a contested front between factions.
#[derive(Clone, Copy, Debug, PartialEq, Eq, Hash, Structural)]
pub enum FrontState {
    Forming,
    Active,
    Stalemate,
    Advancing,
    Retreating,
    Resolved,
}

impl Default for FrontState {
    fn default() -> (s: Self)
        ensures
            s == FrontState::Forming,
    {
        FrontState::Forming
    }
}

impl FrontState {
    /// Forming, active, advancing or retreating: neither stalled nor resolved.
    pub fn is_active(self) -> (b: bool)
        ensures
            b == !(self == FrontState::Stalemate || self == FrontState::Resolved),
    {
        matches!(self, FrontState::Forming | FrontState::Active | FrontState::Advancing | FrontState::Retreating)
    }

    /// The front has been resolved.
    pub fn is_finished(self) -> (b: bool)
        ensures
            b == (self == FrontState::Resolved),
    {
        matches!(self, FrontState::Resolved)
    }
}

/// Fingerprint for pressure state verification.
#[derive(Clone, Copy, Debug, PartialEq, Eq, Hash, Structural)]
pub struct PressureFingerprint(pub u32);

impl PressureFingerprint {
    /// The raw fingerprint.
    pub fn raw(self) -> (r: u32)
        ensures
            r == self.0,
    {
        self.0
    }

    /// The text form `pressure:<eight hex digits>`.
    pub fn to_string(&self) -> (s: String)
        ensures
            s@ == "pressure:"@ + hex_padded(self.0 as nat, 8),
    {
        prefixed_hex8("pressure:", self.0)
    }
}

/// Trend of pressure change.
#[derive(Clone, Copy, Debug, PartialEq, Eq, Hash, Structural)]
pub enum PressureTrend {
    Rising,
    Stable,
    Moderate,
    Declining,
}

impl Default for PressureTrend {
    fn default() -> (t: Self)
        ensures
            t == PressureTrend::Stable,
    {
        PressureTrend::Stable
    }
}

/// Unique identifier for a nest.
#[derive(Clone, Debug, PartialEq, Eq, PartialOrd, Ord, Hash)]
pub struct NestId(pub String);

impl NestId {
    /// The identifier with the given text.
    pub fn new(id: &str) -> (r: Self)
        ensures
            r.0@ == id@,
    {
        NestId(String::from_str(id))
    }

    /// The text of the identifier.
    pub fn as_str(&self) -> (s: &str)
        ensures
            s@ == self.0@,
    {
        self.0.as_str()
    }

    /// The text form `nest:<text>`.
    pub fn to_string(&self) -> (s: String)
        ensures
            s@ == "nest:"@ + self.0@,
    {
        prefixed_text("nest:", self.0.as_str())
    }
}

/// Kind of nest structure.
#[derive(Clone, Copy, Debug, PartialEq, Eq, PartialOrd, Ord, Hash, Structural)]
pub enum NestKind {
    /// Underground tunnel colony.
    Colony,
    /// Above-ground hive structure.
    Hive,
    /// Animal den or lair.
    Den,
    /// Underground burrow system.
    Burrow,
    /// Constructed mound.
    Mound,
    /// Organic growth cluster.
    Cluster,
    /// Aquatic nest.
    Aquatic,
}

impl Default for NestKind {
    fn default() -> (k: Self)
        ensures
            k == NestKind::Colony,
    {
        NestKind::Colony
    }
}

/// The population a nest of the given kind holds before any expansion.
pub open spec fn spec_base_capacity(kind: NestKind) -> u32 {
    match kind {
        NestKind::Colony => 500,
        NestKind::Hive => 1000,
        NestKind::Den => 20,
        NestKind::Burrow => 50,
        NestKind::Mound => 200,
        NestKind::Cluster => 100,
        NestKind::Aquatic => 150,
    }
}

impl NestKind {
    /// The population a nest of this kind holds before any expansion.
    pub fn base_capacity(self) -> (c: u32)
        ensures
            c == spec_base_capacity(self),
    {
        match self {
            NestKind::Colony => 500,
            NestKind::Hive => 1000,
            NestKind::Den => 20,
            NestKind::Burrow => 50,
            NestKind::Mound => 200,
            NestKind::Cluster => 100,
            NestKind::Aquatic => 150,
        }
    }
}

/// Stage of nest lifecycle.
#[derive(Clone, Copy, Debug, PartialEq, Eq, PartialOrd, Ord, Hash, Structural)]
pub enum NestStage {
    /// Nest is being founded.
    Founding,
    /// Nest is establishing initial structure.
    Establishing,
    /// Nest is actively growing.
    Growing,
    /// Nest has reached maturity.
    Mature,
    /// Nest is declining.
    Declining,
    /// Nest is undergoing metamorphosis/transformation.
    Metamorphosis,
    /// Nest has collapsed or been abandoned.
    Collapsed,
}

impl Default for NestStage {
    fn default() -> (s: Self)
        ensures
            s == NestStage::Founding,
    {
        NestStage::Founding
    }
}

impl NestStage {
    /// Every stage but declining and collapsed.
    pub fn is_active(self) -> (b: bool)
        ensures
            b == !(self == NestStage::Declining || self == NestStage::Collapsed),
    {
        matches!(
            self,
            NestStage::Founding | NestStage::Establishing | NestStage::Growing | NestStage::Mature
                | NestStage::Metamorphosis
        )
    }

    /// Only a collapsed nest is in its final stage.
    pub fn is_terminal(self) -> (b: bool)
        ensures
            b == (self == NestStage::Collapsed),
    {
        matches!(self, NestStage::Collapsed)
    }

    /// Growing and mature nests may expand.
    pub fn can_expand(self) -> (b: bool)
        ensures
            b == (self == NestStage::Growing || self == NestStage::Mature),
    {
        matches!(self, NestStage::Growing | NestStage::Mature)
    }
}

/// Transition between nest stages.
#[derive(Clone, Debug, PartialEq, Eq)]
pub struct NestStageTransition {
    pub nest_id: NestId,
    pub from: NestStage,
    pub to: NestStage,
    pub tick: u64,
}

/// Why a nest could not expand.
#[derive(Clone, Copy, Debug, PartialEq, Eq, Hash, Structural)]
pub enum ExpansionFailureReason {
    InsufficientHealth,
    InsufficientPopulation,
    BlockedByFront,
    CompetitorPresent,
    RegionUnavailable,
}

/// Reasons for nest collapse.
#[derive(Clone, Copy, Debug, PartialEq, Eq, Structural)]
pub enum CollapseReason {
    HealthDepleted,
    Abandoned,
    Overrun,
    EnvironmentalHazard,
}

/// Fingerprint for nest state verification.
#[derive(Clone, Copy, Debug, PartialEq, Eq, Hash, Structural)]
pub struct NestFingerprint(pub u32);

impl NestFingerprint {
    /// The raw fingerprint.
    pub fn raw(self) -> (r: u32)
        ensures
            r == self.0,
    {
        self.0
    }

    /// The text form `nest:<eight hex digits>`.
    pub fn to_string(&self) -> (s: String)
        ensures
            s@ == "nest:"@ + hex_padded(self.0 as nat, 8),
    {
        prefixed_hex8("nest:", self.0)
    }
}

} // verus!
