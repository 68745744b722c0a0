//! Social simulation: identifiers, fingerprints, betrayal incidents, diplomacy,
//! panic events, trends and stance counts.

pub mod ids;

pub use ids::{BetrayalId, DiplomacyId, PanicId, SocialAgentId, SocialFactionId, SocialGroupId};
pub mod fingerprint;
pub use fingerprint::{BetrayalFingerprint, DiplomacyFingerprint, MoraleFingerprint, PanicFingerprint, SocialFingerprint};
pub mod betrayal;
pub mod betrayal_tracker;
pub use betrayal_tracker::{BetrayalTracker, FactionIncidents};
pub use betrayal::{BetrayalIncident, BetrayalKind, BetrayalResolution, BetrayalSeverity, BetrayalStatus};
pub mod diplomacy;
pub mod relations;
pub mod diplomacy_tracker;
pub use diplomacy_tracker::DiplomacyTracker;
pub use diplomacy::{DiplomacyEvent, DiplomacyEventKind, DiplomaticRelation, DiplomaticStance, Treaty, TreatyId, TreatyKind, TreatyStatus};
pub mod panic;
pub use panic::{PanicCascade, PanicEvent, PanicEventStatus, PanicSource, PanicTracker};
pub mod projection;
pub use projection::SocialTrend;
pub mod snapshot;
pub use snapshot::StanceCounts;
