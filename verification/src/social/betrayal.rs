//! Betrayal incidents: kinds, statuses, severities, the incident lifecycle and
//! its checksum.

use vstd::prelude::*;
use vstd::utf8::encode_utf8;
use crate::checksum::{crc32, crc32_of, le_bytes, push_le, push_str_bytes};
use super::ids::{BetrayalId, SocialAgentId, SocialFactionId};

verus! {

/// Kind of betrayal.
#[derive(Clone, Debug, PartialEq, Eq, Hash)]
pub enum BetrayalKind {
    Defection,
    Sabotage,
    InformationLeak,
    Assassination,
    Mutiny,
    Desertion,
    Coup,
    Espionage,
    ResourceTheft,
    Custom(String),
}

impl BetrayalKind {
    /// The index of the kind in declaration order (custom kinds share 9).
    pub open spec fn spec_index(&self) -> u8 {
        match self {
            BetrayalKind::Defection => 0,
            BetrayalKind::Sabotage => 1,
            BetrayalKind::InformationLeak => 2,
            BetrayalKind::Assassination => 3,
            BetrayalKind::Mutiny => 4,
            BetrayalKind::Desertion => 5,
            BetrayalKind::Coup => 6,
            BetrayalKind::Espionage => 7,
            BetrayalKind::ResourceTheft => 8,
            BetrayalKind::Custom(_) => 9,
        }
    }

    /// The index of the kind in declaration order (custom kinds share 9).
    pub fn as_index(&self) -> (i: u8)
        ensures
            i == self.spec_index(),
    {
        match self {
            BetrayalKind::Defection => 0,
            BetrayalKind::Sabotage => 1,
            BetrayalKind::InformationLeak => 2,
            BetrayalKind::Assassination => 3,
            BetrayalKind::Mutiny => 4,
            BetrayalKind::Desertion => 5,
            BetrayalKind::Coup => 6,
            BetrayalKind::Espionage => 7,
            BetrayalKind::ResourceTheft => 8,
            BetrayalKind::Custom(_) => 9,
        }
    }
}

/// Resolution of a betrayal.
#[derive(Clone, Copy, Debug, PartialEq, Eq, Hash, Structural)]
pub enum BetrayalResolution {
    Succeeded,
    Prevented,
    Pardoned,
    Punished,
    Escaped,
    Killed,
}

/// Status of a betrayal incident.
#[derive(Clone, Copy, Debug, PartialEq, Eq, Hash, Structural)]
pub enum BetrayalStatus {
    Plotting,
    InProgress,
    Detected,
    Resolved(BetrayalResolution),
}

impl BetrayalStatus {
    /// The index of the status: plotting 0, in progress 1, detected 2, resolved 3.
    pub open spec fn spec_index(&self) -> u8 {
        match self {
            BetrayalStatus::Plotting => 0,
            BetrayalStatus::InProgress => 1,
            BetrayalStatus::Detected => 2,
            BetrayalStatus::Resolved(_) => 3,
        }
    }

    /// The index of the status: plotting 0, in progress 1, detected 2, resolved 3.
    pub fn as_index(&self) -> (i: u8)
        ensures
            i == self.spec_index(),
    {
        match self {
            BetrayalStatus::Plotting => 0,
            BetrayalStatus::InProgress => 1,
            BetrayalStatus::Detected => 2,
            BetrayalStatus::Resolved(_) => 3,
        }
    }
}

/// Severity of betrayal, mildest first.
#[derive(Clone, Copy, Debug, PartialEq, Eq, PartialOrd, Ord, Hash, Structural)]
pub enum BetrayalSeverity {
    Minor,
    Moderate,
    Major,
    Catastrophic,
}

impl BetrayalSeverity {
    /// The index of the severity, from 0 (minor) to 3 (catastrophic).
    pub open spec fn spec_index(self) -> u8 {
        match self {
            BetrayalSeverity::Minor => 0,
            BetrayalSeverity::Moderate => 1,
            BetrayalSeverity::Major => 2,
            BetrayalSeverity::Catastrophic => 3,
        }
    }

    /// The index of the severity, from 0 (minor) to 3 (catastrophic).
    pub fn as_index(self) -> (i: u8)
        ensures
            i == self.spec_index(),
    {
        match self {
            BetrayalSeverity::Minor => 0,
            BetrayalSeverity::Moderate => 1,
            BetrayalSeverity::Major => 2,
            BetrayalSeverity::Catastrophic => 3,
        }
    }
}

/// A detected or active betrayal incident.
#[derive(Clone, Debug, PartialEq, Eq, Hash)]
pub struct BetrayalIncident {
    pub id: BetrayalId,
    pub betrayer: SocialAgentId,
    pub betrayed_faction: SocialFactionId,
    pub target_faction: Option<SocialFactionId>,
    pub kind: BetrayalKind,
    pub status: BetrayalStatus,
    pub detected_tick: Option<u64>,
    pub resolved_tick: Option<u64>,
    pub severity: BetrayalSeverity,
}

/// The incident after detection at `tick`: a plot that is plotting or in progress
/// becomes detected; any other incident is unchanged.
pub open spec fn detected(i: BetrayalIncident, tick: u64) -> BetrayalIncident {
    if i.status == BetrayalStatus::Plotting || i.status == BetrayalStatus::InProgress {
        BetrayalIncident { status: BetrayalStatus::Detected, detected_tick: Some(tick), ..i }
    } else {
        i
    }
}

/// The incident after execution: a plotting incident goes in progress; any other is unchanged.
pub open spec fn executed(i: BetrayalIncident) -> BetrayalIncident {
    if i.status == BetrayalStatus::Plotting {
        BetrayalIncident { status: BetrayalStatus::InProgress, ..i }
    } else {
        i
    }
}

/// The incident after resolution at `tick`, whatever its status was.
pub open spec fn resolved(i: BetrayalIncident, resolution: BetrayalResolution, tick: u64) -> BetrayalIncident {
    BetrayalIncident { status: BetrayalStatus::Resolved(resolution), resolved_tick: Some(tick), ..i }
}

/// An incident is active while plotting, in progress or detected.
pub open spec fn incident_active(i: BetrayalIncident) -> bool {
    !(i.status is Resolved)
}

/// The bytes checksummed by `BetrayalIncident::checksum`.
pub open spec fn incident_bytes(i: BetrayalIncident) -> Seq<u8> {
    le_bytes(i.id.0 as nat, 8) + le_bytes(i.betrayer.0 as nat, 8) + encode_utf8(i.betrayed_faction.0@)
        + seq![i.kind.spec_index()] + seq![i.status.spec_index()] + seq![i.severity.spec_index()]
}

impl BetrayalIncident {
    /// A new plot: plotting, minor, with no target and no ticks recorded.
    pub fn new(
        id: BetrayalId,
        betrayer: SocialAgentId,
        betrayed_faction: SocialFactionId,
        kind: BetrayalKind,
    ) -> (r: Self)
        ensures
            r == (BetrayalIncident {
                id,
                betrayer,
                betrayed_faction,
                target_faction: None,
                kind,
                status: BetrayalStatus::Plotting,
                detected_tick: None,
                resolved_tick: None,
                severity: BetrayalSeverity::Minor,
            }),
    {
        BetrayalIncident {
            id,
            betrayer,
            betrayed_faction,
            target_faction: None,
            kind,
            status: BetrayalStatus::Plotting,
            detected_tick: None,
            resolved_tick: None,
            severity: BetrayalSeverity::Minor,
        }
    }

    /// Sets the faction the betrayer works for.
    pub fn with_target(self, faction: SocialFactionId) -> (r: Self)
        ensures
            r == (BetrayalIncident { target_faction: Some(faction), ..self }),
    {
        let mut s = self;
        s.target_faction = Some(faction);
        s
    }

    /// Sets the severity.
    pub fn with_severity(self, severity: BetrayalSeverity) -> (r: Self)
        ensures
            r == (BetrayalIncident { severity, ..self }),
    {
        let mut s = self;
        s.severity = severity;
        s
    }

    /// The plot is detected at `tick`.
    pub fn detect(&mut self, tick: u64)
        ensures
            *final(self) == detected(*old(self), tick),
    {
        if self.status == BetrayalStatus::Plotting || self.status == BetrayalStatus::InProgress {
            self.status = BetrayalStatus::Detected;
            self.detected_tick = Some(tick);
        }
    }

    /// The plot is carried out.
    pub fn execute(&mut self)
        ensures
            *final(self) == executed(*old(self)),
    {
        if self.status == BetrayalStatus::Plotting {
            self.status = BetrayalStatus::InProgress;
        }
    }

    /// The incident is resolved at `tick`.
    pub fn resolve(&mut self, resolution: BetrayalResolution, tick: u64)
        ensures
            *final(self) == resolved(*old(self), resolution, tick),
    {
        self.status = BetrayalStatus::Resolved(resolution);
        self.resolved_tick = Some(tick);
    }

    /// Whether the incident is still active.
    pub fn is_active(&self) -> (b: bool)
        ensures
            b == incident_active(*self),
    {
        matches!(self.status, BetrayalStatus::Plotting | BetrayalStatus::InProgress | BetrayalStatus::Detected)
    }

    /// The CRC32 checksum of the incident's identity, kind, status and severity.
    pub fn checksum(&self) -> (c: u32)
        ensures
            c == crc32_of(incident_bytes(*self)),
    {
        let mut bytes: Vec<u8> = Vec::new();
        push_le(&mut bytes, self.id.0, 8);
        push_le(&mut bytes, self.betrayer.0, 8);
        push_str_bytes(&mut bytes, self.betrayed_faction.0.as_str());
        bytes.push(self.kind.as_index());
        bytes.push(self.status.as_index());
        bytes.push(self.severity.as_index());
        proof {
            assert(bytes@ =~= incident_bytes(*self));
        }
        crc32(&bytes)
    }
}

} // verus!

verus! {

/// A resolved incident is final: detecting or executing it changes nothing,
/// and it is no longer active.
pub proof fn law_resolved_is_final(i: BetrayalIncident, resolution: BetrayalResolution, tick: u64, later: u64)
    ensures
        detected(resolved(i, resolution, tick), later) == resolved(i, resolution, tick),
        executed(resolved(i, resolution, tick)) == resolved(i, resolution, tick),
        !incident_active(resolved(i, resolution, tick)),
{
}

/// A plot moves forward only: execution then detection leaves it detected, and
/// detecting it again keeps the first detection tick.
pub proof fn law_incident_moves_forward(i: BetrayalIncident, t1: u64, t2: u64)
    requires
        i.status == BetrayalStatus::Plotting,
    ensures
        detected(executed(i), t1).status == BetrayalStatus::Detected,
        detected(detected(i, t1), t2) == detected(i, t1),
        incident_active(detected(executed(i), t1)),
{
}

/// Detection uncovers any plot not yet detected or resolved: a plotting or
/// in-progress incident becomes detected at the given tick with nothing else
/// changed, and a detected or resolved incident is left as it is.
pub proof fn law_detection_uncovers_open_plots(i: BetrayalIncident, tick: u64)
    ensures
        i.status == BetrayalStatus::Plotting ==> detected(i, tick).status == BetrayalStatus::Detected
            && detected(i, tick).detected_tick == Some(tick),
        i.status == BetrayalStatus::InProgress ==> detected(i, tick).status == BetrayalStatus::Detected
            && detected(i, tick).detected_tick == Some(tick),
        detected(i, tick).id == i.id && detected(i, tick).betrayer == i.betrayer
            && detected(i, tick).betrayed_faction == i.betrayed_faction && detected(i, tick).kind == i.kind,
        i.status == BetrayalStatus::Detected ==> detected(i, tick) == i,
        i.status is Resolved ==> detected(i, tick) == i,
{
}

/// An incident stays active until it is resolved: it is active while it is
/// plotted, carried out or detected, and inactive once resolved; carrying out
/// or detecting a plot never ends it.
pub proof fn law_active_until_resolved(i: BetrayalIncident, tick: u64)
    ensures
        i.status == BetrayalStatus::Plotting ==> incident_active(i),
        i.status == BetrayalStatus::InProgress ==> incident_active(i),
        i.status == BetrayalStatus::Detected ==> incident_active(i),
        i.status is Resolved ==> !incident_active(i),
        incident_active(i) ==> incident_active(executed(i)),
        incident_active(i) ==> incident_active(detected(i, tick)),
{
}

/// Carrying out a plot puts a plotting incident in progress with nothing else
/// changed; an incident already in progress, detected or resolved is left as
/// it is.
pub proof fn law_execution_starts_only_plots(i: BetrayalIncident)
    ensures
        i.status == BetrayalStatus::Plotting ==> executed(i) == (BetrayalIncident {
            status: BetrayalStatus::InProgress,
            ..i
        }),
        i.status != BetrayalStatus::Plotting ==> executed(i) == i,
{
}

} // verus!
