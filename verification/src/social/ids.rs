//! Typed identifiers for the social simulation.

use vstd::prelude::*;
use crate::text::{decimal, prefixed_decimal, prefixed_text};

verus! {

/// Unique identifier for a social agent (an individual creature or settler).
#[derive(Clone, Copy, Debug, PartialEq, Eq, PartialOrd, Ord, Hash, Structural)]
pub struct SocialAgentId(pub u64);

impl SocialAgentId {
    /// The identifier with the given number.
    pub fn new(id: u64) -> (r: Self)
        ensures
            r.0 == id,
    {
        SocialAgentId(id)
    }

    /// The number of the identifier.
    pub fn raw(self) -> (r: u64)
        ensures
            r == self.0,
    {
        self.0
    }

    /// The text form `social_agent:<number>`.
    pub fn to_string(&self) -> (s: String)
        ensures
            s@ == "social_agent:"@ + decimal(self.0 as nat),
    {
        prefixed_decimal("social_agent:", self.0)
    }
}

/// Unique identifier for a social faction.
#[derive(Clone, Debug, PartialEq, Eq, PartialOrd, Ord, Hash)]
pub struct SocialFactionId(pub String);

impl SocialFactionId {
    /// The identifier with the given text.
    pub fn new(id: &str) -> (r: Self)
        ensures
            r.0@ == id@,
    {
        SocialFactionId(String::from_str(id))
    }

    /// The text of the identifier.
    pub fn as_str(&self) -> (s: &str)
        ensures
            s@ == self.0@,
    {
        self.0.as_str()
    }

    /// The text form `social_faction:<text>`.
    pub fn to_string(&self) -> (s: String)
        ensures
            s@ == "social_faction:"@ + self.0@,
    {
        prefixed_text("social_faction:", self.0.as_str())
    }
}

/// Unique identifier for a social group (pack, squad, party).
#[derive(Clone, Copy, Debug, PartialEq, Eq, PartialOrd, Ord, Hash, Structural)]
pub struct SocialGroupId(pub u64);

impl SocialGroupId {
    /// The identifier with the given number.
    pub fn new(id: u64) -> (r: Self)
        ensures
            r.0 == id,
    {
        SocialGroupId(id)
    }

    /// The number of the identifier.
    pub fn raw(self) -> (r: u64)
        ensures
            r == self.0,
    {
        self.0
    }

    /// The text form `social_group:<number>`.
    pub fn to_string(&self) -> (s: String)
        ensures
            s@ == "social_group:"@ + decimal(self.0 as nat),
    {
        prefixed_decimal("social_group:", self.0)
    }
}

/// Unique identifier for a betrayal incident.
#[derive(Clone, Copy, Debug, PartialEq, Eq, PartialOrd, Ord, Hash, Structural)]
pub struct BetrayalId(pub u64);

impl BetrayalId {
    /// The identifier with the given number.
    pub fn new(id: u64) -> (r: Self)
        ensures
            r.0 == id,
    {
        BetrayalId(id)
    }

    /// The number of the identifier.
    pub fn raw(self) -> (r: u64)
        ensures
            r == self.0,
    {
        self.0
    }

    /// The text form `betrayal:<number>`.
    pub fn to_string(&self) -> (s: String)
        ensures
            s@ == "betrayal:"@ + decimal(self.0 as nat),
    {
        prefixed_decimal("betrayal:", self.0)
    }
}

/// Unique identifier for a diplomatic relation.
#[derive(Clone, Copy, Debug, PartialEq, Eq, PartialOrd, Ord, Hash, Structural)]
pub struct DiplomacyId(pub u64);

impl DiplomacyId {
    /// The identifier with the given number.
    pub fn new(id: u64) -> (r: Self)
        ensures
            r.0 == id,
    {
        DiplomacyId(id)
    }

    /// The number of the identifier.
    pub fn raw(self) -> (r: u64)
        ensures
            r == self.0,
    {
        self.0
    }

    /// The text form `diplomacy:<number>`.
    pub fn to_string(&self) -> (s: String)
        ensures
            s@ == "diplomacy:"@ + decimal(self.0 as nat),
    {
        prefixed_decimal("diplomacy:", self.0)
    }
}

/// Unique identifier for a panic event.
#[derive(Clone, Copy, Debug, PartialEq, Eq, PartialOrd, Ord, Hash, Structural)]
pub struct PanicId(pub u64);

impl PanicId {
    /// The identifier with the given number.
    pub fn new(id: u64) -> (r: Self)
        ensures
            r.0 == id,
    {
        PanicId(id)
    }

    /// The number of the identifier.
    pub fn raw(self) -> (r: u64)
        ensures
            r == self.0,
    {
        self.0
    }

    /// The text form `panic:<number>`.
    pub fn to_string(&self) -> (s: String)
        ensures
            s@ == "panic:"@ + decimal(self.0 as nat),
    {
        prefixed_decimal("panic:", self.0)
    }
}

} // verus!
