//! Typed identifiers for the settler task system.

use vstd::prelude::*;
use crate::text::{decimal, prefixed_decimal, prefixed_text};

verus! {

/// Unique identifier for a settler.
#[derive(Clone, Copy, Debug, PartialEq, Eq, PartialOrd, Ord, Hash, Structural)]
pub struct SettlerId(pub u64);

impl SettlerId {
    /// The identifier with the given number.
    pub fn new(id: u64) -> (r: Self)
        ensures
            r.0 == id,
    {
        SettlerId(id)
    }

    /// The number of the identifier.
    pub fn raw(self) -> (r: u64)
        ensures
            r == self.0,
    {
        self.0
    }

    /// The text form `settler:<number>`.
    pub fn to_string(&self) -> (s: String)
        ensures
            s@ == "settler:"@ + decimal(self.0 as nat),
    {
        prefixed_decimal("settler:", self.0)
    }
}

/// Unique identifier for a task instance.
#[derive(Clone, Copy, Debug, PartialEq, Eq, PartialOrd, Ord, Hash, Structural)]
pub struct TaskId(pub u64);

impl TaskId {
    /// The identifier with the given number.
    pub fn new(id: u64) -> (r: Self)
        ensures
            r.0 == id,
    {
        TaskId(id)
    }

    /// The number of the identifier.
    pub fn raw(self) -> (r: u64)
        ensures
            r == self.0,
    {
        self.0
    }

    /// The text form `task:<number>`.
    pub fn to_string(&self) -> (s: String)
        ensures
            s@ == "task:"@ + decimal(self.0 as nat),
    {
        prefixed_decimal("task:", self.0)
    }
}

/// Unique identifier for a task definition.
#[derive(Clone, Debug, PartialEq, Eq, PartialOrd, Ord, Hash)]
pub struct TaskDefId(pub String);

impl TaskDefId {
    /// The identifier with the given text.
    pub fn new(id: &str) -> (r: Self)
        ensures
            r.0@ == id@,
    {
        TaskDefId(String::from_str(id))
    }

    /// The text of the identifier.
    pub fn as_str(&self) -> (s: &str)
        ensures
            s@ == self.0@,
    {
        self.0.as_str()
    }

    /// The text form `taskdef:<text>`.
    pub fn to_string(&self) -> (s: String)
        ensures
            s@ == "taskdef:"@ + self.0@,
    {
        prefixed_text("taskdef:", self.0.as_str())
    }
}

/// Unique identifier for a capability (skill).
#[derive(Clone, Debug, PartialEq, Eq, PartialOrd, Ord, Hash)]
pub struct CapabilityId(pub String);

impl CapabilityId {
    /// The identifier with the given text.
    pub fn new(id: &str) -> (r: Self)
        ensures
            r.0@ == id@,
    {
        CapabilityId(String::from_str(id))
    }

    /// The text of the identifier.
    pub fn as_str(&self) -> (s: &str)
        ensures
            s@ == self.0@,
    {
        self.0.as_str()
    }

    /// The text form `cap:<text>`.
    pub fn to_string(&self) -> (s: String)
        ensures
            s@ == "cap:"@ + self.0@,
    {
        prefixed_text("cap:", self.0.as_str())
    }
}

/// Unique identifier for a region.
#[derive(Clone, Copy, Debug, PartialEq, Eq, PartialOrd, Ord, Hash, Structural)]
pub struct RegionId(pub u64);

impl RegionId {
    /// The identifier with the given number.
    pub fn new(id: u64) -> (r: Self)
        ensures
            r.0 == id,
    {
        RegionId(id)
    }

    /// The number of the identifier.
    pub fn raw(self) -> (r: u64)
        ensures
            r == self.0,
    {
        self.0
    }

    /// The text form `region:<number>`.
    pub fn to_string(&self) -> (s: String)
        ensures
            s@ == "region:"@ + decimal(self.0 as nat),
    {
        prefixed_decimal("region:", self.0)
    }
}

} // verus!

verus! {

impl crate::keys::Keyed for TaskDefId {
    open spec fn key(&self) -> Seq<char> {
        self.0@
    }

    fn key_str(&self) -> (s: &str) {
        self.0.as_str()
    }
}

impl crate::keys::Keyed for CapabilityId {
    open spec fn key(&self) -> Seq<char> {
        self.0@
    }

    fn key_str(&self) -> (s: &str) {
        self.0.as_str()
    }
}

} // verus!
