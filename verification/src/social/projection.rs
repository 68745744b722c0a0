//! The direction in which a social state is heading.

use vstd::prelude::*;

verus! {

/// Trend of social stability.
#[derive(Clone, Copy, Debug, PartialEq, Eq, Hash, Structural)]
pub enum SocialTrend {
    Improving,
    Stable,
    Deteriorating,
    Critical,
}

impl Default for SocialTrend {
    fn default() -> (t: Self)
        ensures
            t == SocialTrend::Stable,
    {
        SocialTrend::Stable
    }
}

impl SocialTrend {
    /// The trend is improving.
    pub fn is_positive(&self) -> (b: bool)
        ensures
            b == (*self == SocialTrend::Improving),
    {
        matches!(self, SocialTrend::Improving)
    }

    /// The trend is deteriorating or critical.
    pub fn is_negative(&self) -> (b: bool)
        ensures
            b == (*self == SocialTrend::Deteriorating || *self == SocialTrend::Critical),
    {
        matches!(self, SocialTrend::Deteriorating | SocialTrend::Critical)
    }

    /// The index of the trend in declaration order.
    pub open spec fn spec_index(&self) -> u8 {
        match self {
            SocialTrend::Improving => 0,
            SocialTrend::Stable => 1,
            SocialTrend::Deteriorating => 2,
            SocialTrend::Critical => 3,
        }
    }

    /// The index of the trend in declaration order.
    pub fn as_index(&self) -> (i: u8)
        ensures
            i == self.spec_index(),
    {
        match self {
            SocialTrend::Improving => 0,
            SocialTrend::Stable => 1,
            SocialTrend::Deteriorating => 2,
            SocialTrend::Critical => 3,
        }
    }
}

} // verus!
