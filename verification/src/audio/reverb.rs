//! Reverb zones and the presets that describe their acoustic environment.

use vstd::prelude::*;
use super::occlusion::AcousticMaterial;

verus! {

/// Unique identifier for a reverb zone.
#[derive(Clone, Copy, Debug, PartialEq, Eq, Hash, Structural)]
pub struct ReverbZoneId(pub u32);

impl Default for ReverbZoneId {
    fn default() -> (z: Self)
        ensures
            z.0 == 0,
    {
        ReverbZoneId(0)
    }
}

impl ReverbZoneId {
    /// Create a new zone identifier.
    pub fn new(id: u32) -> (z: Self)
        ensures
            z.0 == id,
    {
        ReverbZoneId(id)
    }

    /// The raw identifier value.
    pub fn value(&self) -> (v: u32)
        ensures
            v == self.0,
    {
        self.0
    }
}

/// Reverb preset based on acoustic environment.
#[derive(Clone, Copy, Debug, PartialEq, Eq, Hash, Structural)]
pub enum ReverbPreset {
    /// No reverb (outdoor, anechoic).
    Dry,
    /// Small room (closet, bathroom).
    SmallRoom,
    /// Medium room (bedroom, office).
    MediumRoom,
    /// Large room (hall, warehouse).
    LargeRoom,
    /// Cave/cavern.
    Cave,
    /// Underwater.
    Underwater,
    /// Stone corridor/tunnel.
    StoneCorridor,
    /// Wooden interior.
    WoodInterior,
    /// Metal enclosure.
    MetalEnclosure,
    /// Cathedral/large stone.
    Cathedral,
    /// Forest (outdoor with absorption).
    Forest,
    /// Canyon/cliffs.
    Canyon,
}

impl Default for ReverbPreset {
    fn default() -> (p: Self)
        ensures
            p == ReverbPreset::Dry,
    {
        ReverbPreset::Dry
    }
}

/// The material that dominates the reflections of a preset.
pub open spec fn spec_dominant_material(preset: ReverbPreset) -> AcousticMaterial {
    match preset {
        ReverbPreset::Dry | ReverbPreset::Forest | ReverbPreset::Canyon => AcousticMaterial::Air,
        ReverbPreset::SmallRoom | ReverbPreset::MediumRoom | ReverbPreset::LargeRoom | ReverbPreset::Cave
        | ReverbPreset::StoneCorridor | ReverbPreset::Cathedral => AcousticMaterial::Stone,
        ReverbPreset::Underwater => AcousticMaterial::Liquid,
        ReverbPreset::WoodInterior => AcousticMaterial::Wood,
        ReverbPreset::MetalEnclosure => AcousticMaterial::Metal,
    }
}

impl ReverbPreset {
    /// All presets in declaration order.
    pub fn all() -> (v: Vec<ReverbPreset>)
        ensures
            v@ == seq![
                ReverbPreset::Dry,
                ReverbPreset::SmallRoom,
                ReverbPreset::MediumRoom,
                ReverbPreset::LargeRoom,
                ReverbPreset::Cave,
                ReverbPreset::Underwater,
                ReverbPreset::StoneCorridor,
                ReverbPreset::WoodInterior,
                ReverbPreset::MetalEnclosure,
                ReverbPreset::Cathedral,
                ReverbPreset::Forest,
                ReverbPreset::Canyon,
            ],
    {
        vec![
            ReverbPreset::Dry,
            ReverbPreset::SmallRoom,
            ReverbPreset::MediumRoom,
            ReverbPreset::LargeRoom,
            ReverbPreset::Cave,
            ReverbPreset::Underwater,
            ReverbPreset::StoneCorridor,
            ReverbPreset::WoodInterior,
            ReverbPreset::MetalEnclosure,
            ReverbPreset::Cathedral,
            ReverbPreset::Forest,
            ReverbPreset::Canyon,
        ]
    }

    /// The material that dominates the reflections of this preset.
    pub fn dominant_material(&self) -> (m: AcousticMaterial)
        ensures
            m == spec_dominant_material(*self),
    {
        match self {
            ReverbPreset::Dry | ReverbPreset::Forest | ReverbPreset::Canyon => AcousticMaterial::Air,
            ReverbPreset::SmallRoom | ReverbPreset::MediumRoom | ReverbPreset::LargeRoom | ReverbPreset::Cave
            | ReverbPreset::StoneCorridor | ReverbPreset::Cathedral => AcousticMaterial::Stone,
            ReverbPreset::Underwater => AcousticMaterial::Liquid,
            ReverbPreset::WoodInterior => AcousticMaterial::Wood,
            ReverbPreset::MetalEnclosure => AcousticMaterial::Metal,
        }
    }
}

} // verus!
