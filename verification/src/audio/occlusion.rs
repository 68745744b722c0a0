//! Acoustic materials through which sound propagates.

use vstd::prelude::*;

verus! {

/// Acoustic material type for sound propagation modeling.
#[derive(Clone, Copy, Debug, PartialEq, Eq, Hash, Structural)]
pub enum AcousticMaterial {
    /// Open air, minimal absorption.
    Air,
    /// Dense rock/concrete, high absorption.
    Stone,
    /// Wooden surfaces, moderate absorption.
    Wood,
    /// Metal surfaces, high reflection.
    Metal,
    /// Glass, mixed transmission/reflection.
    Glass,
    /// Water/liquids, frequency-dependent absorption.
    Liquid,
    /// Organic materials (flesh, plants), high absorption.
    Organic,
    /// Soil/dirt, very high absorption.
    Earth,
    /// Fabric/cloth, extreme absorption.
    Fabric,
}

impl Default for AcousticMaterial {
    fn default() -> (m: Self)
        ensures
            m == AcousticMaterial::Air,
    {
        AcousticMaterial::Air
    }
}

impl AcousticMaterial {
    /// All materials in declaration order.
    pub fn all() -> (v: Vec<AcousticMaterial>)
        ensures
            v@ == seq![
                AcousticMaterial::Air,
                AcousticMaterial::Stone,
                AcousticMaterial::Wood,
                AcousticMaterial::Metal,
                AcousticMaterial::Glass,
                AcousticMaterial::Liquid,
                AcousticMaterial::Organic,
                AcousticMaterial::Earth,
                AcousticMaterial::Fabric,
            ],
    {
        vec![
            AcousticMaterial::Air,
            AcousticMaterial::Stone,
            AcousticMaterial::Wood,
            AcousticMaterial::Metal,
            AcousticMaterial::Glass,
            AcousticMaterial::Liquid,
            AcousticMaterial::Organic,
            AcousticMaterial::Earth,
            AcousticMaterial::Fabric,
        ]
    }
}

} // verus!
