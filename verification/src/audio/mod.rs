//! Audio classification: music layer roles, acoustic materials and reverb presets.

pub mod dynamic_music;
pub mod occlusion;
pub mod reverb;

pub use dynamic_music::MusicLayerKind;
pub use occlusion::AcousticMaterial;
pub use reverb::{ReverbPreset, ReverbZoneId};
