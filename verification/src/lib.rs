//! Deterministic simulation rules for a colony game: settler work assignment,
//! social dynamics, territory and nests, perception channels and audio
//! classification, stated and proved with Verus.

pub mod checksum;
pub mod id_table;
pub mod keys;
pub mod ordered;
pub mod sensor;
pub mod settler;
pub mod social;
pub mod text;
pub mod territory_pressure;
pub mod audio;
