//! The desktop shells: layer surfaces.

pub mod layer;
pub mod mapping;
pub mod zones;
