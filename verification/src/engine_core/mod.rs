//! Engine configuration and virtual resolution.
pub mod config;
pub mod resolution;

pub use config::{EngineConfig, VirtualResolution};
pub use resolution::PixelScale;
