//! Scenes: the tile layers they store, the component names they use, and
//! how entity names and parent references are written and read back.
pub mod components;
pub mod tilemap;
pub mod hierarchy;

pub use components::ComponentKind;
pub use tilemap::TileLayerData;
