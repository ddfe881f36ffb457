//! The editor's own logic: spritesheet slicing, image decoding and
//! thumbnails, the loaded textures, tile layers, undo history and its
//! snapshots' parent links, the recent-files list, the scene hierarchy, the
//! order of the entity list, the selection, keyboard commands and what the
//! viewport draws.
pub mod spritesheet;
pub mod images;
pub mod selection;
pub mod textures;
pub mod undo;
pub mod snapshot;
pub mod order;
pub mod recent;
pub mod tiles;
pub mod hierarchy;
pub mod commands;
pub mod names;
pub mod drawing;
