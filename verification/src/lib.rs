//! Pixgine: the verified core of a 2D pixel-art game engine and its editor.
//!
//! - `engine_core` - engine configuration and the integer pixel-scale computation
//! - `assets` - asset handles, per-texture import settings, path comparison,
//!   the asset registry and the collection of changed files for hot reloading
//! - `input` - keyboard and mouse-button state across frames
//! - `animation` - frame stepping of sprite animations
//! - `scene` - component names, tile layers, and the entity names and parent
//!   links of scene files
//! - `editor` - spritesheet slicing, image thumbnails, loaded textures, tile
//!   layers, undo history and the parent links of undo snapshots, recent
//!   files, the entity hierarchy, the order of the entity list, the
//!   selection, entity names and keyboard commands
//! - `scripting` - which loaded scripts changed on disk and need reloading
//! - `batching` - grouping queued sprites by texture
//! - `propagation` - the order in which parent transforms reach children
//! - `text`, `lists` - decimal names and list helpers shared by the above
pub mod engine_core;
pub mod assets;
pub mod input;
pub mod animation;
pub mod editor;
pub mod text;
pub mod scene;
pub mod lists;
pub mod scripting;
pub mod batching;
pub mod propagation;
