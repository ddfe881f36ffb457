//! Asset handles, import settings and the bookkeeping of loaded assets.
pub mod handle;
pub mod import;
pub mod paths;
pub mod registry;
pub mod watcher;

pub use handle::AssetHandle;
pub use import::{ImportSettings, TextureFilter, TextureType};
pub use registry::{AssetMeta, AssetRegistry, AssetType, ReloadAction};
