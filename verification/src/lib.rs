//! An asset manager which loads and provides access to assets, such as textures and meshes.

pub mod assets;
pub mod calls;
mod copied;
pub mod corners;
pub mod erased;
pub mod held;
pub mod history;
pub mod laws;
pub mod loader;
pub mod manager;
pub mod media;
pub mod mesh;
pub mod registry;
pub mod store;
pub mod texture;
pub mod type_key;
pub mod world;

pub use assets::{AssetLoader, AssetLoaderRaw, AssetReadStorage, Assets};
pub use gfx::texture::{AaMode, Kind};
pub use manager::{AssetManager, Renderable};
pub use mesh::{flatten_objects, Mesh, MeshVertex};
pub use store::{default_stores, AssetStore, DirectoryStore};
pub use texture::{texture_data, Texture, TextureLoadData};
pub use type_key::same_type;
pub use world::{Asset, AssetId, AssetStorage};
