//! Turning the meshes that an imported document refers to into assets of its own.
//!
//! The library decides which meshes are baked and how, what the assets are called, what is noted, and
//! what becomes of the document. Files are looked up, read, converted and written by a workshop that the
//! caller provides.
pub mod asset;
pub mod env;
pub mod laws;
pub mod name_laws;
pub mod names;
pub mod notes;
pub mod origin;
pub mod plan;
pub mod types;
pub mod walk;
pub mod workshop;

pub use env::{BakeEnv, prefixed_uri, rel_path};
pub use names::{asset_name, safe_stem};
pub use notes::{
    drop_baked_notes, from_sdf_str_with_baking, from_urdf_str_with_baking, import_then_bake, Imported,
};
pub use plan::{MeshPlan, mesh_plan, plan_notes, scale_is_none_or_identity, texture_note};
pub use types::{BakedAsset, HintTexture, MeshBakeSpec, MeshSite, VisualAssetHint, WriteFault};
pub use walk::bake_document;
pub use workshop::Workshop;
