//! Verified core of a library for hardware configuration description documents.
pub mod error;
pub mod faults;
pub mod float;
pub mod gltf;
pub mod import_bake;
pub mod json;
pub mod model;
pub mod native_path;
pub mod order;
pub mod profile;
pub mod quote;
pub mod quote_laws;
pub mod remote;
pub mod remote_laws;
pub mod report;
pub mod resource;
pub mod resource_path;
pub mod resource_sites;
pub mod sorting;
pub mod text;
pub mod xml;
