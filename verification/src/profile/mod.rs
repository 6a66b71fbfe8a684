//! How cleanly a document exports to URDF.
//!
//! A document is in profile where its export keeps every value, possibly after a frame conversion or
//! a bake, and out of profile where the export drops content. Each finding names one reason; the
//! worst of them classifies the document.
pub mod finding_laws;
pub mod findings;
pub mod counts;
pub mod laws;
pub mod reasons;
pub mod render;
pub mod render_laws;

pub use findings::{
    Finding, Issue, Level, LossEntry, LossManifest, ProfileReport, Tier, check_profile,
};
