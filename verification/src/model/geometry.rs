//! Geometry primitives and the three geometry containers: visual, collision and general.
use vstd::prelude::*;
use super::enums::FrustumShape;

verus! {

#[derive(Debug, Clone, PartialEq, Default)]
pub struct Box_ {
    pub size: Option<String>,
}

#[derive(Debug, Clone, PartialEq, Default)]
pub struct Cylinder {
    pub radius: Option<String>,
    pub length: Option<String>,
}

#[derive(Debug, Clone, PartialEq, Default)]
pub struct Sphere {
    pub radius: Option<String>,
}

#[derive(Debug, Clone, PartialEq, Default)]
pub struct Capsule {
    pub radius: Option<String>,
    pub length: Option<String>,
}

#[derive(Debug, Clone, PartialEq, Default)]
pub struct Cone {
    pub radius: Option<String>,
    pub length: Option<String>,
}

#[derive(Debug, Clone, PartialEq, Default)]
pub struct Ellipsoid {
    pub radii: Option<String>,
}

/// `<mesh uri= scale= sha= source-uri=>` with an optional `<submesh>` sub-part selector.
#[derive(Debug, Clone, PartialEq, Default)]
pub struct Mesh {
    pub uri: Option<String>,
    pub scale: Option<String>,
    pub sha: Option<String>,
    pub source_uri: Option<String>,
    /// `<submesh name= center=>`: load only a single named sub-part of a multi-part mesh file
    /// (SDF mesh/submesh). When absent: the whole file.
    pub submesh: Option<Submesh>,
}

/// `<submesh name= center=>`: selects a single named sub-part (node/group) within a mesh file.
#[derive(Debug, Clone, PartialEq, Default)]
pub struct Submesh {
    pub name: Option<String>,
    pub center: Option<String>,
}

#[derive(Debug, Clone, PartialEq, Default)]
pub struct ExcludeSubmesh {
    pub name: Option<String>,
}

/// `<frustum shape=>` with near/far + (fov | hfov+vfov). Used only in general [`Geometry`].
#[derive(Debug, Clone, PartialEq, Default)]
pub struct Frustum {
    pub shape: Option<FrustumShape>,
    pub near: Option<String>,
    pub far: Option<String>,
    pub fov: Option<String>,
    pub hfov: Option<String>,
    pub vfov: Option<String>,
}

/// Visual primitives only (no mesh / frustum).
#[derive(Debug, Clone, PartialEq, Default)]
pub struct VisualGeometry {
    pub box_: Option<Box_>,
    pub cylinder: Option<Cylinder>,
    pub sphere: Option<Sphere>,
    pub capsule: Option<Capsule>,
    pub cone: Option<Cone>,
    pub ellipsoid: Option<Ellipsoid>,
}

/// Collision geometry: visual primitives + mesh (no frustum).
#[derive(Debug, Clone, PartialEq, Default)]
pub struct CollisionGeometry {
    pub box_: Option<Box_>,
    pub cylinder: Option<Cylinder>,
    pub sphere: Option<Sphere>,
    pub capsule: Option<Capsule>,
    pub cone: Option<Cone>,
    pub ellipsoid: Option<Ellipsoid>,
    pub mesh: Option<Mesh>,
}

/// General geometry: primitives + mesh + frustum.
#[derive(Debug, Clone, PartialEq, Default)]
pub struct Geometry {
    pub box_: Option<Box_>,
    pub cylinder: Option<Cylinder>,
    pub sphere: Option<Sphere>,
    pub capsule: Option<Capsule>,
    pub cone: Option<Cone>,
    pub ellipsoid: Option<Ellipsoid>,
    pub mesh: Option<Mesh>,
    pub frustum: Option<Frustum>,
}

} // verus!
