//! Firmware identity and runtime discovery state of a component.
use vstd::prelude::*;

verus! {

/// `<software name=>`: version / hash / firmware-manifest-uri / params (all text children).
#[derive(Debug, Clone, PartialEq, Default)]
pub struct Software {
    pub name: Option<String>,
    pub version: Option<String>,
    pub hash: Option<String>,
    pub firmware_manifest_uri: Option<String>,
    pub params: Option<String>,
}

/// `<discovered>`: ip / port / last-seen (text children).
#[derive(Debug, Clone, PartialEq, Default)]
pub struct Discovered {
    pub ip: Option<String>,
    pub port: Option<String>,
    pub last_seen: Option<String>,
}

/// `<urdf-compat link-type=>` on a component.
#[derive(Debug, Clone, PartialEq, Default)]
pub struct UrdfCompatComp {
    pub link_type: Option<String>,
}

} // verus!
