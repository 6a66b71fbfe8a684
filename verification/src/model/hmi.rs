//! Human-machine interface elements.
use vstd::prelude::*;
use super::enums::HmiType;
use super::geometry::Geometry;
use super::Pose;

verus! {

#[derive(Debug, Clone, PartialEq, Default)]
pub struct HmiElement {
    pub name: Option<String>,
    pub type_: Option<HmiType>,
    pub visual: Option<String>,
    pub mesh: Option<String>,
    pub description: Option<String>,
    pub pose: Option<Pose>,
    pub geometry: Option<Geometry>,
    /// `<illumination>`: the emitted-light model of a scene-illumination HMI (`@type="led-illumination"`),
    /// a headlight/work-light/IR illuminator. Maps bidirectionally to an SDF `<light>`.
    pub illumination: Option<LedIllumination>,
}

/// `<illumination light-type= cast-shadows= intensity=>` with diffuse/specular/direction/attenuation:
/// the photometric parameters of a scene-illumination light (SDF `<light>`). The light's placement is
/// the owning [`HmiElement`]'s `<pose>`.
#[derive(Debug, Clone, PartialEq, Default)]
pub struct LedIllumination {
    pub light_type: Option<String>,
    pub cast_shadows: Option<String>,
    pub intensity: Option<String>,
    pub diffuse: Option<String>,
    pub specular: Option<String>,
    pub direction: Option<String>,
    pub attenuation: Option<LightAttenuation>,
}

/// `<attenuation>`: distance falloff of a light (SDF `light/attenuation`).
#[derive(Debug, Clone, PartialEq, Default)]
pub struct LightAttenuation {
    pub range: Option<String>,
    pub linear: Option<String>,
    pub constant: Option<String>,
    pub quadratic: Option<String>,
}

} // verus!
