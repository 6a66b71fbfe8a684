//! Visual elements: an optional pose and either a model or a primitive appearance.
use vstd::prelude::*;
use super::common::Color;
use super::enums::NameOrigin;
use super::geometry::{ExcludeSubmesh, Submesh, VisualGeometry};
use super::Pose;

verus! {

#[derive(Debug, Clone, PartialEq, Default)]
pub struct ModelRef {
    pub uri: Option<String>,
    pub sha: Option<String>,
    /// The named subtrees that are shown; all of them where there are none. Centering is meaningful
    /// only where one is named.
    pub submesh: Vec<Submesh>,
    pub exclude_submesh: Vec<ExcludeSubmesh>,
}

/// The exclusive appearance choice for a `<visual>`.
#[derive(Debug, Clone, PartialEq)]
pub enum VisualAppearance {
    /// A model, with optional primitive geometry to fall back on.
    Model {
        model: ModelRef,
        geometry: Option<VisualGeometry>,
    },
    /// Primitive geometry, with an optional color.
    Primitive {
        geometry: Option<VisualGeometry>,
        color: Option<Color>,
    },
}

impl Default for VisualAppearance {
    fn default() -> (r: Self)
        ensures
            r == (VisualAppearance::Primitive { geometry: None, color: None }),
    {
        VisualAppearance::Primitive { geometry: None, color: None }
    }
}

/// `<visual name= toggle= name-origin=>` + pose + appearance.
#[derive(Debug, Clone, PartialEq, Default)]
pub struct Visual {
    pub name: String,
    pub toggle: Option<String>,
    pub name_origin: Option<NameOrigin>,
    pub pose: Option<Pose>,
    pub appearance: VisualAppearance,
}

/// The parts of a visual, as they are written: a model, geometry and a color, each on its own.
#[derive(Debug, Clone, PartialEq, Default)]
pub struct VisualParts {
    pub name: Option<String>,
    pub toggle: Option<String>,
    pub name_origin: Option<NameOrigin>,
    pub pose: Option<Pose>,
    pub model: Option<ModelRef>,
    pub geometry: Option<VisualGeometry>,
    pub color: Option<Color>,
}

/// The appearance that parts make. A model leaves no room for a color.
pub open spec fn appearance_of(
    model: Option<ModelRef>,
    geometry: Option<VisualGeometry>,
    color: Option<Color>,
) -> VisualAppearance {
    match model {
        Some(model) => VisualAppearance::Model { model, geometry },
        None => VisualAppearance::Primitive { geometry, color },
    }
}

/// The model, the geometry and the color of an appearance.
pub open spec fn appearance_parts(appearance: VisualAppearance) -> (
    Option<ModelRef>,
    Option<VisualGeometry>,
    Option<Color>,
) {
    match appearance {
        VisualAppearance::Model { model, geometry } => (Some(model), geometry, None),
        VisualAppearance::Primitive { geometry, color } => (None, geometry, color),
    }
}

impl Visual {
    /// The visual that parts make.
    pub fn from_parts(parts: VisualParts) -> (r: Self)
        ensures
            match parts.name {
                Some(name) => r.name == name,
                None => r.name@.len() == 0,
            },
            r.toggle == parts.toggle,
            r.name_origin == parts.name_origin,
            r.pose == parts.pose,
            r.appearance == appearance_of(parts.model, parts.geometry, parts.color),
    {
        let appearance = match parts.model {
            Some(model) => VisualAppearance::Model { model, geometry: parts.geometry },
            None => VisualAppearance::Primitive { geometry: parts.geometry, color: parts.color },
        };
        let name: String = match parts.name {
            Some(name) => name,
            None => String::new(),
        };
        Visual {
            name,
            toggle: parts.toggle,
            name_origin: parts.name_origin,
            pose: parts.pose,
            appearance,
        }
    }

    /// The parts of the visual.
    pub fn into_parts(self) -> (r: VisualParts)
        ensures
            r.name == Some(self.name),
            r.toggle == self.toggle,
            r.name_origin == self.name_origin,
            r.pose == self.pose,
            (r.model, r.geometry, r.color) == appearance_parts(self.appearance),
    {
        let (model, geometry, color) = match self.appearance {
            VisualAppearance::Model { model, geometry } => (Some(model), geometry, None),
            VisualAppearance::Primitive { geometry, color } => (None, geometry, color),
        };
        VisualParts {
            name: Some(self.name),
            toggle: self.toggle,
            name_origin: self.name_origin,
            pose: self.pose,
            model,
            geometry,
            color,
        }
    }
}

/// The parts of an appearance make that appearance again.
pub proof fn appearance_comes_back(appearance: VisualAppearance)
    ensures
        ({
            let (model, geometry, color) = appearance_parts(appearance);
            appearance_of(model, geometry, color) == appearance
        }),
{
}

} // verus!
