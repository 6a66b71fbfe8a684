//! Small shared value types: measured, ranged and rated values, friction, contact and color.
use vstd::prelude::*;

verus! {

/// `<color name= rgba= description=>`: a named palette entry (root) or inline visual color.
#[derive(Debug, Clone, PartialEq, Default)]
pub struct Color {
    pub name: Option<String>,
    pub rgba: Option<String>,
    pub description: Option<String>,
}

/// `measured_value`: text magnitude + `@unit` (e.g. `<gain unit="dBi">3.5</gain>`).
#[derive(Debug, Clone, PartialEq, Default)]
pub struct MeasuredValue {
    pub unit: Option<String>,
    pub value: Option<String>,
}

/// `range_value`: text + `@unit @min @max` (e.g. `<operating-temp unit="C" min="-40" max="85"/>`).
#[derive(Debug, Clone, PartialEq, Default)]
pub struct RangeValue {
    pub unit: Option<String>,
    pub min: Option<String>,
    pub max: Option<String>,
    pub value: Option<String>,
}

#[derive(Debug, Clone, PartialEq, Default)]
pub struct MaxValue {
    pub unit: Option<String>,
    pub min: Option<String>,
    pub max: Option<String>,
    pub value: Option<String>,
}

/// `rated_value`: text + `@unit @nominal @continuous @peak @max` (motor voltage/current).
#[derive(Debug, Clone, PartialEq, Default)]
pub struct RatedValue {
    pub unit: Option<String>,
    pub nominal: Option<String>,
    pub continuous: Option<String>,
    pub peak: Option<String>,
    pub max: Option<String>,
    pub value: Option<String>,
}

/// `<friction static= dynamic=>` for collision surfaces and dynamic surfaces, with an optional
/// anisotropic `<friction-direction>` child.
#[derive(Debug, Clone, PartialEq, Default)]
pub struct Friction {
    pub static_: Option<String>,
    pub dynamic: Option<String>,
    /// `<friction-direction>`: anisotropic (direction-dependent) friction: fdir1 + mu2 + slip1/slip2
    /// (SDF surface/friction/ode). When absent: isotropic friction from `@static`/`@dynamic`.
    pub friction_direction: Option<FrictionDirection>,
}

/// `<friction-direction mu2= slip1= slip2=>` with an optional `<fdir1>` unit-vector child. The first
/// friction direction (fdir1), the second-direction coefficient (mu2), and per-direction slip
/// compliance. SDF surface/friction/ode fdir1 + mu2 + slip1/slip2.
#[derive(Debug, Clone, PartialEq, Default)]
pub struct FrictionDirection {
    /// `<fdir1>`: first friction direction as a unit vector "x y z".
    pub fdir1: Option<String>,
    pub mu2: Option<String>,
    pub slip1: Option<String>,
    pub slip2: Option<String>,
}

/// `<contact stiffness= damping=>`.
#[derive(Debug, Clone, PartialEq, Default)]
pub struct Contact {
    pub stiffness: Option<String>,
    pub damping: Option<String>,
}

} // verus!
