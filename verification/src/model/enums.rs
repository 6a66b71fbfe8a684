//! The closed vocabularies of the document format. Each enum has a literal per variant, in a fixed
//! order, and reads and writes exactly those literals.
use vstd::prelude::*;
use crate::text::same;

verus! {

/// The texts of a list of string slices.
pub open spec fn texts(list: Seq<&str>) -> Seq<Seq<char>> {
    list.map_values(|s: &str| s@)
}

/// Audio/acoustic sensor sub-type. microphone: audio capture for speech, sound localization,
/// acoustic monitoring.
#[derive(Debug, Clone, Copy, PartialEq, Eq, Structural)]
pub enum AudioSensorType {
    Microphone,
    Ultrasonic,
    Sonar,
    Hydrophone,
}

impl AudioSensorType {
    /// The literal that stands for this value.
    pub open spec fn literal(self) -> Seq<char> {
        match self {
            AudioSensorType::Microphone => "microphone"@,
            AudioSensorType::Ultrasonic => "ultrasonic"@,
            AudioSensorType::Sonar => "sonar"@,
            AudioSensorType::Hydrophone => "hydrophone"@,
        }
    }

    /// Every literal, in order.
    pub open spec fn literals() -> Seq<Seq<char>> {
        seq!["microphone"@, "ultrasonic"@, "sonar"@, "hydrophone"@]
    }

    /// The accepted literals, in order.
    pub fn valid_values() -> (r: &'static [&'static str])
        ensures
            texts(r@) == Self::literals(),
    {
        let r: &'static [&'static str] = &["microphone", "ultrasonic", "sonar", "hydrophone"];
        assert(texts(r@) =~= Self::literals());
        r
    }

    /// The value that a literal stands for; an error for any other text.
    pub fn from_str(s: &str) -> (r: Result<Self, ()>)
        ensures
            match r {
                Ok(v) => v.literal() == s@,
                Err(_) => forall|v: Self| #[trigger] v.literal() != s@,
            },
    {
        if same(s, "microphone") {
            Ok(AudioSensorType::Microphone)
        } else if same(s, "ultrasonic") {
            Ok(AudioSensorType::Ultrasonic)
        } else if same(s, "sonar") {
            Ok(AudioSensorType::Sonar)
        } else if same(s, "hydrophone") {
            Ok(AudioSensorType::Hydrophone)
        } else {
            Err(())
        }
    }

    /// The literal of this value.
    pub fn as_str(self) -> (r: &'static str)
        ensures
            r@ == self.literal(),
    {
        match self {
            AudioSensorType::Microphone => "microphone",
            AudioSensorType::Ultrasonic => "ultrasonic",
            AudioSensorType::Sonar => "sonar",
            AudioSensorType::Hydrophone => "hydrophone",
        }
    }

    /// A literal stands for one value only, so reading a literal gives back the value that was written.
    pub proof fn literal_is_injective(a: Self, b: Self)
        requires
            a.literal() == b.literal(),
        ensures
            a == b,
    {
        reveal_strlit("microphone");
        reveal_strlit("ultrasonic");
        reveal_strlit("sonar");
        reveal_strlit("hydrophone");
        assert("microphone"@.len() == 10);
        assert("ultrasonic"@.len() == 10);
        assert("sonar"@.len() == 5);
        assert("hydrophone"@.len() == 10);
        assert("hydrophone"@[0] == 'h');
        assert("microphone"@[0] == 'm');
        assert("ultrasonic"@[0] == 'u');
    }
}

/// Sensor axis alignment mapping. Maps a sensor's internal axis to the component's body frame
/// axis.
#[derive(Debug, Clone, Copy, PartialEq, Eq, Structural)]
pub enum AxisValue {
    X,
    NegX,
    Y,
    NegY,
    Z,
    NegZ,
}

impl AxisValue {
    /// The literal that stands for this value.
    pub open spec fn literal(self) -> Seq<char> {
        match self {
            AxisValue::X => "X"@,
            AxisValue::NegX => "-X"@,
            AxisValue::Y => "Y"@,
            AxisValue::NegY => "-Y"@,
            AxisValue::Z => "Z"@,
            AxisValue::NegZ => "-Z"@,
        }
    }

    /// Every literal, in order.
    pub open spec fn literals() -> Seq<Seq<char>> {
        seq!["X"@, "-X"@, "Y"@, "-Y"@, "Z"@, "-Z"@]
    }

    /// The accepted literals, in order.
    pub fn valid_values() -> (r: &'static [&'static str])
        ensures
            texts(r@) == Self::literals(),
    {
        let r: &'static [&'static str] = &["X", "-X", "Y", "-Y", "Z", "-Z"];
        assert(texts(r@) =~= Self::literals());
        r
    }

    /// The value that a literal stands for; an error for any other text.
    pub fn from_str(s: &str) -> (r: Result<Self, ()>)
        ensures
            match r {
                Ok(v) => v.literal() == s@,
                Err(_) => forall|v: Self| #[trigger] v.literal() != s@,
            },
    {
        if same(s, "X") {
            Ok(AxisValue::X)
        } else if same(s, "-X") {
            Ok(AxisValue::NegX)
        } else if same(s, "Y") {
            Ok(AxisValue::Y)
        } else if same(s, "-Y") {
            Ok(AxisValue::NegY)
        } else if same(s, "Z") {
            Ok(AxisValue::Z)
        } else if same(s, "-Z") {
            Ok(AxisValue::NegZ)
        } else {
            Err(())
        }
    }

    /// The literal of this value.
    pub fn as_str(self) -> (r: &'static str)
        ensures
            r@ == self.literal(),
    {
        match self {
            AxisValue::X => "X",
            AxisValue::NegX => "-X",
            AxisValue::Y => "Y",
            AxisValue::NegY => "-Y",
            AxisValue::Z => "Z",
            AxisValue::NegZ => "-Z",
        }
    }

    /// A literal stands for one value only, so reading a literal gives back the value that was written.
    pub proof fn literal_is_injective(a: Self, b: Self)
        requires
            a.literal() == b.literal(),
        ensures
            a == b,
    {
        reveal_strlit("X");
        reveal_strlit("-X");
        reveal_strlit("Y");
        reveal_strlit("-Y");
        reveal_strlit("Z");
        reveal_strlit("-Z");
        assert("X"@.len() == 1);
        assert("-X"@.len() == 2);
        assert("Y"@.len() == 1);
        assert("-Y"@.len() == 2);
        assert("Z"@.len() == 1);
        assert("-Z"@.len() == 2);
        assert("-X"@[1] == 'X');
        assert("-Y"@[1] == 'Y');
        assert("-Z"@[1] == 'Z');
        assert("X"@[0] == 'X');
        assert("Y"@[0] == 'Y');
        assert("Z"@[0] == 'Z');
    }
}

/// Body-frame axis convention describing how the robot's local coordinate axes are oriented
/// relative to its physical body. The three-letter code specifies the direction each axis points:
/// first letter = X, second = Y, third = Z.
#[derive(Debug, Clone, Copy, PartialEq, Eq, Structural)]
pub enum BodyFrame {
    FLU,
    FRD,
}

impl BodyFrame {
    /// The literal that stands for this value.
    pub open spec fn literal(self) -> Seq<char> {
        match self {
            BodyFrame::FLU => "FLU"@,
            BodyFrame::FRD => "FRD"@,
        }
    }

    /// Every literal, in order.
    pub open spec fn literals() -> Seq<Seq<char>> {
        seq!["FLU"@, "FRD"@]
    }

    /// The accepted literals, in order.
    pub fn valid_values() -> (r: &'static [&'static str])
        ensures
            texts(r@) == Self::literals(),
    {
        let r: &'static [&'static str] = &["FLU", "FRD"];
        assert(texts(r@) =~= Self::literals());
        r
    }

    /// The value that a literal stands for; an error for any other text.
    pub fn from_str(s: &str) -> (r: Result<Self, ()>)
        ensures
            match r {
                Ok(v) => v.literal() == s@,
                Err(_) => forall|v: Self| #[trigger] v.literal() != s@,
            },
    {
        if same(s, "FLU") {
            Ok(BodyFrame::FLU)
        } else if same(s, "FRD") {
            Ok(BodyFrame::FRD)
        } else {
            Err(())
        }
    }

    /// The literal of this value.
    pub fn as_str(self) -> (r: &'static str)
        ensures
            r@ == self.literal(),
    {
        match self {
            BodyFrame::FLU => "FLU",
            BodyFrame::FRD => "FRD",
        }
    }

    /// A literal stands for one value only, so reading a literal gives back the value that was written.
    pub proof fn literal_is_injective(a: Self, b: Self)
        requires
            a.literal() == b.literal(),
        ensures
            a == b,
    {
        reveal_strlit("FLU");
        reveal_strlit("FRD");
        assert("FLU"@.len() == 3);
        assert("FRD"@.len() == 3);
        assert("FLU"@[1] == 'L');
        assert("FRD"@[1] == 'R');
    }
}

/// Distortion model naming the meaning of the camera_distortion coefficient set, matching ROS
/// CameraInfo/distortion_model. plumb_bob: the classic 5-coefficient Brown-Conrady
/// radial/tangential model (k1 k2 p1 p2 k3).
#[derive(Debug, Clone, Copy, PartialEq, Eq, Structural)]
pub enum CameraDistortionModel {
    PlumbBob,
    RationalPolynomial,
    Equidistant,
}

impl CameraDistortionModel {
    /// The literal that stands for this value.
    pub open spec fn literal(self) -> Seq<char> {
        match self {
            CameraDistortionModel::PlumbBob => "plumb_bob"@,
            CameraDistortionModel::RationalPolynomial => "rational_polynomial"@,
            CameraDistortionModel::Equidistant => "equidistant"@,
        }
    }

    /// Every literal, in order.
    pub open spec fn literals() -> Seq<Seq<char>> {
        seq!["plumb_bob"@, "rational_polynomial"@, "equidistant"@]
    }

    /// The accepted literals, in order.
    pub fn valid_values() -> (r: &'static [&'static str])
        ensures
            texts(r@) == Self::literals(),
    {
        let r: &'static [&'static str] = &["plumb_bob", "rational_polynomial", "equidistant"];
        assert(texts(r@) =~= Self::literals());
        r
    }

    /// The value that a literal stands for; an error for any other text.
    pub fn from_str(s: &str) -> (r: Result<Self, ()>)
        ensures
            match r {
                Ok(v) => v.literal() == s@,
                Err(_) => forall|v: Self| #[trigger] v.literal() != s@,
            },
    {
        if same(s, "plumb_bob") {
            Ok(CameraDistortionModel::PlumbBob)
        } else if same(s, "rational_polynomial") {
            Ok(CameraDistortionModel::RationalPolynomial)
        } else if same(s, "equidistant") {
            Ok(CameraDistortionModel::Equidistant)
        } else {
            Err(())
        }
    }

    /// The literal of this value.
    pub fn as_str(self) -> (r: &'static str)
        ensures
            r@ == self.literal(),
    {
        match self {
            CameraDistortionModel::PlumbBob => "plumb_bob",
            CameraDistortionModel::RationalPolynomial => "rational_polynomial",
            CameraDistortionModel::Equidistant => "equidistant",
        }
    }

    /// A literal stands for one value only, so reading a literal gives back the value that was written.
    pub proof fn literal_is_injective(a: Self, b: Self)
        requires
            a.literal() == b.literal(),
        ensures
            a == b,
    {
        reveal_strlit("plumb_bob");
        reveal_strlit("rational_polynomial");
        reveal_strlit("equidistant");
        assert("plumb_bob"@.len() == 9);
        assert("rational_polynomial"@.len() == 19);
        assert("equidistant"@.len() == 11);
    }
}

/// Lens projection model: how world-ray angles map to image-plane radius, which the Brown-Conrady
/// camera_distortion coefficients CANNOT express for wide-angle/fisheye optics. pinhole:
/// rectilinear (gnomonical) projection r = f*tan(theta); the standard perspective model the
/// intrinsics/distortion already assume.
#[derive(Debug, Clone, Copy, PartialEq, Eq, Structural)]
pub enum CameraProjectionType {
    Pinhole,
    Stereographic,
    Equidistant,
    Equisolid,
    Orthographic,
    Custom,
}

impl CameraProjectionType {
    /// The literal that stands for this value.
    pub open spec fn literal(self) -> Seq<char> {
        match self {
            CameraProjectionType::Pinhole => "pinhole"@,
            CameraProjectionType::Stereographic => "stereographic"@,
            CameraProjectionType::Equidistant => "equidistant"@,
            CameraProjectionType::Equisolid => "equisolid"@,
            CameraProjectionType::Orthographic => "orthographic"@,
            CameraProjectionType::Custom => "custom"@,
        }
    }

    /// Every literal, in order.
    pub open spec fn literals() -> Seq<Seq<char>> {
        seq!["pinhole"@, "stereographic"@, "equidistant"@, "equisolid"@, "orthographic"@, "custom"@]
    }

    /// The accepted literals, in order.
    pub fn valid_values() -> (r: &'static [&'static str])
        ensures
            texts(r@) == Self::literals(),
    {
        let r: &'static [&'static str] = &["pinhole", "stereographic", "equidistant", "equisolid", "orthographic", "custom"];
        assert(texts(r@) =~= Self::literals());
        r
    }

    /// The value that a literal stands for; an error for any other text.
    pub fn from_str(s: &str) -> (r: Result<Self, ()>)
        ensures
            match r {
                Ok(v) => v.literal() == s@,
                Err(_) => forall|v: Self| #[trigger] v.literal() != s@,
            },
    {
        if same(s, "pinhole") {
            Ok(CameraProjectionType::Pinhole)
        } else if same(s, "stereographic") {
            Ok(CameraProjectionType::Stereographic)
        } else if same(s, "equidistant") {
            Ok(CameraProjectionType::Equidistant)
        } else if same(s, "equisolid") {
            Ok(CameraProjectionType::Equisolid)
        } else if same(s, "orthographic") {
            Ok(CameraProjectionType::Orthographic)
        } else if same(s, "custom") {
            Ok(CameraProjectionType::Custom)
        } else {
            Err(())
        }
    }

    /// The literal of this value.
    pub fn as_str(self) -> (r: &'static str)
        ensures
            r@ == self.literal(),
    {
        match self {
            CameraProjectionType::Pinhole => "pinhole",
            CameraProjectionType::Stereographic => "stereographic",
            CameraProjectionType::Equidistant => "equidistant",
            CameraProjectionType::Equisolid => "equisolid",
            CameraProjectionType::Orthographic => "orthographic",
            CameraProjectionType::Custom => "custom",
        }
    }

    /// A literal stands for one value only, so reading a literal gives back the value that was written.
    pub proof fn literal_is_injective(a: Self, b: Self)
        requires
            a.literal() == b.literal(),
        ensures
            a == b,
    {
        reveal_strlit("pinhole");
        reveal_strlit("stereographic");
        reveal_strlit("equidistant");
        reveal_strlit("equisolid");
        reveal_strlit("orthographic");
        reveal_strlit("custom");
        assert("pinhole"@.len() == 7);
        assert("stereographic"@.len() == 13);
        assert("equidistant"@.len() == 11);
        assert("equisolid"@.len() == 9);
        assert("orthographic"@.len() == 12);
        assert("custom"@.len() == 6);
    }
}

/// Chemical/environmental sensor sub-type. gas: gas concentration sensor (CO2, VOC, methane,
/// etc.).
#[derive(Debug, Clone, Copy, PartialEq, Eq, Structural)]
pub enum ChemicalSensorType {
    Gas,
    Ph,
    Humidity,
}

impl ChemicalSensorType {
    /// The literal that stands for this value.
    pub open spec fn literal(self) -> Seq<char> {
        match self {
            ChemicalSensorType::Gas => "gas"@,
            ChemicalSensorType::Ph => "ph"@,
            ChemicalSensorType::Humidity => "humidity"@,
        }
    }

    /// Every literal, in order.
    pub open spec fn literals() -> Seq<Seq<char>> {
        seq!["gas"@, "ph"@, "humidity"@]
    }

    /// The accepted literals, in order.
    pub fn valid_values() -> (r: &'static [&'static str])
        ensures
            texts(r@) == Self::literals(),
    {
        let r: &'static [&'static str] = &["gas", "ph", "humidity"];
        assert(texts(r@) =~= Self::literals());
        r
    }

    /// The value that a literal stands for; an error for any other text.
    pub fn from_str(s: &str) -> (r: Result<Self, ()>)
        ensures
            match r {
                Ok(v) => v.literal() == s@,
                Err(_) => forall|v: Self| #[trigger] v.literal() != s@,
            },
    {
        if same(s, "gas") {
            Ok(ChemicalSensorType::Gas)
        } else if same(s, "ph") {
            Ok(ChemicalSensorType::Ph)
        } else if same(s, "humidity") {
            Ok(ChemicalSensorType::Humidity)
        } else {
            Err(())
        }
    }

    /// The literal of this value.
    pub fn as_str(self) -> (r: &'static str)
        ensures
            r@ == self.literal(),
    {
        match self {
            ChemicalSensorType::Gas => "gas",
            ChemicalSensorType::Ph => "ph",
            ChemicalSensorType::Humidity => "humidity",
        }
    }

    /// A literal stands for one value only, so reading a literal gives back the value that was written.
    pub proof fn literal_is_injective(a: Self, b: Self)
        requires
            a.literal() == b.literal(),
        ensures
            a == b,
    {
        reveal_strlit("gas");
        reveal_strlit("ph");
        reveal_strlit("humidity");
        assert("gas"@.len() == 3);
        assert("ph"@.len() == 2);
        assert("humidity"@.len() == 8);
    }
}

/// Functional role of a component in the robot. sensor: sensing-only device (e.g., camera module,
/// IMU board).
#[derive(Debug, Clone, Copy, PartialEq, Eq, Structural)]
pub enum CompRole {
    Sensor,
    Compute,
    Actuator,
    Parent,
}

impl CompRole {
    /// The literal that stands for this value.
    pub open spec fn literal(self) -> Seq<char> {
        match self {
            CompRole::Sensor => "sensor"@,
            CompRole::Compute => "compute"@,
            CompRole::Actuator => "actuator"@,
            CompRole::Parent => "parent"@,
        }
    }

    /// Every literal, in order.
    pub open spec fn literals() -> Seq<Seq<char>> {
        seq!["sensor"@, "compute"@, "actuator"@, "parent"@]
    }

    /// The accepted literals, in order.
    pub fn valid_values() -> (r: &'static [&'static str])
        ensures
            texts(r@) == Self::literals(),
    {
        let r: &'static [&'static str] = &["sensor", "compute", "actuator", "parent"];
        assert(texts(r@) =~= Self::literals());
        r
    }

    /// The value that a literal stands for; an error for any other text.
    pub fn from_str(s: &str) -> (r: Result<Self, ()>)
        ensures
            match r {
                Ok(v) => v.literal() == s@,
                Err(_) => forall|v: Self| #[trigger] v.literal() != s@,
            },
    {
        if same(s, "sensor") {
            Ok(CompRole::Sensor)
        } else if same(s, "compute") {
            Ok(CompRole::Compute)
        } else if same(s, "actuator") {
            Ok(CompRole::Actuator)
        } else if same(s, "parent") {
            Ok(CompRole::Parent)
        } else {
            Err(())
        }
    }

    /// The literal of this value.
    pub fn as_str(self) -> (r: &'static str)
        ensures
            r@ == self.literal(),
    {
        match self {
            CompRole::Sensor => "sensor",
            CompRole::Compute => "compute",
            CompRole::Actuator => "actuator",
            CompRole::Parent => "parent",
        }
    }

    /// A literal stands for one value only, so reading a literal gives back the value that was written.
    pub proof fn literal_is_injective(a: Self, b: Self)
        requires
            a.literal() == b.literal(),
        ensures
            a == b,
    {
        reveal_strlit("sensor");
        reveal_strlit("compute");
        reveal_strlit("actuator");
        reveal_strlit("parent");
        assert("sensor"@.len() == 6);
        assert("compute"@.len() == 7);
        assert("actuator"@.len() == 8);
        assert("parent"@.len() == 6);
        assert("parent"@[0] == 'p');
        assert("sensor"@[0] == 's');
    }
}

/// Near-field electromagnetic sensor sub-type. Measures static or quasi-static EM fields, NOT
/// propagating radio waves (those are rf).
#[derive(Debug, Clone, Copy, PartialEq, Eq, Structural)]
pub enum EmSensorType {
    Mag,
    MetalDetector,
    EddyCurrent,
    Emf,
    HallEffect,
    Fluxgate,
}

impl EmSensorType {
    /// The literal that stands for this value.
    pub open spec fn literal(self) -> Seq<char> {
        match self {
            EmSensorType::Mag => "mag"@,
            EmSensorType::MetalDetector => "metal_detector"@,
            EmSensorType::EddyCurrent => "eddy_current"@,
            EmSensorType::Emf => "emf"@,
            EmSensorType::HallEffect => "hall-effect"@,
            EmSensorType::Fluxgate => "fluxgate"@,
        }
    }

    /// Every literal, in order.
    pub open spec fn literals() -> Seq<Seq<char>> {
        seq!["mag"@, "metal_detector"@, "eddy_current"@, "emf"@, "hall-effect"@, "fluxgate"@]
    }

    /// The accepted literals, in order.
    pub fn valid_values() -> (r: &'static [&'static str])
        ensures
            texts(r@) == Self::literals(),
    {
        let r: &'static [&'static str] = &["mag", "metal_detector", "eddy_current", "emf", "hall-effect", "fluxgate"];
        assert(texts(r@) =~= Self::literals());
        r
    }

    /// The value that a literal stands for; an error for any other text.
    pub fn from_str(s: &str) -> (r: Result<Self, ()>)
        ensures
            match r {
                Ok(v) => v.literal() == s@,
                Err(_) => forall|v: Self| #[trigger] v.literal() != s@,
            },
    {
        if same(s, "mag") {
            Ok(EmSensorType::Mag)
        } else if same(s, "metal_detector") {
            Ok(EmSensorType::MetalDetector)
        } else if same(s, "eddy_current") {
            Ok(EmSensorType::EddyCurrent)
        } else if same(s, "emf") {
            Ok(EmSensorType::Emf)
        } else if same(s, "hall-effect") {
            Ok(EmSensorType::HallEffect)
        } else if same(s, "fluxgate") {
            Ok(EmSensorType::Fluxgate)
        } else {
            Err(())
        }
    }

    /// The literal of this value.
    pub fn as_str(self) -> (r: &'static str)
        ensures
            r@ == self.literal(),
    {
        match self {
            EmSensorType::Mag => "mag",
            EmSensorType::MetalDetector => "metal_detector",
            EmSensorType::EddyCurrent => "eddy_current",
            EmSensorType::Emf => "emf",
            EmSensorType::HallEffect => "hall-effect",
            EmSensorType::Fluxgate => "fluxgate",
        }
    }

    /// A literal stands for one value only, so reading a literal gives back the value that was written.
    pub proof fn literal_is_injective(a: Self, b: Self)
        requires
            a.literal() == b.literal(),
        ensures
            a == b,
    {
        reveal_strlit("mag");
        reveal_strlit("metal_detector");
        reveal_strlit("eddy_current");
        reveal_strlit("emf");
        reveal_strlit("hall-effect");
        reveal_strlit("fluxgate");
        assert("mag"@.len() == 3);
        assert("metal_detector"@.len() == 14);
        assert("eddy_current"@.len() == 12);
        assert("emf"@.len() == 3);
        assert("hall-effect"@.len() == 11);
        assert("fluxgate"@.len() == 8);
        assert("emf"@[0] == 'e');
        assert("mag"@[0] == 'm');
    }
}

/// Physical sensing principle of the encoder. optical: light source + photodetector + code disk
/// (e.g., US Digital, Broadcom AEDR).
#[derive(Debug, Clone, Copy, PartialEq, Eq, Structural)]
pub enum EncoderPrinciple {
    Optical,
    Magnetic,
    Inductive,
    Capacitive,
    Resistive,
}

impl EncoderPrinciple {
    /// The literal that stands for this value.
    pub open spec fn literal(self) -> Seq<char> {
        match self {
            EncoderPrinciple::Optical => "optical"@,
            EncoderPrinciple::Magnetic => "magnetic"@,
            EncoderPrinciple::Inductive => "inductive"@,
            EncoderPrinciple::Capacitive => "capacitive"@,
            EncoderPrinciple::Resistive => "resistive"@,
        }
    }

    /// Every literal, in order.
    pub open spec fn literals() -> Seq<Seq<char>> {
        seq!["optical"@, "magnetic"@, "inductive"@, "capacitive"@, "resistive"@]
    }

    /// The accepted literals, in order.
    pub fn valid_values() -> (r: &'static [&'static str])
        ensures
            texts(r@) == Self::literals(),
    {
        let r: &'static [&'static str] = &["optical", "magnetic", "inductive", "capacitive", "resistive"];
        assert(texts(r@) =~= Self::literals());
        r
    }

    /// The value that a literal stands for; an error for any other text.
    pub fn from_str(s: &str) -> (r: Result<Self, ()>)
        ensures
            match r {
                Ok(v) => v.literal() == s@,
                Err(_) => forall|v: Self| #[trigger] v.literal() != s@,
            },
    {
        if same(s, "optical") {
            Ok(EncoderPrinciple::Optical)
        } else if same(s, "magnetic") {
            Ok(EncoderPrinciple::Magnetic)
        } else if same(s, "inductive") {
            Ok(EncoderPrinciple::Inductive)
        } else if same(s, "capacitive") {
            Ok(EncoderPrinciple::Capacitive)
        } else if same(s, "resistive") {
            Ok(EncoderPrinciple::Resistive)
        } else {
            Err(())
        }
    }

    /// The literal of this value.
    pub fn as_str(self) -> (r: &'static str)
        ensures
            r@ == self.literal(),
    {
        match self {
            EncoderPrinciple::Optical => "optical",
            EncoderPrinciple::Magnetic => "magnetic",
            EncoderPrinciple::Inductive => "inductive",
            EncoderPrinciple::Capacitive => "capacitive",
            EncoderPrinciple::Resistive => "resistive",
        }
    }

    /// A literal stands for one value only, so reading a literal gives back the value that was written.
    pub proof fn literal_is_injective(a: Self, b: Self)
        requires
            a.literal() == b.literal(),
        ensures
            a == b,
    {
        reveal_strlit("optical");
        reveal_strlit("magnetic");
        reveal_strlit("inductive");
        reveal_strlit("capacitive");
        reveal_strlit("resistive");
        assert("optical"@.len() == 7);
        assert("magnetic"@.len() == 8);
        assert("inductive"@.len() == 9);
        assert("capacitive"@.len() == 10);
        assert("resistive"@.len() == 9);
        assert("inductive"@[0] == 'i');
        assert("resistive"@[0] == 'r');
    }
}

/// Encoder measurement type. incremental: relative position from index/home, requires homing.
#[derive(Debug, Clone, Copy, PartialEq, Eq, Structural)]
pub enum EncoderSensorType {
    Incremental,
    Absolute,
    Linear,
}

impl EncoderSensorType {
    /// The literal that stands for this value.
    pub open spec fn literal(self) -> Seq<char> {
        match self {
            EncoderSensorType::Incremental => "incremental"@,
            EncoderSensorType::Absolute => "absolute"@,
            EncoderSensorType::Linear => "linear"@,
        }
    }

    /// Every literal, in order.
    pub open spec fn literals() -> Seq<Seq<char>> {
        seq!["incremental"@, "absolute"@, "linear"@]
    }

    /// The accepted literals, in order.
    pub fn valid_values() -> (r: &'static [&'static str])
        ensures
            texts(r@) == Self::literals(),
    {
        let r: &'static [&'static str] = &["incremental", "absolute", "linear"];
        assert(texts(r@) =~= Self::literals());
        r
    }

    /// The value that a literal stands for; an error for any other text.
    pub fn from_str(s: &str) -> (r: Result<Self, ()>)
        ensures
            match r {
                Ok(v) => v.literal() == s@,
                Err(_) => forall|v: Self| #[trigger] v.literal() != s@,
            },
    {
        if same(s, "incremental") {
            Ok(EncoderSensorType::Incremental)
        } else if same(s, "absolute") {
            Ok(EncoderSensorType::Absolute)
        } else if same(s, "linear") {
            Ok(EncoderSensorType::Linear)
        } else {
            Err(())
        }
    }

    /// The literal of this value.
    pub fn as_str(self) -> (r: &'static str)
        ensures
            r@ == self.literal(),
    {
        match self {
            EncoderSensorType::Incremental => "incremental",
            EncoderSensorType::Absolute => "absolute",
            EncoderSensorType::Linear => "linear",
        }
    }

    /// A literal stands for one value only, so reading a literal gives back the value that was written.
    pub proof fn literal_is_injective(a: Self, b: Self)
        requires
            a.literal() == b.literal(),
        ensures
            a == b,
    {
        reveal_strlit("incremental");
        reveal_strlit("absolute");
        reveal_strlit("linear");
        assert("incremental"@.len() == 11);
        assert("absolute"@.len() == 8);
        assert("linear"@.len() == 6);
    }
}

/// Fluid sensor sub-type: the measurand is fluid (gas or liquid) pressure or flow, as distinct
/// from force (solid/mechanical contact loads) and chemical (composition). Application sub-types:
/// barometer (absolute atmospheric pressure, derives altitude), airspeed (differential/dynamic
/// pressure from a pitot probe, derives airspeed), depth (hydrostatic pressure, derives submersion
/// depth), flow (volumetric or mass flow rate), level (liquid level via hydrostatic head).
#[derive(Debug, Clone, Copy, PartialEq, Eq, Structural)]
pub enum FluidSensorType {
    Barometer,
    Airspeed,
    Depth,
    Flow,
    Level,
    Differential,
    Gauge,
    Absolute,
    Sealed,
    Vacuum,
}

impl FluidSensorType {
    /// The literal that stands for this value.
    pub open spec fn literal(self) -> Seq<char> {
        match self {
            FluidSensorType::Barometer => "barometer"@,
            FluidSensorType::Airspeed => "airspeed"@,
            FluidSensorType::Depth => "depth"@,
            FluidSensorType::Flow => "flow"@,
            FluidSensorType::Level => "level"@,
            FluidSensorType::Differential => "differential"@,
            FluidSensorType::Gauge => "gauge"@,
            FluidSensorType::Absolute => "absolute"@,
            FluidSensorType::Sealed => "sealed"@,
            FluidSensorType::Vacuum => "vacuum"@,
        }
    }

    /// Every literal, in order.
    pub open spec fn literals() -> Seq<Seq<char>> {
        seq!["barometer"@, "airspeed"@, "depth"@, "flow"@, "level"@, "differential"@, "gauge"@, "absolute"@, "sealed"@, "vacuum"@]
    }

    /// The accepted literals, in order.
    pub fn valid_values() -> (r: &'static [&'static str])
        ensures
            texts(r@) == Self::literals(),
    {
        let r: &'static [&'static str] = &["barometer", "airspeed", "depth", "flow", "level", "differential", "gauge", "absolute", "sealed", "vacuum"];
        assert(texts(r@) =~= Self::literals());
        r
    }

    /// The value that a literal stands for; an error for any other text.
    pub fn from_str(s: &str) -> (r: Result<Self, ()>)
        ensures
            match r {
                Ok(v) => v.literal() == s@,
                Err(_) => forall|v: Self| #[trigger] v.literal() != s@,
            },
    {
        if same(s, "barometer") {
            Ok(FluidSensorType::Barometer)
        } else if same(s, "airspeed") {
            Ok(FluidSensorType::Airspeed)
        } else if same(s, "depth") {
            Ok(FluidSensorType::Depth)
        } else if same(s, "flow") {
            Ok(FluidSensorType::Flow)
        } else if same(s, "level") {
            Ok(FluidSensorType::Level)
        } else if same(s, "differential") {
            Ok(FluidSensorType::Differential)
        } else if same(s, "gauge") {
            Ok(FluidSensorType::Gauge)
        } else if same(s, "absolute") {
            Ok(FluidSensorType::Absolute)
        } else if same(s, "sealed") {
            Ok(FluidSensorType::Sealed)
        } else if same(s, "vacuum") {
            Ok(FluidSensorType::Vacuum)
        } else {
            Err(())
        }
    }

    /// The literal of this value.
    pub fn as_str(self) -> (r: &'static str)
        ensures
            r@ == self.literal(),
    {
        match self {
            FluidSensorType::Barometer => "barometer",
            FluidSensorType::Airspeed => "airspeed",
            FluidSensorType::Depth => "depth",
            FluidSensorType::Flow => "flow",
            FluidSensorType::Level => "level",
            FluidSensorType::Differential => "differential",
            FluidSensorType::Gauge => "gauge",
            FluidSensorType::Absolute => "absolute",
            FluidSensorType::Sealed => "sealed",
            FluidSensorType::Vacuum => "vacuum",
        }
    }

    /// A literal stands for one value only, so reading a literal gives back the value that was written.
    pub proof fn literal_is_injective(a: Self, b: Self)
        requires
            a.literal() == b.literal(),
        ensures
            a == b,
    {
        reveal_strlit("barometer");
        reveal_strlit("airspeed");
        reveal_strlit("depth");
        reveal_strlit("flow");
        reveal_strlit("level");
        reveal_strlit("differential");
        reveal_strlit("gauge");
        reveal_strlit("absolute");
        reveal_strlit("sealed");
        reveal_strlit("vacuum");
        assert("barometer"@.len() == 9);
        assert("airspeed"@.len() == 8);
        assert("depth"@.len() == 5);
        assert("flow"@.len() == 4);
        assert("level"@.len() == 5);
        assert("differential"@.len() == 12);
        assert("gauge"@.len() == 5);
        assert("absolute"@.len() == 8);
        assert("sealed"@.len() == 6);
        assert("vacuum"@.len() == 6);
        assert("absolute"@[1] == 'b');
        assert("airspeed"@[1] == 'i');
        assert("depth"@[0] == 'd');
        assert("gauge"@[0] == 'g');
        assert("level"@[0] == 'l');
        assert("sealed"@[0] == 's');
        assert("vacuum"@[0] == 'v');
    }
}

/// Reference frame in which a force/torque sensor reports its wrench, matching SDF
/// force_torque/frame. parent: the joint parent link frame.
#[derive(Debug, Clone, Copy, PartialEq, Eq, Structural)]
pub enum ForceFrame {
    Parent,
    Child,
    Sensor,
}

impl ForceFrame {
    /// The literal that stands for this value.
    pub open spec fn literal(self) -> Seq<char> {
        match self {
            ForceFrame::Parent => "parent"@,
            ForceFrame::Child => "child"@,
            ForceFrame::Sensor => "sensor"@,
        }
    }

    /// Every literal, in order.
    pub open spec fn literals() -> Seq<Seq<char>> {
        seq!["parent"@, "child"@, "sensor"@]
    }

    /// The accepted literals, in order.
    pub fn valid_values() -> (r: &'static [&'static str])
        ensures
            texts(r@) == Self::literals(),
    {
        let r: &'static [&'static str] = &["parent", "child", "sensor"];
        assert(texts(r@) =~= Self::literals());
        r
    }

    /// The value that a literal stands for; an error for any other text.
    pub fn from_str(s: &str) -> (r: Result<Self, ()>)
        ensures
            match r {
                Ok(v) => v.literal() == s@,
                Err(_) => forall|v: Self| #[trigger] v.literal() != s@,
            },
    {
        if same(s, "parent") {
            Ok(ForceFrame::Parent)
        } else if same(s, "child") {
            Ok(ForceFrame::Child)
        } else if same(s, "sensor") {
            Ok(ForceFrame::Sensor)
        } else {
            Err(())
        }
    }

    /// The literal of this value.
    pub fn as_str(self) -> (r: &'static str)
        ensures
            r@ == self.literal(),
    {
        match self {
            ForceFrame::Parent => "parent",
            ForceFrame::Child => "child",
            ForceFrame::Sensor => "sensor",
        }
    }

    /// A literal stands for one value only, so reading a literal gives back the value that was written.
    pub proof fn literal_is_injective(a: Self, b: Self)
        requires
            a.literal() == b.literal(),
        ensures
            a == b,
    {
        reveal_strlit("parent");
        reveal_strlit("child");
        reveal_strlit("sensor");
        assert("parent"@.len() == 6);
        assert("child"@.len() == 5);
        assert("sensor"@.len() == 6);
        assert("parent"@[0] == 'p');
        assert("sensor"@[0] == 's');
    }
}

/// Force/torque sensor sub-type. strain: strain gauge for deformation measurement.
#[derive(Debug, Clone, Copy, PartialEq, Eq, Structural)]
pub enum ForceSensorType {
    Strain,
    Pressure,
    Torque,
    LoadCell,
}

impl ForceSensorType {
    /// The literal that stands for this value.
    pub open spec fn literal(self) -> Seq<char> {
        match self {
            ForceSensorType::Strain => "strain"@,
            ForceSensorType::Pressure => "pressure"@,
            ForceSensorType::Torque => "torque"@,
            ForceSensorType::LoadCell => "load_cell"@,
        }
    }

    /// Every literal, in order.
    pub open spec fn literals() -> Seq<Seq<char>> {
        seq!["strain"@, "pressure"@, "torque"@, "load_cell"@]
    }

    /// The accepted literals, in order.
    pub fn valid_values() -> (r: &'static [&'static str])
        ensures
            texts(r@) == Self::literals(),
    {
        let r: &'static [&'static str] = &["strain", "pressure", "torque", "load_cell"];
        assert(texts(r@) =~= Self::literals());
        r
    }

    /// The value that a literal stands for; an error for any other text.
    pub fn from_str(s: &str) -> (r: Result<Self, ()>)
        ensures
            match r {
                Ok(v) => v.literal() == s@,
                Err(_) => forall|v: Self| #[trigger] v.literal() != s@,
            },
    {
        if same(s, "strain") {
            Ok(ForceSensorType::Strain)
        } else if same(s, "pressure") {
            Ok(ForceSensorType::Pressure)
        } else if same(s, "torque") {
            Ok(ForceSensorType::Torque)
        } else if same(s, "load_cell") {
            Ok(ForceSensorType::LoadCell)
        } else {
            Err(())
        }
    }

    /// The literal of this value.
    pub fn as_str(self) -> (r: &'static str)
        ensures
            r@ == self.literal(),
    {
        match self {
            ForceSensorType::Strain => "strain",
            ForceSensorType::Pressure => "pressure",
            ForceSensorType::Torque => "torque",
            ForceSensorType::LoadCell => "load_cell",
        }
    }

    /// A literal stands for one value only, so reading a literal gives back the value that was written.
    pub proof fn literal_is_injective(a: Self, b: Self)
        requires
            a.literal() == b.literal(),
        ensures
            a == b,
    {
        reveal_strlit("strain");
        reveal_strlit("pressure");
        reveal_strlit("torque");
        reveal_strlit("load_cell");
        assert("strain"@.len() == 6);
        assert("pressure"@.len() == 8);
        assert("torque"@.len() == 6);
        assert("load_cell"@.len() == 9);
        assert("strain"@[0] == 's');
        assert("torque"@[0] == 't');
    }
}

/// Cross-section shape of a frustum used for sensor field-of-view visualization.
#[derive(Debug, Clone, Copy, PartialEq, Eq, Structural)]
pub enum FrustumShape {
    Conical,
    Pyramidal,
}

impl FrustumShape {
    /// The literal that stands for this value.
    pub open spec fn literal(self) -> Seq<char> {
        match self {
            FrustumShape::Conical => "conical"@,
            FrustumShape::Pyramidal => "pyramidal"@,
        }
    }

    /// Every literal, in order.
    pub open spec fn literals() -> Seq<Seq<char>> {
        seq!["conical"@, "pyramidal"@]
    }

    /// The accepted literals, in order.
    pub fn valid_values() -> (r: &'static [&'static str])
        ensures
            texts(r@) == Self::literals(),
    {
        let r: &'static [&'static str] = &["conical", "pyramidal"];
        assert(texts(r@) =~= Self::literals());
        r
    }

    /// The value that a literal stands for; an error for any other text.
    pub fn from_str(s: &str) -> (r: Result<Self, ()>)
        ensures
            match r {
                Ok(v) => v.literal() == s@,
                Err(_) => forall|v: Self| #[trigger] v.literal() != s@,
            },
    {
        if same(s, "conical") {
            Ok(FrustumShape::Conical)
        } else if same(s, "pyramidal") {
            Ok(FrustumShape::Pyramidal)
        } else {
            Err(())
        }
    }

    /// The literal of this value.
    pub fn as_str(self) -> (r: &'static str)
        ensures
            r@ == self.literal(),
    {
        match self {
            FrustumShape::Conical => "conical",
            FrustumShape::Pyramidal => "pyramidal",
        }
    }

    /// A literal stands for one value only, so reading a literal gives back the value that was written.
    pub proof fn literal_is_injective(a: Self, b: Self)
        requires
            a.literal() == b.literal(),
        ensures
            a == b,
    {
        reveal_strlit("conical");
        reveal_strlit("pyramidal");
        assert("conical"@.len() == 7);
        assert("pyramidal"@.len() == 9);
    }
}

/// Human-Machine Interface element type. display: visual output (LCD, OLED, LED matrix, e-ink).
#[derive(Debug, Clone, Copy, PartialEq, Eq, Structural)]
pub enum HmiType {
    Display,
    Speaker,
    Buzzer,
    LedStatus,
    LedIllumination,
    Button,
    Touchscreen,
    Indicator,
}

impl HmiType {
    /// The literal that stands for this value.
    pub open spec fn literal(self) -> Seq<char> {
        match self {
            HmiType::Display => "display"@,
            HmiType::Speaker => "speaker"@,
            HmiType::Buzzer => "buzzer"@,
            HmiType::LedStatus => "led-status"@,
            HmiType::LedIllumination => "led-illumination"@,
            HmiType::Button => "button"@,
            HmiType::Touchscreen => "touchscreen"@,
            HmiType::Indicator => "indicator"@,
        }
    }

    /// Every literal, in order.
    pub open spec fn literals() -> Seq<Seq<char>> {
        seq!["display"@, "speaker"@, "buzzer"@, "led-status"@, "led-illumination"@, "button"@, "touchscreen"@, "indicator"@]
    }

    /// The accepted literals, in order.
    pub fn valid_values() -> (r: &'static [&'static str])
        ensures
            texts(r@) == Self::literals(),
    {
        let r: &'static [&'static str] = &["display", "speaker", "buzzer", "led-status", "led-illumination", "button", "touchscreen", "indicator"];
        assert(texts(r@) =~= Self::literals());
        r
    }

    /// The value that a literal stands for; an error for any other text.
    pub fn from_str(s: &str) -> (r: Result<Self, ()>)
        ensures
            match r {
                Ok(v) => v.literal() == s@,
                Err(_) => forall|v: Self| #[trigger] v.literal() != s@,
            },
    {
        if same(s, "display") {
            Ok(HmiType::Display)
        } else if same(s, "speaker") {
            Ok(HmiType::Speaker)
        } else if same(s, "buzzer") {
            Ok(HmiType::Buzzer)
        } else if same(s, "led-status") {
            Ok(HmiType::LedStatus)
        } else if same(s, "led-illumination") {
            Ok(HmiType::LedIllumination)
        } else if same(s, "button") {
            Ok(HmiType::Button)
        } else if same(s, "touchscreen") {
            Ok(HmiType::Touchscreen)
        } else if same(s, "indicator") {
            Ok(HmiType::Indicator)
        } else {
            Err(())
        }
    }

    /// The literal of this value.
    pub fn as_str(self) -> (r: &'static str)
        ensures
            r@ == self.literal(),
    {
        match self {
            HmiType::Display => "display",
            HmiType::Speaker => "speaker",
            HmiType::Buzzer => "buzzer",
            HmiType::LedStatus => "led-status",
            HmiType::LedIllumination => "led-illumination",
            HmiType::Button => "button",
            HmiType::Touchscreen => "touchscreen",
            HmiType::Indicator => "indicator",
        }
    }

    /// A literal stands for one value only, so reading a literal gives back the value that was written.
    pub proof fn literal_is_injective(a: Self, b: Self)
        requires
            a.literal() == b.literal(),
        ensures
            a == b,
    {
        reveal_strlit("display");
        reveal_strlit("speaker");
        reveal_strlit("buzzer");
        reveal_strlit("led-status");
        reveal_strlit("led-illumination");
        reveal_strlit("button");
        reveal_strlit("touchscreen");
        reveal_strlit("indicator");
        assert("display"@.len() == 7);
        assert("speaker"@.len() == 7);
        assert("buzzer"@.len() == 6);
        assert("led-status"@.len() == 10);
        assert("led-illumination"@.len() == 16);
        assert("button"@.len() == 6);
        assert("touchscreen"@.len() == 11);
        assert("indicator"@.len() == 9);
        assert("button"@[2] == 't');
        assert("buzzer"@[2] == 'z');
        assert("display"@[0] == 'd');
        assert("speaker"@[0] == 's');
    }
}

/// Inertial sensor sub-type. accel: accelerometer only (3-axis linear acceleration).
#[derive(Debug, Clone, Copy, PartialEq, Eq, Structural)]
pub enum InertialSensorType {
    Accel,
    Gyro,
    AccelGyro,
}

impl InertialSensorType {
    /// The literal that stands for this value.
    pub open spec fn literal(self) -> Seq<char> {
        match self {
            InertialSensorType::Accel => "accel"@,
            InertialSensorType::Gyro => "gyro"@,
            InertialSensorType::AccelGyro => "accel_gyro"@,
        }
    }

    /// Every literal, in order.
    pub open spec fn literals() -> Seq<Seq<char>> {
        seq!["accel"@, "gyro"@, "accel_gyro"@]
    }

    /// The accepted literals, in order.
    pub fn valid_values() -> (r: &'static [&'static str])
        ensures
            texts(r@) == Self::literals(),
    {
        let r: &'static [&'static str] = &["accel", "gyro", "accel_gyro"];
        assert(texts(r@) =~= Self::literals());
        r
    }

    /// The value that a literal stands for; an error for any other text.
    pub fn from_str(s: &str) -> (r: Result<Self, ()>)
        ensures
            match r {
                Ok(v) => v.literal() == s@,
                Err(_) => forall|v: Self| #[trigger] v.literal() != s@,
            },
    {
        if same(s, "accel") {
            Ok(InertialSensorType::Accel)
        } else if same(s, "gyro") {
            Ok(InertialSensorType::Gyro)
        } else if same(s, "accel_gyro") {
            Ok(InertialSensorType::AccelGyro)
        } else {
            Err(())
        }
    }

    /// The literal of this value.
    pub fn as_str(self) -> (r: &'static str)
        ensures
            r@ == self.literal(),
    {
        match self {
            InertialSensorType::Accel => "accel",
            InertialSensorType::Gyro => "gyro",
            InertialSensorType::AccelGyro => "accel_gyro",
        }
    }

    /// A literal stands for one value only, so reading a literal gives back the value that was written.
    pub proof fn literal_is_injective(a: Self, b: Self)
        requires
            a.literal() == b.literal(),
        ensures
            a == b,
    {
        reveal_strlit("accel");
        reveal_strlit("gyro");
        reveal_strlit("accel_gyro");
        assert("accel"@.len() == 5);
        assert("gyro"@.len() == 4);
        assert("accel_gyro"@.len() == 10);
    }
}

/// Enumeration of kinematic joint types. revolute: bounded single-axis rotation (requires axis +
/// limit; radians/Nm).
#[derive(Debug, Clone, Copy, PartialEq, Eq, Structural)]
pub enum JointType {
    Revolute,
    Continuous,
    Prismatic,
    Fixed,
    Ball,
    Universal,
    Planar,
    Screw,
    Cylindrical,
    Free,
}

impl JointType {
    /// The literal that stands for this value.
    pub open spec fn literal(self) -> Seq<char> {
        match self {
            JointType::Revolute => "revolute"@,
            JointType::Continuous => "continuous"@,
            JointType::Prismatic => "prismatic"@,
            JointType::Fixed => "fixed"@,
            JointType::Ball => "ball"@,
            JointType::Universal => "universal"@,
            JointType::Planar => "planar"@,
            JointType::Screw => "screw"@,
            JointType::Cylindrical => "cylindrical"@,
            JointType::Free => "free"@,
        }
    }

    /// Every literal, in order.
    pub open spec fn literals() -> Seq<Seq<char>> {
        seq!["revolute"@, "continuous"@, "prismatic"@, "fixed"@, "ball"@, "universal"@, "planar"@, "screw"@, "cylindrical"@, "free"@]
    }

    /// The accepted literals, in order.
    pub fn valid_values() -> (r: &'static [&'static str])
        ensures
            texts(r@) == Self::literals(),
    {
        let r: &'static [&'static str] = &["revolute", "continuous", "prismatic", "fixed", "ball", "universal", "planar", "screw", "cylindrical", "free"];
        assert(texts(r@) =~= Self::literals());
        r
    }

    /// The value that a literal stands for; an error for any other text.
    pub fn from_str(s: &str) -> (r: Result<Self, ()>)
        ensures
            match r {
                Ok(v) => v.literal() == s@,
                Err(_) => forall|v: Self| #[trigger] v.literal() != s@,
            },
    {
        if same(s, "revolute") {
            Ok(JointType::Revolute)
        } else if same(s, "continuous") {
            Ok(JointType::Continuous)
        } else if same(s, "prismatic") {
            Ok(JointType::Prismatic)
        } else if same(s, "fixed") {
            Ok(JointType::Fixed)
        } else if same(s, "ball") {
            Ok(JointType::Ball)
        } else if same(s, "universal") {
            Ok(JointType::Universal)
        } else if same(s, "planar") {
            Ok(JointType::Planar)
        } else if same(s, "screw") {
            Ok(JointType::Screw)
        } else if same(s, "cylindrical") {
            Ok(JointType::Cylindrical)
        } else if same(s, "free") {
            Ok(JointType::Free)
        } else {
            Err(())
        }
    }

    /// The literal of this value.
    pub fn as_str(self) -> (r: &'static str)
        ensures
            r@ == self.literal(),
    {
        match self {
            JointType::Revolute => "revolute",
            JointType::Continuous => "continuous",
            JointType::Prismatic => "prismatic",
            JointType::Fixed => "fixed",
            JointType::Ball => "ball",
            JointType::Universal => "universal",
            JointType::Planar => "planar",
            JointType::Screw => "screw",
            JointType::Cylindrical => "cylindrical",
            JointType::Free => "free",
        }
    }

    /// A literal stands for one value only, so reading a literal gives back the value that was written.
    pub proof fn literal_is_injective(a: Self, b: Self)
        requires
            a.literal() == b.literal(),
        ensures
            a == b,
    {
        reveal_strlit("revolute");
        reveal_strlit("continuous");
        reveal_strlit("prismatic");
        reveal_strlit("fixed");
        reveal_strlit("ball");
        reveal_strlit("universal");
        reveal_strlit("planar");
        reveal_strlit("screw");
        reveal_strlit("cylindrical");
        reveal_strlit("free");
        assert("revolute"@.len() == 8);
        assert("continuous"@.len() == 10);
        assert("prismatic"@.len() == 9);
        assert("fixed"@.len() == 5);
        assert("ball"@.len() == 4);
        assert("universal"@.len() == 9);
        assert("planar"@.len() == 6);
        assert("screw"@.len() == 5);
        assert("cylindrical"@.len() == 11);
        assert("free"@.len() == 4);
        assert("ball"@[0] == 'b');
        assert("fixed"@[0] == 'f');
        assert("free"@[0] == 'f');
        assert("prismatic"@[0] == 'p');
        assert("screw"@[0] == 's');
        assert("universal"@[0] == 'u');
    }
}

/// Sign convention for the wrench a force/torque sensor reports, matching SDF
/// force_torque/measure_direction. parent_to_child: the wrench the parent applies to the child.
#[derive(Debug, Clone, Copy, PartialEq, Eq, Structural)]
pub enum MeasureDirection {
    ParentToChild,
    ChildToParent,
}

impl MeasureDirection {
    /// The literal that stands for this value.
    pub open spec fn literal(self) -> Seq<char> {
        match self {
            MeasureDirection::ParentToChild => "parent_to_child"@,
            MeasureDirection::ChildToParent => "child_to_parent"@,
        }
    }

    /// Every literal, in order.
    pub open spec fn literals() -> Seq<Seq<char>> {
        seq!["parent_to_child"@, "child_to_parent"@]
    }

    /// The accepted literals, in order.
    pub fn valid_values() -> (r: &'static [&'static str])
        ensures
            texts(r@) == Self::literals(),
    {
        let r: &'static [&'static str] = &["parent_to_child", "child_to_parent"];
        assert(texts(r@) =~= Self::literals());
        r
    }

    /// The value that a literal stands for; an error for any other text.
    pub fn from_str(s: &str) -> (r: Result<Self, ()>)
        ensures
            match r {
                Ok(v) => v.literal() == s@,
                Err(_) => forall|v: Self| #[trigger] v.literal() != s@,
            },
    {
        if same(s, "parent_to_child") {
            Ok(MeasureDirection::ParentToChild)
        } else if same(s, "child_to_parent") {
            Ok(MeasureDirection::ChildToParent)
        } else {
            Err(())
        }
    }

    /// The literal of this value.
    pub fn as_str(self) -> (r: &'static str)
        ensures
            r@ == self.literal(),
    {
        match self {
            MeasureDirection::ParentToChild => "parent_to_child",
            MeasureDirection::ChildToParent => "child_to_parent",
        }
    }

    /// A literal stands for one value only, so reading a literal gives back the value that was written.
    pub proof fn literal_is_injective(a: Self, b: Self)
        requires
            a.literal() == b.literal(),
        ensures
            a == b,
    {
        reveal_strlit("parent_to_child");
        reveal_strlit("child_to_parent");
        assert("parent_to_child"@.len() == 15);
        assert("child_to_parent"@.len() == 15);
        assert("child_to_parent"@[0] == 'c');
        assert("parent_to_child"@[0] == 'p');
    }
}

/// Motor or actuator technology type. bldc: brushless DC motor.
#[derive(Debug, Clone, Copy, PartialEq, Eq, Structural)]
pub enum MotorType {
    Bldc,
    Brushed,
    Stepper,
    Servo,
    Linear,
    Solenoid,
    Hydraulic,
    Pneumatic,
    Thrust,
    Ice,
}

impl MotorType {
    /// The literal that stands for this value.
    pub open spec fn literal(self) -> Seq<char> {
        match self {
            MotorType::Bldc => "bldc"@,
            MotorType::Brushed => "brushed"@,
            MotorType::Stepper => "stepper"@,
            MotorType::Servo => "servo"@,
            MotorType::Linear => "linear"@,
            MotorType::Solenoid => "solenoid"@,
            MotorType::Hydraulic => "hydraulic"@,
            MotorType::Pneumatic => "pneumatic"@,
            MotorType::Thrust => "thrust"@,
            MotorType::Ice => "ice"@,
        }
    }

    /// Every literal, in order.
    pub open spec fn literals() -> Seq<Seq<char>> {
        seq!["bldc"@, "brushed"@, "stepper"@, "servo"@, "linear"@, "solenoid"@, "hydraulic"@, "pneumatic"@, "thrust"@, "ice"@]
    }

    /// The accepted literals, in order.
    pub fn valid_values() -> (r: &'static [&'static str])
        ensures
            texts(r@) == Self::literals(),
    {
        let r: &'static [&'static str] = &["bldc", "brushed", "stepper", "servo", "linear", "solenoid", "hydraulic", "pneumatic", "thrust", "ice"];
        assert(texts(r@) =~= Self::literals());
        r
    }

    /// The value that a literal stands for; an error for any other text.
    pub fn from_str(s: &str) -> (r: Result<Self, ()>)
        ensures
            match r {
                Ok(v) => v.literal() == s@,
                Err(_) => forall|v: Self| #[trigger] v.literal() != s@,
            },
    {
        if same(s, "bldc") {
            Ok(MotorType::Bldc)
        } else if same(s, "brushed") {
            Ok(MotorType::Brushed)
        } else if same(s, "stepper") {
            Ok(MotorType::Stepper)
        } else if same(s, "servo") {
            Ok(MotorType::Servo)
        } else if same(s, "linear") {
            Ok(MotorType::Linear)
        } else if same(s, "solenoid") {
            Ok(MotorType::Solenoid)
        } else if same(s, "hydraulic") {
            Ok(MotorType::Hydraulic)
        } else if same(s, "pneumatic") {
            Ok(MotorType::Pneumatic)
        } else if same(s, "thrust") {
            Ok(MotorType::Thrust)
        } else if same(s, "ice") {
            Ok(MotorType::Ice)
        } else {
            Err(())
        }
    }

    /// The literal of this value.
    pub fn as_str(self) -> (r: &'static str)
        ensures
            r@ == self.literal(),
    {
        match self {
            MotorType::Bldc => "bldc",
            MotorType::Brushed => "brushed",
            MotorType::Stepper => "stepper",
            MotorType::Servo => "servo",
            MotorType::Linear => "linear",
            MotorType::Solenoid => "solenoid",
            MotorType::Hydraulic => "hydraulic",
            MotorType::Pneumatic => "pneumatic",
            MotorType::Thrust => "thrust",
            MotorType::Ice => "ice",
        }
    }

    /// A literal stands for one value only, so reading a literal gives back the value that was written.
    pub proof fn literal_is_injective(a: Self, b: Self)
        requires
            a.literal() == b.literal(),
        ensures
            a == b,
    {
        reveal_strlit("bldc");
        reveal_strlit("brushed");
        reveal_strlit("stepper");
        reveal_strlit("servo");
        reveal_strlit("linear");
        reveal_strlit("solenoid");
        reveal_strlit("hydraulic");
        reveal_strlit("pneumatic");
        reveal_strlit("thrust");
        reveal_strlit("ice");
        assert("bldc"@.len() == 4);
        assert("brushed"@.len() == 7);
        assert("stepper"@.len() == 7);
        assert("servo"@.len() == 5);
        assert("linear"@.len() == 6);
        assert("solenoid"@.len() == 8);
        assert("hydraulic"@.len() == 9);
        assert("pneumatic"@.len() == 9);
        assert("thrust"@.len() == 6);
        assert("ice"@.len() == 3);
        assert("brushed"@[0] == 'b');
        assert("hydraulic"@[0] == 'h');
        assert("linear"@[0] == 'l');
        assert("pneumatic"@[0] == 'p');
        assert("stepper"@[0] == 's');
        assert("thrust"@[0] == 't');
    }
}

/// Absence is interpreted as "authored" by the companion validator.
#[derive(Debug, Clone, Copy, PartialEq, Eq, Structural)]
pub enum NameOrigin {
    Authored,
    Synthesized,
}

impl NameOrigin {
    /// The literal that stands for this value.
    pub open spec fn literal(self) -> Seq<char> {
        match self {
            NameOrigin::Authored => "authored"@,
            NameOrigin::Synthesized => "synthesized"@,
        }
    }

    /// Every literal, in order.
    pub open spec fn literals() -> Seq<Seq<char>> {
        seq!["authored"@, "synthesized"@]
    }

    /// The accepted literals, in order.
    pub fn valid_values() -> (r: &'static [&'static str])
        ensures
            texts(r@) == Self::literals(),
    {
        let r: &'static [&'static str] = &["authored", "synthesized"];
        assert(texts(r@) =~= Self::literals());
        r
    }

    /// The value that a literal stands for; an error for any other text.
    pub fn from_str(s: &str) -> (r: Result<Self, ()>)
        ensures
            match r {
                Ok(v) => v.literal() == s@,
                Err(_) => forall|v: Self| #[trigger] v.literal() != s@,
            },
    {
        if same(s, "authored") {
            Ok(NameOrigin::Authored)
        } else if same(s, "synthesized") {
            Ok(NameOrigin::Synthesized)
        } else {
            Err(())
        }
    }

    /// The literal of this value.
    pub fn as_str(self) -> (r: &'static str)
        ensures
            r@ == self.literal(),
    {
        match self {
            NameOrigin::Authored => "authored",
            NameOrigin::Synthesized => "synthesized",
        }
    }

    /// A literal stands for one value only, so reading a literal gives back the value that was written.
    pub proof fn literal_is_injective(a: Self, b: Self)
        requires
            a.literal() == b.literal(),
        ensures
            a == b,
    {
        reveal_strlit("authored");
        reveal_strlit("synthesized");
        assert("authored"@.len() == 8);
        assert("synthesized"@.len() == 11);
    }
}

/// Noise distribution model for sensor simulation. gaussian: Gaussian (normal) distribution with
/// mean and stddev.
#[derive(Debug, Clone, Copy, PartialEq, Eq, Structural)]
pub enum NoiseType {
    Gaussian,
    Uniform,
    Absent,
}

impl NoiseType {
    /// The literal that stands for this value.
    pub open spec fn literal(self) -> Seq<char> {
        match self {
            NoiseType::Gaussian => "gaussian"@,
            NoiseType::Uniform => "uniform"@,
            NoiseType::Absent => "none"@,
        }
    }

    /// Every literal, in order.
    pub open spec fn literals() -> Seq<Seq<char>> {
        seq!["gaussian"@, "uniform"@, "none"@]
    }

    /// The accepted literals, in order.
    pub fn valid_values() -> (r: &'static [&'static str])
        ensures
            texts(r@) == Self::literals(),
    {
        let r: &'static [&'static str] = &["gaussian", "uniform", "none"];
        assert(texts(r@) =~= Self::literals());
        r
    }

    /// The value that a literal stands for; an error for any other text.
    pub fn from_str(s: &str) -> (r: Result<Self, ()>)
        ensures
            match r {
                Ok(v) => v.literal() == s@,
                Err(_) => forall|v: Self| #[trigger] v.literal() != s@,
            },
    {
        if same(s, "gaussian") {
            Ok(NoiseType::Gaussian)
        } else if same(s, "uniform") {
            Ok(NoiseType::Uniform)
        } else if same(s, "none") {
            Ok(NoiseType::Absent)
        } else {
            Err(())
        }
    }

    /// The literal of this value.
    pub fn as_str(self) -> (r: &'static str)
        ensures
            r@ == self.literal(),
    {
        match self {
            NoiseType::Gaussian => "gaussian",
            NoiseType::Uniform => "uniform",
            NoiseType::Absent => "none",
        }
    }

    /// A literal stands for one value only, so reading a literal gives back the value that was written.
    pub proof fn literal_is_injective(a: Self, b: Self)
        requires
            a.literal() == b.literal(),
        ensures
            a == b,
    {
        reveal_strlit("gaussian");
        reveal_strlit("uniform");
        reveal_strlit("none");
        assert("gaussian"@.len() == 8);
        assert("uniform"@.len() == 7);
        assert("none"@.len() == 4);
    }
}

/// Optical sensor sub-type. camera: visible-spectrum image sensor (RGB, mono, stereo, depth).
#[derive(Debug, Clone, Copy, PartialEq, Eq, Structural)]
pub enum OpticalSensorType {
    Camera,
    Thermal,
    Lidar,
    Tof,
    OpticalFlow,
}

impl OpticalSensorType {
    /// The literal that stands for this value.
    pub open spec fn literal(self) -> Seq<char> {
        match self {
            OpticalSensorType::Camera => "camera"@,
            OpticalSensorType::Thermal => "thermal"@,
            OpticalSensorType::Lidar => "lidar"@,
            OpticalSensorType::Tof => "tof"@,
            OpticalSensorType::OpticalFlow => "optical_flow"@,
        }
    }

    /// Every literal, in order.
    pub open spec fn literals() -> Seq<Seq<char>> {
        seq!["camera"@, "thermal"@, "lidar"@, "tof"@, "optical_flow"@]
    }

    /// The accepted literals, in order.
    pub fn valid_values() -> (r: &'static [&'static str])
        ensures
            texts(r@) == Self::literals(),
    {
        let r: &'static [&'static str] = &["camera", "thermal", "lidar", "tof", "optical_flow"];
        assert(texts(r@) =~= Self::literals());
        r
    }

    /// The value that a literal stands for; an error for any other text.
    pub fn from_str(s: &str) -> (r: Result<Self, ()>)
        ensures
            match r {
                Ok(v) => v.literal() == s@,
                Err(_) => forall|v: Self| #[trigger] v.literal() != s@,
            },
    {
        if same(s, "camera") {
            Ok(OpticalSensorType::Camera)
        } else if same(s, "thermal") {
            Ok(OpticalSensorType::Thermal)
        } else if same(s, "lidar") {
            Ok(OpticalSensorType::Lidar)
        } else if same(s, "tof") {
            Ok(OpticalSensorType::Tof)
        } else if same(s, "optical_flow") {
            Ok(OpticalSensorType::OpticalFlow)
        } else {
            Err(())
        }
    }

    /// The literal of this value.
    pub fn as_str(self) -> (r: &'static str)
        ensures
            r@ == self.literal(),
    {
        match self {
            OpticalSensorType::Camera => "camera",
            OpticalSensorType::Thermal => "thermal",
            OpticalSensorType::Lidar => "lidar",
            OpticalSensorType::Tof => "tof",
            OpticalSensorType::OpticalFlow => "optical_flow",
        }
    }

    /// A literal stands for one value only, so reading a literal gives back the value that was written.
    pub proof fn literal_is_injective(a: Self, b: Self)
        requires
            a.literal() == b.literal(),
        ensures
            a == b,
    {
        reveal_strlit("camera");
        reveal_strlit("thermal");
        reveal_strlit("lidar");
        reveal_strlit("tof");
        reveal_strlit("optical_flow");
        assert("camera"@.len() == 6);
        assert("thermal"@.len() == 7);
        assert("lidar"@.len() == 5);
        assert("tof"@.len() == 3);
        assert("optical_flow"@.len() == 12);
    }
}

/// Flow/velocity probe geometry for a fluid sensor (airspeed or flow sub-types). pitot: single
/// total-pressure tube; static pressure taken from a separate source.
#[derive(Debug, Clone, Copy, PartialEq, Eq, Structural)]
pub enum ProbeType {
    Pitot,
    PitotStatic,
    Multihole,
    Hotwire,
    Venturi,
    Orifice,
}

impl ProbeType {
    /// The literal that stands for this value.
    pub open spec fn literal(self) -> Seq<char> {
        match self {
            ProbeType::Pitot => "pitot"@,
            ProbeType::PitotStatic => "pitot_static"@,
            ProbeType::Multihole => "multihole"@,
            ProbeType::Hotwire => "hotwire"@,
            ProbeType::Venturi => "venturi"@,
            ProbeType::Orifice => "orifice"@,
        }
    }

    /// Every literal, in order.
    pub open spec fn literals() -> Seq<Seq<char>> {
        seq!["pitot"@, "pitot_static"@, "multihole"@, "hotwire"@, "venturi"@, "orifice"@]
    }

    /// The accepted literals, in order.
    pub fn valid_values() -> (r: &'static [&'static str])
        ensures
            texts(r@) == Self::literals(),
    {
        let r: &'static [&'static str] = &["pitot", "pitot_static", "multihole", "hotwire", "venturi", "orifice"];
        assert(texts(r@) =~= Self::literals());
        r
    }

    /// The value that a literal stands for; an error for any other text.
    pub fn from_str(s: &str) -> (r: Result<Self, ()>)
        ensures
            match r {
                Ok(v) => v.literal() == s@,
                Err(_) => forall|v: Self| #[trigger] v.literal() != s@,
            },
    {
        if same(s, "pitot") {
            Ok(ProbeType::Pitot)
        } else if same(s, "pitot_static") {
            Ok(ProbeType::PitotStatic)
        } else if same(s, "multihole") {
            Ok(ProbeType::Multihole)
        } else if same(s, "hotwire") {
            Ok(ProbeType::Hotwire)
        } else if same(s, "venturi") {
            Ok(ProbeType::Venturi)
        } else if same(s, "orifice") {
            Ok(ProbeType::Orifice)
        } else {
            Err(())
        }
    }

    /// The literal of this value.
    pub fn as_str(self) -> (r: &'static str)
        ensures
            r@ == self.literal(),
    {
        match self {
            ProbeType::Pitot => "pitot",
            ProbeType::PitotStatic => "pitot_static",
            ProbeType::Multihole => "multihole",
            ProbeType::Hotwire => "hotwire",
            ProbeType::Venturi => "venturi",
            ProbeType::Orifice => "orifice",
        }
    }

    /// A literal stands for one value only, so reading a literal gives back the value that was written.
    pub proof fn literal_is_injective(a: Self, b: Self)
        requires
            a.literal() == b.literal(),
        ensures
            a == b,
    {
        reveal_strlit("pitot");
        reveal_strlit("pitot_static");
        reveal_strlit("multihole");
        reveal_strlit("hotwire");
        reveal_strlit("venturi");
        reveal_strlit("orifice");
        assert("pitot"@.len() == 5);
        assert("pitot_static"@.len() == 12);
        assert("multihole"@.len() == 9);
        assert("hotwire"@.len() == 7);
        assert("venturi"@.len() == 7);
        assert("orifice"@.len() == 7);
        assert("hotwire"@[0] == 'h');
        assert("orifice"@[0] == 'o');
        assert("venturi"@[0] == 'v');
    }
}

/// Radiation sensor sub-type for nuclear inspection, environmental monitoring, and space robotics.
/// geiger: Geiger-Muller tube for ionizing radiation counting (alpha, beta, gamma).
#[derive(Debug, Clone, Copy, PartialEq, Eq, Structural)]
pub enum RadiationSensorType {
    Geiger,
    Scintillation,
    Neutron,
    Dosimeter,
}

impl RadiationSensorType {
    /// The literal that stands for this value.
    pub open spec fn literal(self) -> Seq<char> {
        match self {
            RadiationSensorType::Geiger => "geiger"@,
            RadiationSensorType::Scintillation => "scintillation"@,
            RadiationSensorType::Neutron => "neutron"@,
            RadiationSensorType::Dosimeter => "dosimeter"@,
        }
    }

    /// Every literal, in order.
    pub open spec fn literals() -> Seq<Seq<char>> {
        seq!["geiger"@, "scintillation"@, "neutron"@, "dosimeter"@]
    }

    /// The accepted literals, in order.
    pub fn valid_values() -> (r: &'static [&'static str])
        ensures
            texts(r@) == Self::literals(),
    {
        let r: &'static [&'static str] = &["geiger", "scintillation", "neutron", "dosimeter"];
        assert(texts(r@) =~= Self::literals());
        r
    }

    /// The value that a literal stands for; an error for any other text.
    pub fn from_str(s: &str) -> (r: Result<Self, ()>)
        ensures
            match r {
                Ok(v) => v.literal() == s@,
                Err(_) => forall|v: Self| #[trigger] v.literal() != s@,
            },
    {
        if same(s, "geiger") {
            Ok(RadiationSensorType::Geiger)
        } else if same(s, "scintillation") {
            Ok(RadiationSensorType::Scintillation)
        } else if same(s, "neutron") {
            Ok(RadiationSensorType::Neutron)
        } else if same(s, "dosimeter") {
            Ok(RadiationSensorType::Dosimeter)
        } else {
            Err(())
        }
    }

    /// The literal of this value.
    pub fn as_str(self) -> (r: &'static str)
        ensures
            r@ == self.literal(),
    {
        match self {
            RadiationSensorType::Geiger => "geiger",
            RadiationSensorType::Scintillation => "scintillation",
            RadiationSensorType::Neutron => "neutron",
            RadiationSensorType::Dosimeter => "dosimeter",
        }
    }

    /// A literal stands for one value only, so reading a literal gives back the value that was written.
    pub proof fn literal_is_injective(a: Self, b: Self)
        requires
            a.literal() == b.literal(),
        ensures
            a == b,
    {
        reveal_strlit("geiger");
        reveal_strlit("scintillation");
        reveal_strlit("neutron");
        reveal_strlit("dosimeter");
        assert("geiger"@.len() == 6);
        assert("scintillation"@.len() == 13);
        assert("neutron"@.len() == 7);
        assert("dosimeter"@.len() == 9);
    }
}

/// Radio-frequency sensor sub-type. Uses propagating radio waves for ranging, positioning, or
/// imaging; distinct from em which measures static/quasi-static fields.
#[derive(Debug, Clone, Copy, PartialEq, Eq, Structural)]
pub enum RfSensorType {
    Gnss,
    Uwb,
    Radar,
    RadioAltimeter,
}

impl RfSensorType {
    /// The literal that stands for this value.
    pub open spec fn literal(self) -> Seq<char> {
        match self {
            RfSensorType::Gnss => "gnss"@,
            RfSensorType::Uwb => "uwb"@,
            RfSensorType::Radar => "radar"@,
            RfSensorType::RadioAltimeter => "radio_altimeter"@,
        }
    }

    /// Every literal, in order.
    pub open spec fn literals() -> Seq<Seq<char>> {
        seq!["gnss"@, "uwb"@, "radar"@, "radio_altimeter"@]
    }

    /// The accepted literals, in order.
    pub fn valid_values() -> (r: &'static [&'static str])
        ensures
            texts(r@) == Self::literals(),
    {
        let r: &'static [&'static str] = &["gnss", "uwb", "radar", "radio_altimeter"];
        assert(texts(r@) =~= Self::literals());
        r
    }

    /// The value that a literal stands for; an error for any other text.
    pub fn from_str(s: &str) -> (r: Result<Self, ()>)
        ensures
            match r {
                Ok(v) => v.literal() == s@,
                Err(_) => forall|v: Self| #[trigger] v.literal() != s@,
            },
    {
        if same(s, "gnss") {
            Ok(RfSensorType::Gnss)
        } else if same(s, "uwb") {
            Ok(RfSensorType::Uwb)
        } else if same(s, "radar") {
            Ok(RfSensorType::Radar)
        } else if same(s, "radio_altimeter") {
            Ok(RfSensorType::RadioAltimeter)
        } else {
            Err(())
        }
    }

    /// The literal of this value.
    pub fn as_str(self) -> (r: &'static str)
        ensures
            r@ == self.literal(),
    {
        match self {
            RfSensorType::Gnss => "gnss",
            RfSensorType::Uwb => "uwb",
            RfSensorType::Radar => "radar",
            RfSensorType::RadioAltimeter => "radio_altimeter",
        }
    }

    /// A literal stands for one value only, so reading a literal gives back the value that was written.
    pub proof fn literal_is_injective(a: Self, b: Self)
        requires
            a.literal() == b.literal(),
        ensures
            a == b,
    {
        reveal_strlit("gnss");
        reveal_strlit("uwb");
        reveal_strlit("radar");
        reveal_strlit("radio_altimeter");
        assert("gnss"@.len() == 4);
        assert("uwb"@.len() == 3);
        assert("radar"@.len() == 5);
        assert("radio_altimeter"@.len() == 15);
    }
}

/// Role of an endpoint within a MULTI-ENDPOINT transmission coupling, disambiguating which motor
/// drives which output and how outputs are geared together. Omit for a simple single-motor/single-
/// joint reduction, where each endpoint's part is unambiguous.
#[derive(Debug, Clone, Copy, PartialEq, Eq, Structural)]
pub enum RoleType {
    Reference,
    Driven,
    Input,
    Output,
}

impl RoleType {
    /// The literal that stands for this value.
    pub open spec fn literal(self) -> Seq<char> {
        match self {
            RoleType::Reference => "reference"@,
            RoleType::Driven => "driven"@,
            RoleType::Input => "input"@,
            RoleType::Output => "output"@,
        }
    }

    /// Every literal, in order.
    pub open spec fn literals() -> Seq<Seq<char>> {
        seq!["reference"@, "driven"@, "input"@, "output"@]
    }

    /// The accepted literals, in order.
    pub fn valid_values() -> (r: &'static [&'static str])
        ensures
            texts(r@) == Self::literals(),
    {
        let r: &'static [&'static str] = &["reference", "driven", "input", "output"];
        assert(texts(r@) =~= Self::literals());
        r
    }

    /// The value that a literal stands for; an error for any other text.
    pub fn from_str(s: &str) -> (r: Result<Self, ()>)
        ensures
            match r {
                Ok(v) => v.literal() == s@,
                Err(_) => forall|v: Self| #[trigger] v.literal() != s@,
            },
    {
        if same(s, "reference") {
            Ok(RoleType::Reference)
        } else if same(s, "driven") {
            Ok(RoleType::Driven)
        } else if same(s, "input") {
            Ok(RoleType::Input)
        } else if same(s, "output") {
            Ok(RoleType::Output)
        } else {
            Err(())
        }
    }

    /// The literal of this value.
    pub fn as_str(self) -> (r: &'static str)
        ensures
            r@ == self.literal(),
    {
        match self {
            RoleType::Reference => "reference",
            RoleType::Driven => "driven",
            RoleType::Input => "input",
            RoleType::Output => "output",
        }
    }

    /// A literal stands for one value only, so reading a literal gives back the value that was written.
    pub proof fn literal_is_injective(a: Self, b: Self)
        requires
            a.literal() == b.literal(),
        ensures
            a == b,
    {
        reveal_strlit("reference");
        reveal_strlit("driven");
        reveal_strlit("input");
        reveal_strlit("output");
        assert("reference"@.len() == 9);
        assert("driven"@.len() == 6);
        assert("input"@.len() == 5);
        assert("output"@.len() == 6);
        assert("driven"@[0] == 'd');
        assert("output"@[0] == 'o');
    }
}

/// Tactile sensor sub-type. Tactile sensors measure contact, pressure, or deformation distributed
/// across a surface area, as distinct from force sensors which measure at a single point.
#[derive(Debug, Clone, Copy, PartialEq, Eq, Structural)]
pub enum TactileSensorType {
    Capacitive,
    Resistive,
    Piezoelectric,
    Barometric,
    Optical,
}

impl TactileSensorType {
    /// The literal that stands for this value.
    pub open spec fn literal(self) -> Seq<char> {
        match self {
            TactileSensorType::Capacitive => "capacitive"@,
            TactileSensorType::Resistive => "resistive"@,
            TactileSensorType::Piezoelectric => "piezoelectric"@,
            TactileSensorType::Barometric => "barometric"@,
            TactileSensorType::Optical => "optical"@,
        }
    }

    /// Every literal, in order.
    pub open spec fn literals() -> Seq<Seq<char>> {
        seq!["capacitive"@, "resistive"@, "piezoelectric"@, "barometric"@, "optical"@]
    }

    /// The accepted literals, in order.
    pub fn valid_values() -> (r: &'static [&'static str])
        ensures
            texts(r@) == Self::literals(),
    {
        let r: &'static [&'static str] = &["capacitive", "resistive", "piezoelectric", "barometric", "optical"];
        assert(texts(r@) =~= Self::literals());
        r
    }

    /// The value that a literal stands for; an error for any other text.
    pub fn from_str(s: &str) -> (r: Result<Self, ()>)
        ensures
            match r {
                Ok(v) => v.literal() == s@,
                Err(_) => forall|v: Self| #[trigger] v.literal() != s@,
            },
    {
        if same(s, "capacitive") {
            Ok(TactileSensorType::Capacitive)
        } else if same(s, "resistive") {
            Ok(TactileSensorType::Resistive)
        } else if same(s, "piezoelectric") {
            Ok(TactileSensorType::Piezoelectric)
        } else if same(s, "barometric") {
            Ok(TactileSensorType::Barometric)
        } else if same(s, "optical") {
            Ok(TactileSensorType::Optical)
        } else {
            Err(())
        }
    }

    /// The literal of this value.
    pub fn as_str(self) -> (r: &'static str)
        ensures
            r@ == self.literal(),
    {
        match self {
            TactileSensorType::Capacitive => "capacitive",
            TactileSensorType::Resistive => "resistive",
            TactileSensorType::Piezoelectric => "piezoelectric",
            TactileSensorType::Barometric => "barometric",
            TactileSensorType::Optical => "optical",
        }
    }

    /// A literal stands for one value only, so reading a literal gives back the value that was written.
    pub proof fn literal_is_injective(a: Self, b: Self)
        requires
            a.literal() == b.literal(),
        ensures
            a == b,
    {
        reveal_strlit("capacitive");
        reveal_strlit("resistive");
        reveal_strlit("piezoelectric");
        reveal_strlit("barometric");
        reveal_strlit("optical");
        assert("capacitive"@.len() == 10);
        assert("resistive"@.len() == 9);
        assert("piezoelectric"@.len() == 13);
        assert("barometric"@.len() == 10);
        assert("optical"@.len() == 7);
        assert("barometric"@[0] == 'b');
        assert("capacitive"@[0] == 'c');
    }
}

/// Temperature sensor type. thermistor: NTC or PTC resistive element (common in motors for winding
/// temp).
#[derive(Debug, Clone, Copy, PartialEq, Eq, Structural)]
pub enum TemperatureSensorType {
    Thermistor,
    Rtd,
    Thermocouple,
    Ir,
}

impl TemperatureSensorType {
    /// The literal that stands for this value.
    pub open spec fn literal(self) -> Seq<char> {
        match self {
            TemperatureSensorType::Thermistor => "thermistor"@,
            TemperatureSensorType::Rtd => "rtd"@,
            TemperatureSensorType::Thermocouple => "thermocouple"@,
            TemperatureSensorType::Ir => "ir"@,
        }
    }

    /// Every literal, in order.
    pub open spec fn literals() -> Seq<Seq<char>> {
        seq!["thermistor"@, "rtd"@, "thermocouple"@, "ir"@]
    }

    /// The accepted literals, in order.
    pub fn valid_values() -> (r: &'static [&'static str])
        ensures
            texts(r@) == Self::literals(),
    {
        let r: &'static [&'static str] = &["thermistor", "rtd", "thermocouple", "ir"];
        assert(texts(r@) =~= Self::literals());
        r
    }

    /// The value that a literal stands for; an error for any other text.
    pub fn from_str(s: &str) -> (r: Result<Self, ()>)
        ensures
            match r {
                Ok(v) => v.literal() == s@,
                Err(_) => forall|v: Self| #[trigger] v.literal() != s@,
            },
    {
        if same(s, "thermistor") {
            Ok(TemperatureSensorType::Thermistor)
        } else if same(s, "rtd") {
            Ok(TemperatureSensorType::Rtd)
        } else if same(s, "thermocouple") {
            Ok(TemperatureSensorType::Thermocouple)
        } else if same(s, "ir") {
            Ok(TemperatureSensorType::Ir)
        } else {
            Err(())
        }
    }

    /// The literal of this value.
    pub fn as_str(self) -> (r: &'static str)
        ensures
            r@ == self.literal(),
    {
        match self {
            TemperatureSensorType::Thermistor => "thermistor",
            TemperatureSensorType::Rtd => "rtd",
            TemperatureSensorType::Thermocouple => "thermocouple",
            TemperatureSensorType::Ir => "ir",
        }
    }

    /// A literal stands for one value only, so reading a literal gives back the value that was written.
    pub proof fn literal_is_injective(a: Self, b: Self)
        requires
            a.literal() == b.literal(),
        ensures
            a == b,
    {
        reveal_strlit("thermistor");
        reveal_strlit("rtd");
        reveal_strlit("thermocouple");
        reveal_strlit("ir");
        assert("thermistor"@.len() == 10);
        assert("rtd"@.len() == 3);
        assert("thermocouple"@.len() == 12);
        assert("ir"@.len() == 2);
    }
}

/// Mechanical power transmission mechanism between motor and joint. simple: direct drive or
/// single-stage reduction.
#[derive(Debug, Clone, Copy, PartialEq, Eq, Structural)]
pub enum TransmissionType {
    Simple,
    Differential,
    Belt,
    Gear,
    Planetary,
    Cycloidal,
    Harmonic,
    StrainWave,
    Worm,
}

impl TransmissionType {
    /// The literal that stands for this value.
    pub open spec fn literal(self) -> Seq<char> {
        match self {
            TransmissionType::Simple => "simple"@,
            TransmissionType::Differential => "differential"@,
            TransmissionType::Belt => "belt"@,
            TransmissionType::Gear => "gear"@,
            TransmissionType::Planetary => "planetary"@,
            TransmissionType::Cycloidal => "cycloidal"@,
            TransmissionType::Harmonic => "harmonic"@,
            TransmissionType::StrainWave => "strain-wave"@,
            TransmissionType::Worm => "worm"@,
        }
    }

    /// Every literal, in order.
    pub open spec fn literals() -> Seq<Seq<char>> {
        seq!["simple"@, "differential"@, "belt"@, "gear"@, "planetary"@, "cycloidal"@, "harmonic"@, "strain-wave"@, "worm"@]
    }

    /// The accepted literals, in order.
    pub fn valid_values() -> (r: &'static [&'static str])
        ensures
            texts(r@) == Self::literals(),
    {
        let r: &'static [&'static str] = &["simple", "differential", "belt", "gear", "planetary", "cycloidal", "harmonic", "strain-wave", "worm"];
        assert(texts(r@) =~= Self::literals());
        r
    }

    /// The value that a literal stands for; an error for any other text.
    pub fn from_str(s: &str) -> (r: Result<Self, ()>)
        ensures
            match r {
                Ok(v) => v.literal() == s@,
                Err(_) => forall|v: Self| #[trigger] v.literal() != s@,
            },
    {
        if same(s, "simple") {
            Ok(TransmissionType::Simple)
        } else if same(s, "differential") {
            Ok(TransmissionType::Differential)
        } else if same(s, "belt") {
            Ok(TransmissionType::Belt)
        } else if same(s, "gear") {
            Ok(TransmissionType::Gear)
        } else if same(s, "planetary") {
            Ok(TransmissionType::Planetary)
        } else if same(s, "cycloidal") {
            Ok(TransmissionType::Cycloidal)
        } else if same(s, "harmonic") {
            Ok(TransmissionType::Harmonic)
        } else if same(s, "strain-wave") {
            Ok(TransmissionType::StrainWave)
        } else if same(s, "worm") {
            Ok(TransmissionType::Worm)
        } else {
            Err(())
        }
    }

    /// The literal of this value.
    pub fn as_str(self) -> (r: &'static str)
        ensures
            r@ == self.literal(),
    {
        match self {
            TransmissionType::Simple => "simple",
            TransmissionType::Differential => "differential",
            TransmissionType::Belt => "belt",
            TransmissionType::Gear => "gear",
            TransmissionType::Planetary => "planetary",
            TransmissionType::Cycloidal => "cycloidal",
            TransmissionType::Harmonic => "harmonic",
            TransmissionType::StrainWave => "strain-wave",
            TransmissionType::Worm => "worm",
        }
    }

    /// A literal stands for one value only, so reading a literal gives back the value that was written.
    pub proof fn literal_is_injective(a: Self, b: Self)
        requires
            a.literal() == b.literal(),
        ensures
            a == b,
    {
        reveal_strlit("simple");
        reveal_strlit("differential");
        reveal_strlit("belt");
        reveal_strlit("gear");
        reveal_strlit("planetary");
        reveal_strlit("cycloidal");
        reveal_strlit("harmonic");
        reveal_strlit("strain-wave");
        reveal_strlit("worm");
        assert("simple"@.len() == 6);
        assert("differential"@.len() == 12);
        assert("belt"@.len() == 4);
        assert("gear"@.len() == 4);
        assert("planetary"@.len() == 9);
        assert("cycloidal"@.len() == 9);
        assert("harmonic"@.len() == 8);
        assert("strain-wave"@.len() == 11);
        assert("worm"@.len() == 4);
        assert("belt"@[0] == 'b');
        assert("cycloidal"@[0] == 'c');
        assert("gear"@[0] == 'g');
        assert("planetary"@[0] == 'p');
        assert("worm"@[0] == 'w');
    }
}

/// World-frame (navigation frame) axis convention describing how global/map coordinate axes are
/// oriented. ENU (X-east, Y-north, Z-up): common in geographic information systems, ground
/// robotics, and surveying.
#[derive(Debug, Clone, Copy, PartialEq, Eq, Structural)]
pub enum WorldFrame {
    ENU,
    NED,
}

impl WorldFrame {
    /// The literal that stands for this value.
    pub open spec fn literal(self) -> Seq<char> {
        match self {
            WorldFrame::ENU => "ENU"@,
            WorldFrame::NED => "NED"@,
        }
    }

    /// Every literal, in order.
    pub open spec fn literals() -> Seq<Seq<char>> {
        seq!["ENU"@, "NED"@]
    }

    /// The accepted literals, in order.
    pub fn valid_values() -> (r: &'static [&'static str])
        ensures
            texts(r@) == Self::literals(),
    {
        let r: &'static [&'static str] = &["ENU", "NED"];
        assert(texts(r@) =~= Self::literals());
        r
    }

    /// The value that a literal stands for; an error for any other text.
    pub fn from_str(s: &str) -> (r: Result<Self, ()>)
        ensures
            match r {
                Ok(v) => v.literal() == s@,
                Err(_) => forall|v: Self| #[trigger] v.literal() != s@,
            },
    {
        if same(s, "ENU") {
            Ok(WorldFrame::ENU)
        } else if same(s, "NED") {
            Ok(WorldFrame::NED)
        } else {
            Err(())
        }
    }

    /// The literal of this value.
    pub fn as_str(self) -> (r: &'static str)
        ensures
            r@ == self.literal(),
    {
        match self {
            WorldFrame::ENU => "ENU",
            WorldFrame::NED => "NED",
        }
    }

    /// A literal stands for one value only, so reading a literal gives back the value that was written.
    pub proof fn literal_is_injective(a: Self, b: Self)
        requires
            a.literal() == b.literal(),
        ensures
            a == b,
    {
        reveal_strlit("ENU");
        reveal_strlit("NED");
        assert("ENU"@.len() == 3);
        assert("NED"@.len() == 3);
        assert("ENU"@[0] == 'E');
        assert("NED"@[0] == 'N');
    }
}

/// Chirality of a screw thread. right: a right-handed helix (positive @thread_pitch advances along
/// +axis under a right-hand-rule positive rotation), the canonical HCDF storage and the modern gz
/// convention.
#[derive(Debug, Clone, Copy, PartialEq, Eq, Structural)]
pub enum Handedness {
    Right,
    Left,
}

impl Handedness {
    /// The literal that stands for this value.
    pub open spec fn literal(self) -> Seq<char> {
        match self {
            Handedness::Right => "right"@,
            Handedness::Left => "left"@,
        }
    }

    /// Every literal, in order.
    pub open spec fn literals() -> Seq<Seq<char>> {
        seq!["right"@, "left"@]
    }

    /// The accepted literals, in order.
    pub fn valid_values() -> (r: &'static [&'static str])
        ensures
            texts(r@) == Self::literals(),
    {
        let r: &'static [&'static str] = &["right", "left"];
        assert(texts(r@) =~= Self::literals());
        r
    }

    /// The value that a literal stands for; an error for any other text.
    pub fn from_str(s: &str) -> (r: Result<Self, ()>)
        ensures
            match r {
                Ok(v) => v.literal() == s@,
                Err(_) => forall|v: Self| #[trigger] v.literal() != s@,
            },
    {
        if same(s, "right") {
            Ok(Handedness::Right)
        } else if same(s, "left") {
            Ok(Handedness::Left)
        } else {
            Err(())
        }
    }

    /// The literal of this value.
    pub fn as_str(self) -> (r: &'static str)
        ensures
            r@ == self.literal(),
    {
        match self {
            Handedness::Right => "right",
            Handedness::Left => "left",
        }
    }

    /// A literal stands for one value only, so reading a literal gives back the value that was written.
    pub proof fn literal_is_injective(a: Self, b: Self)
        requires
            a.literal() == b.literal(),
        ensures
            a == b,
    {
        reveal_strlit("right");
        reveal_strlit("left");
        assert("right"@.len() == 5);
        assert("left"@.len() == 4);
    }
}

/// Unit convention the screw @thread_pitch value is expressed in. m_per_rev: meters of axial
/// advance per full (2*pi rad) revolution; the canonical HCDF storage and the modern gz
/// screw_thread_pitch convention.
#[derive(Debug, Clone, Copy, PartialEq, Eq, Structural)]
pub enum PitchConvention {
    MPerRev,
    RadPerM,
}

impl PitchConvention {
    /// The literal that stands for this value.
    pub open spec fn literal(self) -> Seq<char> {
        match self {
            PitchConvention::MPerRev => "m_per_rev"@,
            PitchConvention::RadPerM => "rad_per_m"@,
        }
    }

    /// Every literal, in order.
    pub open spec fn literals() -> Seq<Seq<char>> {
        seq!["m_per_rev"@, "rad_per_m"@]
    }

    /// The accepted literals, in order.
    pub fn valid_values() -> (r: &'static [&'static str])
        ensures
            texts(r@) == Self::literals(),
    {
        let r: &'static [&'static str] = &["m_per_rev", "rad_per_m"];
        assert(texts(r@) =~= Self::literals());
        r
    }

    /// The value that a literal stands for; an error for any other text.
    pub fn from_str(s: &str) -> (r: Result<Self, ()>)
        ensures
            match r {
                Ok(v) => v.literal() == s@,
                Err(_) => forall|v: Self| #[trigger] v.literal() != s@,
            },
    {
        if same(s, "m_per_rev") {
            Ok(PitchConvention::MPerRev)
        } else if same(s, "rad_per_m") {
            Ok(PitchConvention::RadPerM)
        } else {
            Err(())
        }
    }

    /// The literal of this value.
    pub fn as_str(self) -> (r: &'static str)
        ensures
            r@ == self.literal(),
    {
        match self {
            PitchConvention::MPerRev => "m_per_rev",
            PitchConvention::RadPerM => "rad_per_m",
        }
    }

    /// A literal stands for one value only, so reading a literal gives back the value that was written.
    pub proof fn literal_is_injective(a: Self, b: Self)
        requires
            a.literal() == b.literal(),
        ensures
            a == b,
    {
        reveal_strlit("m_per_rev");
        reveal_strlit("rad_per_m");
        assert("m_per_rev"@.len() == 9);
        assert("rad_per_m"@.len() == 9);
        assert("m_per_rev"@[0] == 'm');
        assert("rad_per_m"@[0] == 'r');
    }
}

/// The literals accepted in the slot `(element, key)`, for the slots that the model keeps as text.
pub open spec fn slot_literals(element: Seq<char>, key: Seq<char>) -> Option<Seq<Seq<char>>> {
    if element == "audio"@ && key == "@type"@ {
        Some(AudioSensorType::literals())
    } else if element == "chemical"@ && key == "@type"@ {
        Some(ChemicalSensorType::literals())
    } else if element == "em"@ && key == "@type"@ {
        Some(EmSensorType::literals())
    } else if element == "encoder"@ && key == "@type"@ {
        Some(EncoderSensorType::literals())
    } else if element == "fluid"@ && key == "@type"@ {
        Some(FluidSensorType::literals())
    } else if element == "force"@ && key == "@type"@ {
        Some(ForceSensorType::literals())
    } else if element == "joint"@ && key == "@role"@ {
        Some(RoleType::literals())
    } else if element == "lens"@ && key == "@type"@ {
        Some(CameraProjectionType::literals())
    } else if element == "motor"@ && key == "@role"@ {
        Some(RoleType::literals())
    } else if element == "probe"@ && key == "@type"@ {
        Some(ProbeType::literals())
    } else if element == "radiation"@ && key == "@type"@ {
        Some(RadiationSensorType::literals())
    } else if element == "rf"@ && key == "@type"@ {
        Some(RfSensorType::literals())
    } else if element == "tactile"@ && key == "@type"@ {
        Some(TactileSensorType::literals())
    } else if element == "temperature"@ && key == "@type"@ {
        Some(TemperatureSensorType::literals())
    } else {
        None
    }
}

/// The literals accepted in the slot `(element, key)`, or `None` when the slot is not kept as text.
pub fn valid_values_for(element: &str, key: &str) -> (r: Option<&'static [&'static str]>)
    ensures
        match r {
            Some(values) => slot_literals(element@, key@) == Some(texts(values@)),
            None => slot_literals(element@, key@) is None,
        },
{
    if same(element, "audio") && same(key, "@type") {
        Some(AudioSensorType::valid_values())
    } else if same(element, "chemical") && same(key, "@type") {
        Some(ChemicalSensorType::valid_values())
    } else if same(element, "em") && same(key, "@type") {
        Some(EmSensorType::valid_values())
    } else if same(element, "encoder") && same(key, "@type") {
        Some(EncoderSensorType::valid_values())
    } else if same(element, "fluid") && same(key, "@type") {
        Some(FluidSensorType::valid_values())
    } else if same(element, "force") && same(key, "@type") {
        Some(ForceSensorType::valid_values())
    } else if same(element, "joint") && same(key, "@role") {
        Some(RoleType::valid_values())
    } else if same(element, "lens") && same(key, "@type") {
        Some(CameraProjectionType::valid_values())
    } else if same(element, "motor") && same(key, "@role") {
        Some(RoleType::valid_values())
    } else if same(element, "probe") && same(key, "@type") {
        Some(ProbeType::valid_values())
    } else if same(element, "radiation") && same(key, "@type") {
        Some(RadiationSensorType::valid_values())
    } else if same(element, "rf") && same(key, "@type") {
        Some(RfSensorType::valid_values())
    } else if same(element, "tactile") && same(key, "@type") {
        Some(TactileSensorType::valid_values())
    } else if same(element, "temperature") && same(key, "@type") {
        Some(TemperatureSensorType::valid_values())
    } else {
        None
    }
}

} // verus!
