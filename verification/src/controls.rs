//! Camera controls.
use vstd::prelude::*;

verus! {

/// A device control.
#[derive(Clone, Copy, Debug, PartialEq, Eq, Structural, Hash)]
pub enum CameraControlType {
    Brightness,
    Contrast,
    Saturation,
    Hue,
    WhiteBalance,
    Gamma,
    Sharpness,
    BacklightCompensation,
    Gain,
    Pan,
    Tilt,
    Zoom,
    Exposure,
    Iris,
    Focus,
    AutoExposure,
    AutoFocus,
    AutoWhiteBalance,
}

/// Operating mode of an automatic control.
#[derive(Clone, Copy, Debug, PartialEq, Eq, Structural, Hash)]
pub enum ControlMode {
    Manual,
    Automatic,
    Locked,
    Single,
    Continuous,
}

/// The automatic switch that governs a manual control.
pub open spec fn spec_auto_control(control: CameraControlType) -> Option<CameraControlType> {
    match control {
        CameraControlType::Exposure => Some(CameraControlType::AutoExposure),
        CameraControlType::Focus => Some(CameraControlType::AutoFocus),
        CameraControlType::WhiteBalance => Some(CameraControlType::AutoWhiteBalance),
        _ => None,
    }
}

/// The manual control that an automatic switch governs.
pub open spec fn spec_automatic_base(control: CameraControlType) -> Option<CameraControlType> {
    match control {
        CameraControlType::AutoExposure => Some(CameraControlType::Exposure),
        CameraControlType::AutoFocus => Some(CameraControlType::Focus),
        CameraControlType::AutoWhiteBalance => Some(CameraControlType::WhiteBalance),
        _ => None,
    }
}

/// The automatic switch that governs a manual control.
pub fn auto_control(control: CameraControlType) -> (r: Option<CameraControlType>)
    ensures
        r == spec_auto_control(control),
{
    match control {
        CameraControlType::Exposure => Some(CameraControlType::AutoExposure),
        CameraControlType::Focus => Some(CameraControlType::AutoFocus),
        CameraControlType::WhiteBalance => Some(CameraControlType::AutoWhiteBalance),
        _ => None,
    }
}

/// The manual control that an automatic switch governs.
pub fn automatic_base(control: CameraControlType) -> (r: Option<CameraControlType>)
    ensures
        r == spec_automatic_base(control),
{
    match control {
        CameraControlType::AutoExposure => Some(CameraControlType::Exposure),
        CameraControlType::AutoFocus => Some(CameraControlType::Focus),
        CameraControlType::AutoWhiteBalance => Some(CameraControlType::WhiteBalance),
        _ => None,
    }
}

/// `auto_control` and `automatic_base` are inverse to each other.
pub proof fn lemma_auto_control_inverse(control: CameraControlType)
    ensures
        spec_auto_control(control) matches Some(a) ==> spec_automatic_base(a) == Some(control),
        spec_automatic_base(control) matches Some(b) ==> spec_auto_control(b) == Some(control),
{
}

/// Identifier of a device control.
#[derive(Clone, Copy, Debug, PartialEq, Eq, Structural, Hash)]
pub enum ControlId {
    ExposureMode,
    ExposureTime,
    ExposureCompensation,
    FocusMode,
    FocusPosition,
    WhiteBalanceMode,
    WhiteBalanceTemperature,
    Zoom,
    Brightness,
    Contrast,
    Hue,
    Saturation,
    Sharpness,
    Gamma,
    BacklightCompensation,
    Gain,
    Pan,
    Tilt,
    Iris,
}

/// Number of control identifiers.
pub const CONTROL_ID_COUNT: usize = 19;

/// Name of a control identifier, as its variant is written.
pub open spec fn spec_control_name(id: ControlId) -> Seq<char> {
    match id {
        ControlId::ExposureMode => "ExposureMode"@,
        ControlId::ExposureTime => "ExposureTime"@,
        ControlId::ExposureCompensation => "ExposureCompensation"@,
        ControlId::FocusMode => "FocusMode"@,
        ControlId::FocusPosition => "FocusPosition"@,
        ControlId::WhiteBalanceMode => "WhiteBalanceMode"@,
        ControlId::WhiteBalanceTemperature => "WhiteBalanceTemperature"@,
        ControlId::Zoom => "Zoom"@,
        ControlId::Brightness => "Brightness"@,
        ControlId::Contrast => "Contrast"@,
        ControlId::Hue => "Hue"@,
        ControlId::Saturation => "Saturation"@,
        ControlId::Sharpness => "Sharpness"@,
        ControlId::Gamma => "Gamma"@,
        ControlId::BacklightCompensation => "BacklightCompensation"@,
        ControlId::Gain => "Gain"@,
        ControlId::Pan => "Pan"@,
        ControlId::Tilt => "Tilt"@,
        ControlId::Iris => "Iris"@,
    }
}

/// The control identifier at a position of declaration order.
pub open spec fn spec_control_at(i: int) -> ControlId {
    if i == 0 {
        ControlId::ExposureMode
    } else if i == 1 {
        ControlId::ExposureTime
    } else if i == 2 {
        ControlId::ExposureCompensation
    } else if i == 3 {
        ControlId::FocusMode
    } else if i == 4 {
        ControlId::FocusPosition
    } else if i == 5 {
        ControlId::WhiteBalanceMode
    } else if i == 6 {
        ControlId::WhiteBalanceTemperature
    } else if i == 7 {
        ControlId::Zoom
    } else if i == 8 {
        ControlId::Brightness
    } else if i == 9 {
        ControlId::Contrast
    } else if i == 10 {
        ControlId::Hue
    } else if i == 11 {
        ControlId::Saturation
    } else if i == 12 {
        ControlId::Sharpness
    } else if i == 13 {
        ControlId::Gamma
    } else if i == 14 {
        ControlId::BacklightCompensation
    } else if i == 15 {
        ControlId::Gain
    } else if i == 16 {
        ControlId::Pan
    } else if i == 17 {
        ControlId::Tilt
    } else {
        ControlId::Iris
    }
}

impl ControlId {
    /// The variant's name.
    pub fn name(&self) -> (n: &'static str)
        ensures
            n@ == spec_control_name(*self),
    {
        match self {
            ControlId::ExposureMode => "ExposureMode",
            ControlId::ExposureTime => "ExposureTime",
            ControlId::ExposureCompensation => "ExposureCompensation",
            ControlId::FocusMode => "FocusMode",
            ControlId::FocusPosition => "FocusPosition",
            ControlId::WhiteBalanceMode => "WhiteBalanceMode",
            ControlId::WhiteBalanceTemperature => "WhiteBalanceTemperature",
            ControlId::Zoom => "Zoom",
            ControlId::Brightness => "Brightness",
            ControlId::Contrast => "Contrast",
            ControlId::Hue => "Hue",
            ControlId::Saturation => "Saturation",
            ControlId::Sharpness => "Sharpness",
            ControlId::Gamma => "Gamma",
            ControlId::BacklightCompensation => "BacklightCompensation",
            ControlId::Gain => "Gain",
            ControlId::Pan => "Pan",
            ControlId::Tilt => "Tilt",
            ControlId::Iris => "Iris",
        }
    }

    /// The identifier at a position of declaration order.
    pub fn at(i: usize) -> (id: ControlId)
        requires
            i < CONTROL_ID_COUNT,
        ensures
            id == spec_control_at(i as int),
    {
        match i {
            0 => ControlId::ExposureMode,
            1 => ControlId::ExposureTime,
            2 => ControlId::ExposureCompensation,
            3 => ControlId::FocusMode,
            4 => ControlId::FocusPosition,
            5 => ControlId::WhiteBalanceMode,
            6 => ControlId::WhiteBalanceTemperature,
            7 => ControlId::Zoom,
            8 => ControlId::Brightness,
            9 => ControlId::Contrast,
            10 => ControlId::Hue,
            11 => ControlId::Saturation,
            12 => ControlId::Sharpness,
            13 => ControlId::Gamma,
            14 => ControlId::BacklightCompensation,
            15 => ControlId::Gain,
            16 => ControlId::Pan,
            17 => ControlId::Tilt,
            _ => ControlId::Iris,
        }
    }
}

/// Every identifier sits at some position of declaration order.
pub proof fn lemma_control_at_covers(id: ControlId)
    ensures
        exists|i: int| 0 <= i < CONTROL_ID_COUNT && spec_control_at(i) == id,
{
    match id {
        ControlId::ExposureMode => assert(spec_control_at(0) == id),
        ControlId::ExposureTime => assert(spec_control_at(1) == id),
        ControlId::ExposureCompensation => assert(spec_control_at(2) == id),
        ControlId::FocusMode => assert(spec_control_at(3) == id),
        ControlId::FocusPosition => assert(spec_control_at(4) == id),
        ControlId::WhiteBalanceMode => assert(spec_control_at(5) == id),
        ControlId::WhiteBalanceTemperature => assert(spec_control_at(6) == id),
        ControlId::Zoom => assert(spec_control_at(7) == id),
        ControlId::Brightness => assert(spec_control_at(8) == id),
        ControlId::Contrast => assert(spec_control_at(9) == id),
        ControlId::Hue => assert(spec_control_at(10) == id),
        ControlId::Saturation => assert(spec_control_at(11) == id),
        ControlId::Sharpness => assert(spec_control_at(12) == id),
        ControlId::Gamma => assert(spec_control_at(13) == id),
        ControlId::BacklightCompensation => assert(spec_control_at(14) == id),
        ControlId::Gain => assert(spec_control_at(15) == id),
        ControlId::Pan => assert(spec_control_at(16) == id),
        ControlId::Tilt => assert(spec_control_at(17) == id),
        ControlId::Iris => assert(spec_control_at(18) == id),
    }
}

} // verus!
