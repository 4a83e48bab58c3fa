//! Configuration for the gamepad-to-mouse mapping.

use vstd::prelude::*;
use crate::SCALE;

verus! {

/// Largest allowed base sensitivity (fixed point): 10000 pixels per tick
/// at full deflection.
pub const MAX_BASE_SENSITIVITY: i64 = 10000000000;

/// Largest allowed aim sensitivity factor (fixed point): a 99-fold
/// speed-up.
pub const MAX_AIM_FACTOR: i64 = 99000000;

/// Largest allowed sampling frequency (fixed point micro-hertz).
pub const MAX_FREQUENCY: i64 = 1000000000000;

/// Which physical axis a raw event arrived on.
#[derive(Clone, Copy, Debug, PartialEq, Eq, Structural)]
pub enum AxisKind {
    LeftStickX,
    LeftStickY,
    LeftZ,
    RightStickX,
    RightStickY,
    RightZ,
    DPadX,
    DPadY,
    Unknown,
}

/// Represents available joysticks.
#[derive(Clone, Copy, Debug, PartialEq, Eq, Structural)]
pub enum Joystick {
    Left,
    Right,
}

impl Joystick {
    /// The vertical axis driven by this joystick.
    pub fn y_axis(&self) -> (r: AxisKind)
        ensures
            r == self.y_axis_spec(),
    {
        match self {
            Self::Left => AxisKind::LeftStickY,
            Self::Right => AxisKind::RightStickY,
        }
    }

    /// The horizontal axis driven by this joystick.
    pub fn x_axis(&self) -> (r: AxisKind)
        ensures
            r == self.x_axis_spec(),
    {
        match self {
            Self::Left => AxisKind::LeftStickX,
            Self::Right => AxisKind::RightStickX,
        }
    }

    pub open spec fn y_axis_spec(self) -> AxisKind {
        match self {
            Self::Left => AxisKind::LeftStickY,
            Self::Right => AxisKind::RightStickY,
        }
    }

    pub open spec fn x_axis_spec(self) -> AxisKind {
        match self {
            Self::Left => AxisKind::LeftStickX,
            Self::Right => AxisKind::RightStickX,
        }
    }
}

/// An enumerated shaping curve, selected by configuration.
#[derive(Clone, Copy, Debug, PartialEq, Eq, Structural)]
pub enum AccelerationProfile {
    Linear,
    SmoothStep,
    SmootherStep,
    EaseIn,
    EaseInOut,
    EaseOut,
    SinusoidalEasing,
    EaseInOutExpo,
}

/// Click or key intents that a raw button code can be bound to.
#[derive(Clone, Copy, Debug, PartialEq, Eq, Structural)]
pub enum ButtonAction {
    MouseLeft,
    MouseRight,
    MouseMiddle,
    LeftArrow,
    RightArrow,
    UpArrow,
    DownArrow,
}

/// Which physical button a raw event arrived on.
#[derive(Clone, Copy, Debug, PartialEq, Eq, Structural)]
pub enum GamepadButton {
    South,
    East,
    North,
    West,
    C,
    Z,
    LeftTrigger,
    LeftTrigger2,
    RightTrigger,
    RightTrigger2,
    Select,
    Start,
    Mode,
    LeftThumb,
    RightThumb,
    DPadUp,
    DPadDown,
    DPadLeft,
    DPadRight,
    Unknown,
}

/// The first action bound to `code` in the mapping, if any.
pub open spec fn mapping_lookup(m: Seq<(u32, ButtonAction)>, code: u32) -> Option<ButtonAction>
    decreases m.len(),
{
    if m.len() == 0 {
        None
    } else if m[0].0 == code {
        Some(m[0].1)
    } else {
        mapping_lookup(m.drop_first(), code)
    }
}

/// Configuration for gamepad to mouse mapping. Analog settings are fixed
/// point: SCALE micro-units stand for 1.0.
pub struct Config {
    /// Mapping between raw gamepad button codes and their actions.
    pub button_mapping: Vec<(u32, ButtonAction)>,
    /// Which joystick to use for mouse movement (left or right).
    pub mouse_joystick: Joystick,
    /// Default sensitivity for mouse movement.
    pub mouse_sensitivity: i64,
    /// Button mapped for accurate aiming mode.
    pub aim_button: GamepadButton,
    /// Sensitivity factor applied while aiming: at a fully pressed aim
    /// button the sensitivity is multiplied by this ratio, so values below
    /// 1.0 slow the cursor down and larger values speed it up.
    pub aim_sensitivity_factor: i64,
    /// Joystick deadzone for detecting movement.
    pub joystick_deadzone: i64,
    /// Smoothing profile of the z-axis / trigger family.
    pub zaxis_smoothing: AccelerationProfile,
    /// Smoothing profile of the left joystick.
    pub left_joystick_smoothing: AccelerationProfile,
    /// Smoothing profile of the right joystick.
    pub right_joystick_smoothing: AccelerationProfile,
    /// Sampling frequency in hertz (fixed point).
    pub frequency: i64,
}

impl Config {
    /// Well-formedness of the analog settings: sensitivity and frequency
    /// positive and bounded, the aim factor nonnegative and bounded, the
    /// deadzone below full deflection.
    pub open spec fn wf(&self) -> bool {
        &&& 0 < self.mouse_sensitivity <= MAX_BASE_SENSITIVITY
        &&& 0 <= self.aim_sensitivity_factor <= MAX_AIM_FACTOR
        &&& 0 <= self.joystick_deadzone < SCALE
        &&& 0 < self.frequency <= MAX_FREQUENCY
    }

    /// Looks a raw button code up in the action mapping.
    pub fn lookup_action(&self, code: u32) -> (r: Option<ButtonAction>)
        ensures
            r == mapping_lookup(self.button_mapping@, code),
    {
        let n = self.button_mapping.len();
        let mut i: usize = 0;
        proof {
            assert(self.button_mapping@.skip(0) =~= self.button_mapping@);
        }
        while i < n
            invariant
                0 <= i <= n,
                n == self.button_mapping@.len(),
                mapping_lookup(self.button_mapping@, code) == mapping_lookup(
                    self.button_mapping@.skip(i as int),
                    code,
                ),
            decreases n - i,
        {
            let entry = self.button_mapping[i];
            if entry.0 == code {
                assert(self.button_mapping@.skip(i as int)[0] == entry);
                return Some(entry.1);
            }
            proof {
                assert(self.button_mapping@.skip(i as int).drop_first() =~= self.button_mapping@.skip(
                    i as int + 1,
                ));
            }
            i = i + 1;
        }
        proof {
            assert(self.button_mapping@.skip(n as int).len() == 0);
        }
        None
    }
}

impl Default for Config {
    /// The default mapping: the first two button codes click, the left
    /// stick drives the cursor at sensitivity 5 with a small deadzone,
    /// sampled at 50 Hz, with smoother-step shaping everywhere and the
    /// left trigger as a 3-fold aim speed-up.
    fn default() -> (c: Config)
        ensures
            c.wf(),
            c.button_mapping@ =~= seq![
                (0u32, ButtonAction::MouseLeft),
                (1u32, ButtonAction::MouseRight),
            ],
            c.mouse_joystick == Joystick::Left,
            c.mouse_sensitivity == 5 * SCALE,
            c.aim_button == GamepadButton::LeftTrigger2,
            c.aim_sensitivity_factor == 3 * SCALE,
            c.joystick_deadzone == SCALE / 200,
            c.zaxis_smoothing == AccelerationProfile::SmootherStep,
            c.left_joystick_smoothing == AccelerationProfile::SmootherStep,
            c.right_joystick_smoothing == AccelerationProfile::SmootherStep,
            c.frequency == 50 * SCALE,
    {
        let mut button_mapping: Vec<(u32, ButtonAction)> = Vec::new();
        button_mapping.push((0, ButtonAction::MouseLeft));
        button_mapping.push((1, ButtonAction::MouseRight));
        Config {
            button_mapping,
            mouse_joystick: Joystick::Left,
            mouse_sensitivity: 5000000,
            aim_button: GamepadButton::LeftTrigger2,
            aim_sensitivity_factor: 3000000,
            joystick_deadzone: 5000,
            zaxis_smoothing: AccelerationProfile::SmootherStep,
            left_joystick_smoothing: AccelerationProfile::SmootherStep,
            right_joystick_smoothing: AccelerationProfile::SmootherStep,
            frequency: 50000000,
        }
    }
}

} // verus!
