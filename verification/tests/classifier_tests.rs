use thestickening::SCALE;
use thestickening::config::{
    AccelerationProfile, AxisKind, ButtonAction, Config, GamepadButton, Joystick,
};
use thestickening::gamepad::{
    ClassifyError, ClickEdge, ClickRequest, GamepadEvent, GamepadHandler,
};

fn test_config() -> Config {
    let mut c = Config::default();
    c.left_joystick_smoothing = AccelerationProfile::Linear;
    c.right_joystick_smoothing = AccelerationProfile::Linear;
    c.zaxis_smoothing = AccelerationProfile::Linear;
    c.mouse_sensitivity = 5000000;
    c.joystick_deadzone = 5000;
    c
}

#[test]
fn axis_event_on_the_mouse_joystick_moves_the_cursor() {
    let mut h = GamepadHandler::new(test_config());
    let events = vec![GamepadEvent::AxisChanged(AxisKind::LeftStickX, 500000)];
    let mut clicks = Vec::new();
    let motion = h.process_frame(&events, &mut clicks).unwrap();
    // 0.5 through the linear profile at sensitivity 5 moves two pixels.
    assert_eq!(motion, Some((2, 0)));
    assert!(clicks.is_empty());
}

#[test]
fn axis_events_on_the_other_joystick_are_ignored() {
    let mut h = GamepadHandler::new(test_config());
    let events = vec![GamepadEvent::AxisChanged(AxisKind::RightStickX, 900000)];
    let mut clicks = Vec::new();
    let motion = h.process_frame(&events, &mut clicks).unwrap();
    assert_eq!(motion, None);
    assert_eq!(h.mouse_input.movement_vector, [0, 0]);
}

#[test]
fn last_axis_value_wins_and_one_motion_per_tick() {
    let mut h = GamepadHandler::new(test_config());
    let events = vec![
        GamepadEvent::AxisChanged(AxisKind::LeftStickX, 900000),
        GamepadEvent::AxisChanged(AxisKind::LeftStickX, 250000),
        GamepadEvent::AxisChanged(AxisKind::LeftStickX, 600000),
    ];
    let mut clicks = Vec::new();
    let motion = h.process_frame(&events, &mut clicks).unwrap();
    // The vector holds the last value only: 0.6 at sensitivity 5 is three
    // pixels, reported in a single delta.
    assert_eq!(h.mouse_input.movement_vector[0], 600000);
    assert_eq!(motion, Some((3, 0)));
}

#[test]
fn unmapped_codes_produce_no_clicks() {
    let mut h = GamepadHandler::new(test_config());
    let events = vec![
        GamepadEvent::ButtonPressed(GamepadButton::South, 99),
        GamepadEvent::ButtonReleased(GamepadButton::South, 99),
        GamepadEvent::ButtonPressed(GamepadButton::North, 123456),
    ];
    let mut clicks = Vec::new();
    h.process_frame(&events, &mut clicks).unwrap();
    assert!(clicks.is_empty());
}

#[test]
fn mapped_codes_produce_press_and_release_clicks() {
    let mut h = GamepadHandler::new(test_config());
    let events = vec![
        GamepadEvent::ButtonPressed(GamepadButton::South, 0),
        GamepadEvent::ButtonReleased(GamepadButton::South, 0),
        GamepadEvent::ButtonPressed(GamepadButton::East, 1),
    ];
    let mut clicks = Vec::new();
    h.process_frame(&events, &mut clicks).unwrap();
    assert_eq!(
        clicks,
        vec![
            ClickRequest { action: ButtonAction::MouseLeft, edge: ClickEdge::Press },
            ClickRequest { action: ButtonAction::MouseLeft, edge: ClickEdge::Release },
            ClickRequest { action: ButtonAction::MouseRight, edge: ClickEdge::Press },
        ]
    );
}

#[test]
fn non_mouse_actions_are_ignored() {
    let mut c = test_config();
    c.button_mapping.push((5, ButtonAction::LeftArrow));
    let mut h = GamepadHandler::new(c);
    let events = vec![GamepadEvent::ButtonPressed(GamepadButton::DPadLeft, 5)];
    let mut clicks = Vec::new();
    h.process_frame(&events, &mut clicks).unwrap();
    assert!(clicks.is_empty());
}

#[test]
fn aim_modulation_scales_the_sensitivity() {
    let mut c = test_config();
    c.aim_sensitivity_factor = 500000; // slow down to one half while aiming
    let mut h = GamepadHandler::new(c);
    assert_eq!(h.mouse_input.sensitivity_factor, 5000000);
    let mut clicks = Vec::new();
    // At rest the base sensitivity stays.
    let events = vec![GamepadEvent::ButtonChanged(GamepadButton::LeftTrigger2, 0)];
    h.process_frame(&events, &mut clicks).unwrap();
    assert_eq!(h.mouse_input.sensitivity_factor, 5000000);
    // Fully pressed, the sensitivity halves: 5.0 becomes 2.5.
    let events = vec![GamepadEvent::ButtonChanged(GamepadButton::LeftTrigger2, SCALE)];
    h.process_frame(&events, &mut clicks).unwrap();
    assert_eq!(h.mouse_input.sensitivity_factor, 2500000);
}

#[test]
fn aim_modulation_can_speed_up() {
    let mut c = test_config();
    c.aim_sensitivity_factor = 3000000; // three-fold speed-up
    let mut h = GamepadHandler::new(c);
    let mut clicks = Vec::new();
    let events = vec![GamepadEvent::ButtonChanged(GamepadButton::LeftTrigger2, SCALE)];
    h.process_frame(&events, &mut clicks).unwrap();
    assert_eq!(h.mouse_input.sensitivity_factor, 15000000);
}

#[test]
fn other_buttons_do_not_modulate_sensitivity() {
    let mut h = GamepadHandler::new(test_config());
    let mut clicks = Vec::new();
    let events = vec![GamepadEvent::ButtonChanged(GamepadButton::RightTrigger2, SCALE)];
    h.process_frame(&events, &mut clicks).unwrap();
    assert_eq!(h.mouse_input.sensitivity_factor, 5000000);
}

#[test]
fn axis_without_profile_aborts_the_tick() {
    let mut h = GamepadHandler::new(test_config());
    let events = vec![
        GamepadEvent::ButtonPressed(GamepadButton::South, 0),
        GamepadEvent::AxisChanged(AxisKind::DPadX, 100),
        GamepadEvent::ButtonPressed(GamepadButton::East, 1),
    ];
    let mut clicks = Vec::new();
    let r = h.process_frame(&events, &mut clicks);
    assert_eq!(r, Err(ClassifyError::NoAxisProfile));
    // The events before the malformed one were applied, the rest dropped.
    assert_eq!(
        clicks,
        vec![ClickRequest { action: ButtonAction::MouseLeft, edge: ClickEdge::Press }]
    );
}

#[test]
fn later_ticks_survive_a_malformed_event() {
    let mut h = GamepadHandler::new(test_config());
    let mut clicks = Vec::new();
    let bad = vec![GamepadEvent::AxisChanged(AxisKind::Unknown, 100)];
    assert!(h.process_frame(&bad, &mut clicks).is_err());
    let good = vec![GamepadEvent::AxisChanged(AxisKind::LeftStickX, 500000)];
    let motion = h.process_frame(&good, &mut clicks).unwrap();
    assert_eq!(motion, Some((2, 0)));
}

#[test]
fn unknown_event_kinds_are_ignored() {
    let mut h = GamepadHandler::new(test_config());
    let mut clicks = Vec::new();
    let events = vec![GamepadEvent::Other, GamepadEvent::Other];
    let motion = h.process_frame(&events, &mut clicks).unwrap();
    assert_eq!(motion, None);
    assert!(clicks.is_empty());
}

#[test]
fn axis_profiles_follow_the_configuration() {
    let mut c = test_config();
    c.left_joystick_smoothing = AccelerationProfile::SmoothStep;
    c.right_joystick_smoothing = AccelerationProfile::EaseIn;
    c.zaxis_smoothing = AccelerationProfile::EaseOut;
    let h = GamepadHandler::new(c);
    assert_eq!(h.axis_profile(&AxisKind::LeftStickX), Ok(AccelerationProfile::SmoothStep));
    assert_eq!(h.axis_profile(&AxisKind::LeftStickY), Ok(AccelerationProfile::SmoothStep));
    assert_eq!(h.axis_profile(&AxisKind::RightStickY), Ok(AccelerationProfile::EaseIn));
    assert_eq!(h.axis_profile(&AxisKind::LeftZ), Ok(AccelerationProfile::EaseOut));
    assert_eq!(h.axis_profile(&AxisKind::RightZ), Ok(AccelerationProfile::EaseOut));
    assert_eq!(h.axis_profile(&AxisKind::DPadX), Err(ClassifyError::NoAxisProfile));
    assert_eq!(h.axis_profile(&AxisKind::Unknown), Err(ClassifyError::NoAxisProfile));
}

#[test]
fn button_profiles_follow_the_aim_button() {
    let mut c = test_config();
    c.zaxis_smoothing = AccelerationProfile::SmootherStep;
    let h = GamepadHandler::new(c);
    assert_eq!(
        h.button_profile(&GamepadButton::LeftTrigger2),
        Ok(AccelerationProfile::SmootherStep)
    );
    assert_eq!(h.button_profile(&GamepadButton::South), Ok(AccelerationProfile::Linear));
}

#[test]
fn smoothing_routes_through_the_axis_profile() {
    let mut c = test_config();
    c.left_joystick_smoothing = AccelerationProfile::EaseIn;
    let h = GamepadHandler::new(c);
    assert_eq!(h.smooth_axis_event_value(&AxisKind::LeftStickX, 500000), Ok(250000));
    assert_eq!(
        h.smooth_axis_event_value(&AxisKind::DPadY, 500000),
        Err(ClassifyError::NoAxisProfile)
    );
    assert_eq!(h.smooth_button_event_value(&GamepadButton::South, 700000), Ok(700000));
}

#[test]
fn right_joystick_can_drive_the_cursor() {
    let mut c = test_config();
    c.mouse_joystick = Joystick::Right;
    let mut h = GamepadHandler::new(c);
    let mut clicks = Vec::new();
    let events = vec![
        GamepadEvent::AxisChanged(AxisKind::LeftStickX, 900000),
        GamepadEvent::AxisChanged(AxisKind::RightStickY, 600000),
    ];
    let motion = h.process_frame(&events, &mut clicks).unwrap();
    assert_eq!(h.mouse_input.movement_vector, [0, 600000]);
    assert_eq!(motion, Some((0, -3)));
}
