use thestickening::SCALE;
use thestickening::app_control::{
    AppControl, TrayEventKind, UiAction, UiMessage, WindowEventKind,
};
use thestickening::config::{AxisKind, ButtonAction, Config, GamepadButton, Joystick};
use thestickening::icon::icon_rgba;
use thestickening::timing::{period_micros_from_frequency, TickSchedule};

#[test]
fn default_config_matches_the_documented_values() {
    let c = Config::default();
    assert_eq!(
        c.button_mapping,
        vec![(0, ButtonAction::MouseLeft), (1, ButtonAction::MouseRight)]
    );
    assert_eq!(c.mouse_joystick, Joystick::Left);
    assert_eq!(c.mouse_sensitivity, 5 * SCALE);
    assert_eq!(c.aim_button, GamepadButton::LeftTrigger2);
    assert_eq!(c.aim_sensitivity_factor, 3 * SCALE);
    assert_eq!(c.joystick_deadzone, 5000);
    assert_eq!(c.frequency, 50 * SCALE);
}

#[test]
fn lookup_action_finds_mapped_codes_only() {
    let c = Config::default();
    assert_eq!(c.lookup_action(0), Some(ButtonAction::MouseLeft));
    assert_eq!(c.lookup_action(1), Some(ButtonAction::MouseRight));
    assert_eq!(c.lookup_action(2), None);
    assert_eq!(c.lookup_action(u32::MAX), None);
}

#[test]
fn joystick_axes() {
    assert_eq!(Joystick::Left.x_axis(), AxisKind::LeftStickX);
    assert_eq!(Joystick::Left.y_axis(), AxisKind::LeftStickY);
    assert_eq!(Joystick::Right.x_axis(), AxisKind::RightStickX);
    assert_eq!(Joystick::Right.y_axis(), AxisKind::RightStickY);
}

#[test]
fn fifty_hertz_ticks_every_twenty_milliseconds() {
    let period = period_micros_from_frequency(50 * SCALE);
    assert_eq!(period, 20000);
    let mut s = TickSchedule::new(period, 1000);
    assert_eq!(s.next_deadline_micros, 21000);
    // Deadlines stay exactly one period apart however late each tick ran.
    assert!(!s.should_tick(20999));
    assert!(s.should_tick(21000));
    s.advance();
    assert_eq!(s.next_deadline_micros, 41000);
    assert!(s.should_tick(53750)); // a very late wake-up
    s.advance();
    assert_eq!(s.next_deadline_micros, 61000); // no drift from the late tick
}

#[test]
fn odd_frequencies_floor_the_period() {
    // 60 Hz has no whole microsecond period; it floors to 16666 us.
    assert_eq!(period_micros_from_frequency(60 * SCALE), 16666);
    assert_eq!(period_micros_from_frequency(1 * SCALE), 1000000);
}

#[test]
fn shell_ticks_and_quits() {
    let mut a = AppControl::new();
    assert!(a.is_visible);
    assert_eq!(a.update(&UiMessage::Tick), UiAction::RunTick);
    assert!(a.is_visible);
    assert_eq!(a.update(&UiMessage::Quit), UiAction::Exit);
}

#[test]
fn closing_hides_and_a_tray_click_restores() {
    let mut a = AppControl::new();
    assert_eq!(
        a.update(&UiMessage::WindowEvent(WindowEventKind::CloseRequested)),
        UiAction::HideWindow
    );
    assert!(!a.is_visible);
    assert_eq!(a.update(&UiMessage::TrayEvent(TrayEventKind::Other)), UiAction::Nothing);
    assert!(!a.is_visible);
    assert_eq!(a.update(&UiMessage::TrayEvent(TrayEventKind::Click)), UiAction::ShowWindow);
    assert!(a.is_visible);
    // Clicking the tray while visible does nothing.
    assert_eq!(a.update(&UiMessage::TrayEvent(TrayEventKind::Click)), UiAction::Nothing);
    assert!(a.is_visible);
    assert_eq!(a.update(&UiMessage::WindowShown), UiAction::Nothing);
    assert_eq!(a.update(&UiMessage::WindowHidden), UiAction::Nothing);
    assert_eq!(a.update(&UiMessage::WindowEvent(WindowEventKind::Other)), UiAction::Nothing);
}

#[test]
fn icon_buffer_is_black_with_the_glyph_in_alpha() {
    let rgba = icon_rgba();
    assert_eq!(rgba.len(), 256);
    let b = 255u8;
    let alpha = vec![
        0u8, 0, 0, 0, 0, 0, 0, 0, //
        0, b, b, b, b, b, b, 0, //
        0, 0, 0, 0, b, 0, 0, 0, //
        0, 0, 0, 0, b, 0, 0, 0, //
        0, 0, b, 0, b, 0, 0, 0, //
        0, 0, b, 0, b, 0, 0, 0, //
        0, 0, 0, b, b, 0, 0, 0, //
        0, 0, 0, 0, 0, 0, 0, 0, //
    ];
    for i in 0..64 {
        assert_eq!(rgba[4 * i], 0);
        assert_eq!(rgba[4 * i + 1], 0);
        assert_eq!(rgba[4 * i + 2], 0);
        assert_eq!(rgba[4 * i + 3], alpha[i]);
    }
}
