//! Button model, colours and text forms.

use tiny_dfr::{
    abbreviate_profile, battery_color, battery_warning, find_battery_device, get_battery_state,
    normalize_time_option, notification_button_alias, now_playing_icon_color, slider_icon_color,
    usage_color, weather_icon_color, workspace_icon_color, BatteryIconMode, BatteryState, Button,
    ButtonImage, NotificationButton, SliderKind,
};
use tiny_dfr::button::{PowerProfile, PowerSupply, LONG_PRESS_TIMEOUT, POWER_PROFILE_TTL};
use tiny_dfr::command::Environment;
use tiny_dfr::input::{EV_KEY, EV_SYN};
use tiny_dfr::number::{Color, ONE};

fn rgb(c: Color) -> (f64, f64, f64) {
    (c.0 as f64 / 10_000.0, c.1 as f64 / 10_000.0, c.2 as f64 / 10_000.0)
}

fn usage(percent: f64) -> (f64, f64, f64) {
    rgb(usage_color(percent.ceil() as u64))
}

fn battery(percent: u32) -> (f64, f64, f64) {
    rgb(battery_color(percent))
}

fn weather(icon: &str) -> Option<(f64, f64, f64)> {
    weather_icon_color(icon).map(rgb)
}

fn slider(kind: SliderKind, percent: u32) -> Option<(f64, f64, f64)> {
    slider_icon_color(kind, percent).map(rgb)
}

fn plain_button(image: ButtonImage) -> Button {
    Button {
        image,
        changed: false,
        active: false,
        action: vec![],
        command: None,
        icon_width: 0,
        icon_height: 0,
        stacked: false,
        font_size: None,
        max_title_length: None,
        toggle_target: None,
        hold_started: None,
    }
}

fn environment() -> Environment {
    Environment {
        sudo_user: None,
        sudo_uid: None,
        wayland_display: None,
        xdg_runtime_dir: None,
        hyprland_instance_signature: None,
        xdg_runtime_dir_set: false,
        euid: 1000,
    }
}

#[test]
fn buttons_time_option_aliases_normalize() {
    assert_eq!(normalize_time_option("24h".to_string()), "24hr");
    assert_eq!(normalize_time_option("12h".to_string()), "12hr");
    assert_eq!(normalize_time_option("%H:%M".to_string()), "%H:%M");
}

#[test]
fn main_time_option_aliases_normalize() {
    assert_eq!(normalize_time_option("24h".to_string()), "24hr");
    assert_eq!(normalize_time_option("12h".to_string()), "12hr");
    assert_eq!(normalize_time_option("%H:%M".to_string()), "%H:%M");
}

#[test]
fn buttons_notification_aliases_map_to_buttons() {
    assert!(matches!(
        notification_button_alias("notifications"),
        Some(NotificationButton::Count)
    ));
    assert!(matches!(
        notification_button_alias("PreviousLayer"),
        Some(NotificationButton::Back)
    ));
    assert!(matches!(
        notification_button_alias("DnDNotification"),
        Some(NotificationButton::Dnd)
    ));
    assert!(notification_button_alias("nope").is_none());
}

#[test]
fn main_notification_aliases_map_to_buttons() {
    assert!(matches!(
        notification_button_alias("notifications"),
        Some(NotificationButton::Count)
    ));
    assert!(matches!(
        notification_button_alias("PreviousLayer"),
        Some(NotificationButton::Back)
    ));
    assert!(matches!(
        notification_button_alias("DnDNotification"),
        Some(NotificationButton::Dnd)
    ));
    assert!(notification_button_alias("nope").is_none());
}

#[test]
fn every_notification_alias_is_known() {
    assert_eq!(notification_button_alias("noticiations"), Some(NotificationButton::Count));
    assert_eq!(
        notification_button_alias("PreviousNotification"),
        Some(NotificationButton::Previous)
    );
    assert_eq!(notification_button_alias("NotificationContent"), Some(NotificationButton::Text));
    assert_eq!(notification_button_alias("NextNotification"), Some(NotificationButton::Next));
}

#[test]
fn buttons_usage_color_thresholds_match_configured_ranges() {
    assert_eq!(usage(10.0), (1.0, 1.0, 1.0));
    assert_eq!(usage(11.0), (1.0, 0.85, 0.0));
    assert_eq!(usage(25.0), (1.0, 0.85, 0.0));
    assert_eq!(usage(26.0), (1.0, 0.45, 0.0));
    assert_eq!(usage(55.0), (1.0, 0.45, 0.0));
    assert_eq!(usage(56.0), (0.55, 0.25, 1.0));
    assert_eq!(usage(75.0), (0.55, 0.25, 1.0));
    assert_eq!(usage(76.0), (1.0, 0.0, 0.0));
}

#[test]
fn main_usage_color_thresholds_match_configured_ranges() {
    assert_eq!(usage(10.0), (1.0, 1.0, 1.0));
    assert_eq!(usage(11.0), (1.0, 0.85, 0.0));
    assert_eq!(usage(25.0), (1.0, 0.85, 0.0));
    assert_eq!(usage(26.0), (1.0, 0.45, 0.0));
    assert_eq!(usage(55.0), (1.0, 0.45, 0.0));
    assert_eq!(usage(56.0), (0.55, 0.25, 1.0));
    assert_eq!(usage(75.0), (0.55, 0.25, 1.0));
    assert_eq!(usage(76.0), (1.0, 0.0, 0.0));
}

#[test]
fn buttons_battery_color_thresholds_match_configured_ranges() {
    assert_eq!(battery(10), (1.0, 0.0, 0.0));
    assert_eq!(battery(11), (0.55, 0.25, 1.0));
    assert_eq!(battery(25), (0.55, 0.25, 1.0));
    assert_eq!(battery(26), (1.0, 0.45, 0.0));
    assert_eq!(battery(50), (1.0, 0.45, 0.0));
    assert_eq!(battery(51), (0.0, 0.45, 1.0));
    assert_eq!(battery(75), (0.0, 0.45, 1.0));
    assert_eq!(battery(76), (0.0, 0.8, 0.0));
}

#[test]
fn main_battery_color_thresholds_match_configured_ranges() {
    assert_eq!(battery(10), (1.0, 0.0, 0.0));
    assert_eq!(battery(11), (0.55, 0.25, 1.0));
    assert_eq!(battery(25), (0.55, 0.25, 1.0));
    assert_eq!(battery(26), (1.0, 0.45, 0.0));
    assert_eq!(battery(50), (1.0, 0.45, 0.0));
    assert_eq!(battery(51), (0.0, 0.45, 1.0));
    assert_eq!(battery(75), (0.0, 0.45, 1.0));
    assert_eq!(battery(76), (0.0, 0.8, 0.0));
}

#[test]
fn battery_warning_requires_colorize_and_low_capacity() {
    assert!(battery_warning(10, BatteryState::NotCharging, true));
    assert!(!battery_warning(11, BatteryState::NotCharging, true));
    assert!(!battery_warning(10, BatteryState::NotCharging, false));
    assert!(!battery_warning(10, BatteryState::Charging, true));
}

#[test]
fn titlebar_and_workspace_icon_colors_require_colorize() {
    assert_eq!(now_playing_icon_color(true).map(rgb), Some((0.0, 0.8, 0.0)));
    assert_eq!(now_playing_icon_color(false).map(rgb), None);
    assert_eq!(workspace_icon_color(true).map(rgb), Some((0.55, 0.25, 1.0)));
    assert_eq!(workspace_icon_color(false).map(rgb), None);
}

#[test]
fn buttons_weather_colorizes_only_sun_moon_and_rain() {
    assert_eq!(weather("weather_sunny"), Some((1.0, 0.85, 0.0)));
    assert_eq!(weather("weather_moon"), Some((1.0, 0.85, 0.0)));
    assert_eq!(weather("weather_rainy"), None);
    assert_eq!(weather("weather_cloudy"), None);
}

#[test]
fn main_weather_colorizes_only_sun_moon_and_rain() {
    assert_eq!(weather("weather_sunny"), Some((1.0, 0.85, 0.0)));
    assert_eq!(weather("weather_moon"), Some((1.0, 0.85, 0.0)));
    assert_eq!(weather("weather_rainy"), None);
    assert_eq!(weather("weather_cloudy"), None);
}

#[test]
fn buttons_brightness_slider_icons_blend_from_white_to_orange() {
    assert_eq!(slider(SliderKind::DisplayBrightness, 0), Some((1.0, 1.0, 1.0)));
    let orange = slider(SliderKind::KeyboardBacklight, 100).unwrap();
    assert!((orange.0 - 1.0).abs() < f64::EPSILON);
    assert!((orange.1 - 0.45).abs() < 0.0001);
    assert!((orange.2 - 0.0).abs() < f64::EPSILON);
    assert_eq!(slider(SliderKind::Volume, 100), None);
}

#[test]
fn main_brightness_slider_icons_blend_from_white_to_orange() {
    assert_eq!(slider(SliderKind::DisplayBrightness, 0), Some((1.0, 1.0, 1.0)));
    let orange = slider(SliderKind::KeyboardBacklight, 100).unwrap();
    assert!((orange.0 - 1.0).abs() < f64::EPSILON);
    assert!((orange.1 - 0.45).abs() < 0.0001);
    assert!((orange.2 - 0.0).abs() < f64::EPSILON);
    assert_eq!(slider(SliderKind::Volume, 100), None);
}

#[test]
fn battery_icon_modes_say_what_is_drawn() {
    assert!(BatteryIconMode::Icon.should_draw_icon());
    assert!(!BatteryIconMode::Icon.should_draw_text());
    assert!(!BatteryIconMode::Percentage.should_draw_icon());
    assert!(BatteryIconMode::Percentage.should_draw_text());
    assert!(BatteryIconMode::Both.should_draw_icon());
    assert!(BatteryIconMode::Both.should_draw_text());
}

#[test]
fn battery_state_follows_status_and_charge() {
    let status = |s: &str| Some(s.to_string());
    assert_eq!(get_battery_state(&status("Charging\n"), Some(40)), (40, BatteryState::Charging));
    assert_eq!(get_battery_state(&status("Full"), Some(100)), (100, BatteryState::Charging));
    assert_eq!(get_battery_state(&status("Discharging"), Some(9)), (9, BatteryState::Low));
    assert_eq!(
        get_battery_state(&status("Discharging"), Some(10)),
        (10, BatteryState::NotCharging)
    );
    assert_eq!(get_battery_state(&None, None), (100, BatteryState::NotCharging));
}

#[test]
fn first_battery_with_a_name_is_found() {
    let supply = |name: Option<&str>, kind: Option<&str>| PowerSupply {
        name: name.map(str::to_string),
        kind: kind.map(str::to_string),
    };
    let v = vec![
        supply(Some("AC"), Some("Mains\n")),
        supply(None, Some("Battery\n")),
        supply(Some("BAT0"), Some("Battery\n")),
        supply(Some("BAT1"), Some("Battery\n")),
    ];
    assert_eq!(find_battery_device(&v), Some("BAT0".to_string()));
    assert_eq!(find_battery_device(&vec![supply(Some("AC"), None)]), None);
}

#[test]
fn power_profiles_are_shortened_and_kept_for_a_while() {
    assert_eq!(abbreviate_profile("power-saver\n"), "SAV");
    assert_eq!(abbreviate_profile("balanced"), "BAL");
    assert_eq!(abbreviate_profile("performance"), "PRF");
    assert_eq!(abbreviate_profile("quiet"), "QUI");
    assert_eq!(abbreviate_profile("ßx"), "SSX");

    let mut profile = PowerProfile::new();
    assert!(profile.fetch_due(0));
    assert_eq!(
        profile.get_power_profile(0, Some(b"balanced\n".to_vec())),
        Some("BAL".to_string())
    );
    assert!(!profile.fetch_due(POWER_PROFILE_TTL - 1));
    assert_eq!(profile.get_power_profile(POWER_PROFILE_TTL - 1, None), Some("BAL".to_string()));
    assert!(profile.fetch_due(POWER_PROFILE_TTL));
    assert_eq!(profile.get_power_profile(POWER_PROFILE_TTL, None), None);
    assert_eq!(profile.get_power_profile(2 * POWER_PROFILE_TTL, Some(vec![0xff])), None);
}

#[test]
fn pressing_sends_keys_and_runs_the_command_once() {
    let mut b = plain_button(ButtonImage::Text("a".to_string()));
    b.action = vec![30, 48];
    b.command = Some("true".to_string());
    let down = b.set_active(true, &environment());
    let sent: Vec<(u16, u16, i32)> =
        down.events.iter().map(|e| (e.kind, e.code, e.value)).collect();
    assert_eq!(sent, vec![(EV_KEY, 30, 1), (EV_KEY, 48, 1), (EV_SYN, 0, 0)]);
    assert!(down.command.is_some());
    assert!(b.active && b.changed);
    let again = b.set_active(true, &environment());
    assert!(again.events.is_empty() && again.command.is_none());
    let up = b.set_active(false, &environment());
    assert!(up.events.iter().all(|e| e.value == 0));
    assert!(up.command.is_none());
    assert!(!b.active);
}

#[test]
fn a_long_press_grows_until_it_is_complete() {
    let mut b = plain_button(ButtonImage::Notification(NotificationButton::Text, None, None));
    assert_eq!(b.hold_progress(0), None);
    b.start_hold(1_000);
    assert_eq!(b.hold_progress(1_000), Some(0));
    assert_eq!(b.hold_progress(1_000 + LONG_PRESS_TIMEOUT / 2), Some(ONE / 2));
    assert_eq!(b.hold_progress(1_000 + LONG_PRESS_TIMEOUT), Some(ONE));
    assert_eq!(b.hold_progress(1_000 + 2 * LONG_PRESS_TIMEOUT), Some(ONE));
    b.clear_hold();
    assert_eq!(b.hold_progress(2_000), None);

    let mut other = plain_button(ButtonImage::Notification(NotificationButton::Dnd, None, None));
    other.start_hold(0);
    assert_eq!(other.hold_progress(0), None);
}

#[test]
fn only_buttons_that_do_something_answer() {
    let mut b = plain_button(ButtonImage::Text("a".to_string()));
    assert!(!b.is_interactive());
    b.toggle_target = Some("Media".to_string());
    assert!(b.is_interactive());
    assert_eq!(b.layer_toggle_target(), Some("Media"));
    assert!(plain_button(ButtonImage::ActiveWindow(None, false)).is_interactive());
    assert!(!plain_button(ButtonImage::ActiveWorkspace(None, false)).is_interactive());
    assert!(!plain_button(ButtonImage::Spacer).is_visible(None, None));
}
