//! The daemon as a whole: touches, keys, slides and drawing.

use tiny_dfr::clock::Moment;
use tiny_dfr::command::Environment;
use tiny_dfr::config::{expand_pullout, Config};
use tiny_dfr::construct::Hardware;
use tiny_dfr::content::Ambient;
use tiny_dfr::daemon::{
    Daemon, SliderReadings, Surroundings, DOUBLE_TAP_TIMEOUT, HOLD_REFRESH_MS, KEY_FN,
    NOTIFICATION_REFRESH_MS, SLIDER_REFRESH_MS, SLIDE_REFRESH_MS, TIMEOUT_MS,
};
use tiny_dfr::draw::ClipRect;
use tiny_dfr::image::Images;
use tiny_dfr::number::ONE;
use tiny_dfr::slider::SliderEffect;
use tiny_dfr::sysinfo_manager::SystemInfoManager;
use tiny_dfr::weather::WeatherManager;
use tiny_dfr::{
    BatteryState, ButtonConfig, ButtonContent, FunctionLayer, NotificationManager, PULLOUT_ANIM,
};

const WIDTH: u16 = 1000;
const HEIGHT: u16 = 60;
const MIDDLE: i64 = 30 * ONE;

fn hardware() -> Hardware {
    Hardware { battery: None, display: None, keyboard: None, volume: Some((0, false)), now: 0 }
}

fn config(double_press: u32) -> Config {
    Config {
        default_layer: "Main".to_string(),
        show_button_outlines: true,
        enable_pixel_shift: false,
        font_template: String::new(),
        font_size: 32 * ONE,
        adaptive_brightness: false,
        active_brightness: 100,
        double_press_switch_layers: double_press,
        drop_privileges: false,
        logging: true,
        weather_location: None,
        weather_fahrenheit: false,
    }
}

fn environment() -> Environment {
    Environment {
        sudo_user: None,
        sudo_uid: None,
        wayland_display: None,
        xdg_runtime_dir: None,
        hyprland_instance_signature: None,
        xdg_runtime_dir_set: false,
        euid: 1000,
    }
}

fn key(t: &str, code: u16) -> ButtonConfig {
    ButtonConfig { text: Some(t.to_string()), action: vec![code], ..ButtonConfig::default() }
}

fn named(b: &str) -> ButtonConfig {
    ButtonConfig { button: Some(b.to_string()), ..ButtonConfig::default() }
}

fn layer(name: &str, cfg: Vec<ButtonConfig>) -> FunctionLayer {
    FunctionLayer::build(name.to_string(), cfg, &Images::new(), &hardware()).ok().unwrap()
}

fn daemon(layers: Vec<FunctionLayer>) -> Daemon {
    Daemon::new(config(0), layers, WIDTH, HEIGHT, 10, 20, 0)
}

fn quiet() -> SliderReadings {
    SliderReadings { display: None, keyboard: None, volume: None }
}

fn none() -> NotificationManager {
    NotificationManager::with_count(0)
}

struct World {
    sys: SystemInfoManager,
    weather: WeatherManager,
    notes: NotificationManager,
    ambient: Ambient,
}

fn world() -> World {
    World {
        sys: SystemInfoManager::new(0),
        weather: WeatherManager::new(false, 0),
        notes: none(),
        ambient: Ambient {
            now: Moment { secs: 0, nanos: 0, offset: 0 },
            charge: (50, BatteryState::NotCharging),
            power_profile: None,
        },
    }
}

fn around(w: &World) -> Surroundings<'_> {
    Surroundings {
        sysinfo_mgr: &w.sys,
        weather_mgr: &w.weather,
        notification_mgr: &w.notes,
        ambient: &w.ambient,
        pixel_shift: (0, 0),
        pixel_shift_width: 40,
        now: 0,
    }
}

#[test]
fn a_tap_presses_and_releases_a_key() {
    let mut d = daemon(vec![layer("Main", vec![key("a", 30), key("b", 48)])]);
    let down = d.touch_down(3, 700 * ONE, MIDDLE, 0, &none(), &environment());
    assert_eq!(down.press.events[0].code, 48);
    assert_eq!(down.press.events[0].value, 1);
    assert!(d.layers[0].buttons[1].1.active);
    let up = d.touch_up(3, 1, &mut none(), &mut SystemInfoManager::new(0), &environment());
    assert_eq!(up.touch.press.events[0].value, 0);
    assert!(!d.layers[0].buttons[1].1.active);
    assert!(d.touches.is_empty());
    let again = d.touch_up(3, 2, &mut none(), &mut SystemInfoManager::new(0), &environment());
    assert!(again.touch.press.events.is_empty());
}

#[test]
fn a_finger_that_leaves_its_button_releases_it() {
    let mut d = daemon(vec![layer("Main", vec![key("a", 30), key("b", 48)])]);
    d.touch_down(0, 100 * ONE, MIDDLE, 0, &none(), &environment());
    let off = d.touch_motion(0, 700 * ONE, MIDDLE, 1, &none(), &environment());
    assert_eq!(off.press.events[0].value, 0);
    let on = d.touch_motion(0, 100 * ONE, MIDDLE, 2, &none(), &environment());
    assert_eq!(on.press.events[0].value, 1);
    let other = d.touch_motion(9, 100 * ONE, MIDDLE, 3, &none(), &environment());
    assert!(other.press.events.is_empty());
}

#[test]
fn two_taps_on_the_volume_slider_mute_it() {
    let slider = ButtonConfig { option: Some("volume".to_string()), ..named("Slider") };
    let mut d = daemon(vec![layer("Main", vec![slider])]);
    let e = d.touch_down(0, 500 * ONE, MIDDLE, 0, &none(), &environment());
    assert!(matches!(e.slider, Some(SliderEffect::Run { line }) if line.ends_with(" 50%")));
    d.touch_up(0, 10, &mut none(), &mut SystemInfoManager::new(0), &environment());
    let e = d.touch_down(
        0,
        500 * ONE,
        MIDDLE,
        DOUBLE_TAP_TIMEOUT - 1,
        &none(),
        &environment(),
    );
    assert!(matches!(e.slider, Some(SliderEffect::Run { line }) if line.ends_with("toggle")));
    assert_eq!(d.last_volume_tap, None);
}

#[test]
fn a_drag_is_no_tap() {
    let slider = ButtonConfig { option: Some("volume".to_string()), ..named("Slider") };
    let mut d = daemon(vec![layer("Main", vec![slider])]);
    d.touch_down(0, 500 * ONE, MIDDLE, 0, &none(), &environment());
    assert_eq!(d.last_volume_tap, Some(0));
    let e = d.touch_motion(0, 750 * ONE, MIDDLE, 100_000_000, &none(), &environment());
    assert!(matches!(e.slider, Some(SliderEffect::Run { line }) if line.ends_with(" 75%")));
    assert_eq!(d.last_volume_tap, None);
}

#[test]
fn the_fn_key_brings_up_the_function_keys() {
    let mut d = daemon(vec![layer("Main", vec![key("a", 30)]), layer("FKeys", vec![key("F1", 59)])]);
    assert_eq!(d.active_layer, 0);
    d.key_event(KEY_FN, true, 1);
    assert_eq!(d.active_layer, 1);
    d.key_event(KEY_FN, false, 2);
    assert_eq!(d.active_layer, 0);
    d.key_event(30, true, 3);
    assert_eq!(d.active_layer, 0);
}

#[test]
fn two_presses_of_the_fn_key_swap_two_layers() {
    let layers = vec![layer("Main", vec![key("a", 30)]), layer("Other", vec![key("b", 48)])];
    let mut d = Daemon::new(config(200), layers, WIDTH, HEIGHT, 0, 0, 0);
    d.key_event(KEY_FN, true, 1_000_000_000);
    assert_eq!(d.layers[0].name, "Main");
    d.key_event(KEY_FN, true, 1_199_999_999);
    assert_eq!(d.layers[0].name, "Other");
    d.key_event(KEY_FN, true, 1_399_999_999);
    assert_eq!(d.layers[0].name, "Other");
}

fn with_panel() -> Daemon {
    let keys = vec![
        key("title", 30),
        ButtonConfig {
            button: Some("pullout".to_string()),
            option: Some("1".to_string()),
            children: Some(vec![key("x", 31), key("y", 32)]),
            ..ButtonConfig::default()
        },
    ];
    let (collapsed, pullout) = expand_pullout("Main", keys);
    let p = pullout.unwrap();
    let mut panel = layer(&p.name, p.keys);
    panel.set_overlay(p.parent, p.coverage);
    daemon(vec![layer("Main", collapsed), panel])
}

#[test]
fn a_panel_slides_in_and_out() {
    let mut d = with_panel();
    let mut sys = SystemInfoManager::new(0);
    // The toggle stands in the middle of three buttons.
    d.touch_down(0, 500 * ONE, MIDDLE, 0, &none(), &environment());
    assert!(d.can_lift(0));
    d.touch_up(0, 0, &mut none(), &mut sys, &environment());
    assert_eq!(d.active_layer, 1);
    assert!(d.pullout_anim.is_some());
    assert_eq!(d.layers[1].overlay_reveal, 0);
    assert_eq!(d.layers[1].overlay_slide_start_x, Some(338 * ONE as i128));
    // Fingers do not count during the slide.
    let e = d.touch_down(1, 100 * ONE, MIDDLE, 1, &none(), &environment());
    assert!(e.press.events.is_empty() && d.touches.is_empty());
    assert!(d.can_slide());
    let t = d.tick(0, 0, (false, 0), false, PULLOUT_ANIM / 2, &quiet());
    assert_eq!(t, SLIDE_REFRESH_MS);
    assert_eq!(d.layers[1].overlay_reveal, ONE / 2);
    let t = d.tick(0, 0, (false, 0), false, PULLOUT_ANIM, &quiet());
    assert_eq!(t, TIMEOUT_MS);
    assert!(d.pullout_anim.is_none());
    assert_eq!(d.normal_layer, 1);

    let w = world();
    let f = d.frame(&around(&w)).unwrap();
    let drawn: Vec<usize> = f.layers.iter().map(|l| l.layer).collect();
    assert_eq!(drawn, [0, 1]);
    assert_eq!(f.clips, vec![ClipRect { x1: 0, y1: 0, x2: HEIGHT, y2: WIDTH }]);

    // Beside the panel a finger reaches the layer under it.
    let e = d.touch_down(0, 100 * ONE, MIDDLE, PULLOUT_ANIM, &none(), &environment());
    assert_eq!(e.press.events[0].code, 30);
    d.touch_up(0, PULLOUT_ANIM, &mut none(), &mut sys, &environment());

    d.touch_down(0, 345 * ONE, MIDDLE, PULLOUT_ANIM, &none(), &environment());
    d.touch_up(0, PULLOUT_ANIM, &mut none(), &mut sys, &environment());
    assert_eq!(d.active_layer, 1);
    d.tick(0, 0, (false, 0), false, 2 * PULLOUT_ANIM, &quiet());
    assert_eq!((d.active_layer, d.normal_layer), (0, 0));
}

#[test]
fn notifications_lead_back_and_are_dismissed_by_a_long_press() {
    let open = ButtonConfig {
        text: Some("n".to_string()),
        layer_toggle: Some("Notes".to_string()),
        ..ButtonConfig::default()
    };
    let notes = vec![named("PreviousLayer"), named("NotificationContent"), named("DnDNotification")];
    let mut d = daemon(vec![layer("Main", vec![open]), layer("Notes", notes)]);
    let mut mgr = NotificationManager::with_actions(&["Reply"]);
    let mut sys = SystemInfoManager::new(0);
    d.touch_down(0, 500 * ONE, MIDDLE, 0, &mgr, &environment());
    d.touch_up(0, 1, &mut mgr, &mut sys, &environment());
    assert_eq!(d.active_layer, 1);
    assert!(d.shows_notifications());

    let content = |d: &Daemon, mgr: &NotificationManager| {
        let spans = d.layers[1].button_spans(Some(mgr));
        ((spans[1].0 + spans[1].1) / 2) as i64
    };
    let unit = (WIDTH as i64 - 3 * 16) * ONE / (d.layers[1].virtual_button_count / ONE);
    let x = content(&d, &mgr) / ONE * (unit / ONE) * ONE + 20 * ONE;
    d.touch_down(0, x, MIDDLE, 100, &mgr, &environment());
    let t = d.tick(0, 0, (false, 0), false, 150, &quiet());
    assert_eq!(t, HOLD_REFRESH_MS);
    let e = d.touch_up(0, 100 + 600_000_000, &mut mgr, &mut sys, &environment());
    assert_eq!(e.makoctl.unwrap(), vec!["dismiss", "-n", "1"]);
    assert!(e.reload);

    d.touch_down(0, x, MIDDLE, 1_000_000_000, &mgr, &environment());
    let e = d.touch_up(0, 1_100_000_000, &mut mgr, &mut sys, &environment());
    assert_eq!(e.makoctl.unwrap(), vec!["invoke", "-n", "1"]);
    assert!(!e.reload);

    d.touch_down(0, 10 * ONE, MIDDLE, 2_000_000_000, &mgr, &environment());
    d.touch_up(0, 2_000_000_001, &mut mgr, &mut sys, &environment());
    assert_eq!((d.active_layer, d.normal_layer), (0, 0));
}

#[test]
fn a_toggle_to_a_missing_layer_is_reported() {
    let open = ButtonConfig {
        text: Some("n".to_string()),
        layer_toggle: Some("Gone".to_string()),
        ..ButtonConfig::default()
    };
    let mut d = daemon(vec![layer("Main", vec![open])]);
    d.touch_down(0, 500 * ONE, MIDDLE, 0, &none(), &environment());
    let e = d.touch_up(0, 1, &mut none(), &mut SystemInfoManager::new(0), &environment());
    assert_eq!(e.missing_layer.as_deref(), Some("Gone"));
    assert_eq!(d.active_layer, 0);
}

#[test]
fn the_next_look_depends_on_what_is_on_show() {
    let slider = ButtonConfig { option: Some("volume".to_string()), ..named("Slider") };
    let mut d = daemon(vec![layer("Main", vec![slider])]);
    assert_eq!(d.tick(0, 0, (false, 5), false, 0, &quiet()), SLIDER_REFRESH_MS);
    let mut d = daemon(vec![layer("Main", vec![named("NotificationContent")])]);
    assert_eq!(d.tick(0, 0, (false, 5), false, 0, &quiet()), NOTIFICATION_REFRESH_MS);
    let mut d = daemon(vec![layer("Main", vec![key("a", 30)])]);
    assert_eq!(d.tick(0, 0, (false, 5), false, 0, &quiet()), TIMEOUT_MS);
    assert_eq!(d.tick(57, 0, (false, 5), false, 0, &quiet()), 3_000);
}

#[test]
fn only_what_changed_is_drawn_again() {
    let mut d = daemon(vec![layer("Main", vec![key("a", 30), key("b", 48)])]);
    let w = world();
    let f = d.frame(&around(&w)).unwrap();
    assert!(f.complete);
    assert_eq!(f.layers[0].plan.items.len(), 2);
    assert!(d.frame(&around(&w)).is_none());
    d.touch_down(0, 700 * ONE, MIDDLE, 0, &none(), &environment());
    let f = d.frame(&around(&w)).unwrap();
    assert!(!f.complete);
    assert_eq!(f.layers[0].plan.items.len(), 1);
    let item = &f.layers[0].plan.items[0];
    assert_eq!(item.button, Some(1));
    assert_eq!(item.left, 508 * ONE as i128);
    assert_eq!(item.width, 492);
    assert_eq!(item.color, (4_000, 4_000, 4_000));
    assert!(matches!(&item.content, Some(ButtonContent::SimpleText(t)) if t == "b"));
    assert_eq!(f.clips, vec![ClipRect { x1: 1, y1: 508, x2: 59, y2: 1000 }]);
}

#[test]
fn the_time_is_drawn_when_its_minute_changes() {
    let time = ButtonConfig { option: Some("%H:%M".to_string()), ..named("Time") };
    let mut d = daemon(vec![layer("Main", vec![time])]);
    let w = world();
    d.frame(&around(&w));
    d.tick(11, 20, (false, 5), false, 0, &quiet());
    assert!(d.frame(&around(&w)).is_none());
    d.tick(0, 21, (false, 5), false, 0, &quiet());
    assert!(d.frame(&around(&w)).is_some());
}

#[test]
fn a_new_configuration_starts_over_with_its_layer() {
    let mut d = daemon(vec![layer("Main", vec![key("a", 30)]), layer("FKeys", vec![key("F1", 59)])]);
    d.key_event(KEY_FN, true, 1);
    d.reload(config(0), vec![layer("X", vec![key("x", 31)]), layer("Main", vec![key("m", 32)])]);
    assert_eq!((d.active_layer, d.normal_layer), (1, 1));
    assert!(d.needs_complete_redraw);
}

#[test]
fn the_title_bar_switches_while_music_plays() {
    let mut images = Images::new();
    let c = named("ActiveWindow");
    for request in tiny_dfr::construct::image_requests(&c, &hardware()) {
        images.add_entry(request, tiny_dfr::image::Loaded::Svg(1));
    }
    let l = FunctionLayer::build("Main".to_string(), vec![c], &images, &hardware()).ok().unwrap();
    let mut d = daemon(vec![l]);
    let mut sys = SystemInfoManager::new(0);
    sys.info.update_desktop_info("Window".to_string(), String::new(), true, 0);
    sys.info.update_now_playing("Song".to_string(), 0);
    assert_eq!(sys.info.titlebar_text(), "Song");
    d.touch_down(0, 500 * ONE, MIDDLE, 0, &none(), &environment());
    d.touch_up(0, 1, &mut none(), &mut sys, &environment());
    assert_eq!(sys.info.titlebar_text(), "Window");
}

#[test]
fn the_picture_may_be_shifted_by_any_distance() {
    let left_with = |shift: i64| {
        let w = world();
        let mut d = daemon(vec![layer("Main", vec![key("a", 30)])]);
        d.cfg.enable_pixel_shift = true;
        assert!(d.can_draw(&w.notes));
        let f = d.frame(&Surroundings { pixel_shift: (shift, 0), ..around(&w) }).unwrap();
        f.layers[0].plan.items[0].left
    };
    assert_eq!(left_with(i64::MAX) - left_with(0), i64::MAX as i128);
    assert_eq!(left_with(i64::MIN) - left_with(0), i64::MIN as i128);
}
