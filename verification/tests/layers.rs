//! Layout of layers, touches and the slide of pullout panels.

use tiny_dfr::{
    begin_layer_switch, layer_index, two_mut, Button, ButtonConfig, ButtonImage, FunctionLayer,
    LayoutItemKind, NotificationButton, NotificationManager, PulloutAnim, BUTTON_SPACING_PX,
};
use tiny_dfr::construct::Hardware;
use tiny_dfr::image::Images;
use tiny_dfr::layer::PULLOUT_ANIM;
use tiny_dfr::number::ONE;

const KEY_A: u16 = 30;

fn one(x: f64) -> i64 {
    (x * 1e9).round() as i64
}

fn plain(x: impl Into<i128>) -> f64 {
    x.into() as f64 / 1e9
}

fn hardware() -> Hardware {
    Hardware { battery: None, display: None, keyboard: None, volume: None, now: 0 }
}

fn layer(name: &str, cfg: Vec<ButtonConfig>) -> FunctionLayer {
    FunctionLayer::with_config(name.to_string(), cfg, &Images::new(), &hardware())
}

fn test_button(image: ButtonImage) -> Button {
    Button {
        image,
        changed: false,
        active: false,
        action: vec![],
        command: None,
        icon_width: 0,
        icon_height: 0,
        stacked: false,
        font_size: None,
        max_title_length: None,
        toggle_target: None,
        hold_started: None,
    }
}

fn bare_layer(name: &str, buttons: Vec<(f64, Button)>, count: f64) -> FunctionLayer {
    FunctionLayer {
        name: name.to_string(),
        displays_time: false,
        displays_battery: false,
        displays_sysinfo: false,
        displays_slider: false,
        displays_weather: false,
        displays_notifications: false,
        buttons: buttons.into_iter().map(|(at, b)| (one(at), b)).collect(),
        virtual_button_count: one(count),
        faster_refresh: false,
        overlay_parent: None,
        overlay_coverage: 0,
        overlay_reveal: ONE,
        overlay_slide_start_x: None,
    }
}

fn notification_layer() -> FunctionLayer {
    let button = |kind| test_button(ButtonImage::Notification(kind, None, None));
    let mut l = bare_layer(
        "Notifications",
        vec![
            (0.0, button(NotificationButton::Previous)),
            (1.0, button(NotificationButton::Text)),
            (9.0, button(NotificationButton::Next)),
            (10.0, button(NotificationButton::Dnd)),
        ],
        11.0,
    );
    l.displays_notifications = true;
    l
}

fn spans(l: &FunctionLayer, mgr: Option<&NotificationManager>) -> Vec<(f64, f64)> {
    l.button_spans(mgr).iter().map(|(a, b)| (plain(*a), plain(*b))).collect()
}

#[test]
fn pullout_panel_hits_child_buttons() {
    let child = |t: &str| ButtonConfig {
        text: Some(t.to_string()),
        action: vec![KEY_A],
        ..ButtonConfig::default()
    };
    let toggle = ButtonConfig {
        button: Some("pullout_toggle".to_string()),
        text: Some(">".to_string()),
        layer_toggle: Some("SystemInfo".to_string()),
        ..ButtonConfig::default()
    };
    let mut panel = layer(
        "SystemInfo__pullout",
        vec![toggle, child("cpu"), child("mem"), child("bat"), child("time")],
    );
    panel.set_overlay("SystemInfo".to_string(), one(0.66));

    let (width, height) = (1000u16, 60u16);
    let origin_x = plain(panel.overlay_origin(width));
    let y = height as f64 * 0.5;

    let mid_toggle = origin_x + 1.0;
    assert_eq!(
        panel.hit(width, height, one(mid_toggle), one(y), None, None),
        Some(0),
        "\">\" toggle should be hittable"
    );

    let spans = spans(&panel, None);
    let visible = panel.buttons.len();
    let total_spacing = BUTTON_SPACING_PX as f64 * (visible - 1) as f64;
    let vbw = (width as f64 - origin_x - total_spacing) / plain(panel.virtual_button_count);
    for (i, (start, end)) in spans.iter().enumerate() {
        let left = start * vbw + i as f64 * BUTTON_SPACING_PX as f64 + origin_x;
        let right = left + (end - start) * vbw;
        let cx = (left + right) / 2.0;
        assert_eq!(
            panel.hit(width, height, one(cx), one(y), None, None),
            Some(i),
            "child button {i} at x={cx} should hit"
        );
    }
}

#[test]
fn pullout_slide_reveals_over_its_duration() {
    let start = 5_000_000_000;
    let expand = PulloutAnim { panel: 1, parent: 0, collapsing: false, start };
    assert!(plain(expand.reveal_at(start)).abs() < 1e-9, "expand starts hidden");
    assert!(
        (plain(expand.reveal_at(start + PULLOUT_ANIM)) - 1.0).abs() < 1e-9,
        "expand ends fully revealed"
    );
    assert!(!expand.done(start));
    assert!(expand.done(start + PULLOUT_ANIM));

    let collapse = PulloutAnim { collapsing: true, start, ..expand };
    assert!(
        (plain(collapse.reveal_at(start)) - 1.0).abs() < 1e-9,
        "collapse starts fully revealed"
    );
    assert!(
        plain(collapse.reveal_at(start + PULLOUT_ANIM)).abs() < 1e-9,
        "collapse ends hidden"
    );
    assert_eq!(expand.reveal_at(start + PULLOUT_ANIM / 4), ONE / 4);
}

#[test]
fn begin_layer_switch_animates_only_pullout_transitions() {
    let btn = |t: &str| ButtonConfig {
        text: Some(t.to_string()),
        action: vec![KEY_A],
        ..ButtonConfig::default()
    };
    let parent = layer("SystemInfo", vec![btn("a")]);
    let mut panel = layer("SystemInfo__pullout", vec![btn(">"), btn("cpu")]);
    panel.set_overlay("SystemInfo".to_string(), one(0.66));
    let plain = layer("Media", vec![btn("m")]);
    let layers = vec![parent, panel, plain];
    let now = 7;

    let (active, anim) = begin_layer_switch(&layers, 0, 1, now);
    assert_eq!(active, 1);
    let a = anim.expect("expand should animate");
    assert!(!a.collapsing);
    assert_eq!((a.panel, a.parent), (1, 0));

    let (active, anim) = begin_layer_switch(&layers, 1, 0, now);
    assert_eq!(active, 1);
    let a = anim.expect("collapse should animate");
    assert!(a.collapsing);
    assert_eq!((a.panel, a.parent), (1, 0));

    let (active, anim) = begin_layer_switch(&layers, 0, 2, now);
    assert_eq!(active, 2);
    assert!(anim.is_none());
}

#[test]
fn layers_notification_nav_space_goes_to_content_until_multiple_notifications() {
    let layer = notification_layer();

    let empty = NotificationManager::with_count(0);
    assert_eq!(
        spans(&layer, Some(&empty)),
        vec![(0.0, 0.0), (0.0, 10.0), (10.0, 10.0), (10.0, 11.0)]
    );

    let one = NotificationManager::with_count(1);
    assert_eq!(
        spans(&layer, Some(&one)),
        vec![(0.0, 0.0), (0.0, 10.0), (10.0, 10.0), (10.0, 11.0)]
    );

    let two = NotificationManager::with_count(2);
    assert_eq!(
        spans(&layer, Some(&two)),
        vec![(0.0, 1.0), (1.0, 9.0), (9.0, 10.0), (10.0, 11.0)]
    );
}

#[test]
fn main_notification_nav_space_goes_to_content_until_multiple_notifications() {
    let layer = notification_layer();

    let empty = NotificationManager::with_count(0);
    assert_eq!(
        spans(&layer, Some(&empty)),
        vec![(0.0, 0.0), (0.0, 10.0), (10.0, 10.0), (10.0, 11.0)]
    );

    let one = NotificationManager::with_count(1);
    assert_eq!(
        spans(&layer, Some(&one)),
        vec![(0.0, 0.0), (0.0, 10.0), (10.0, 10.0), (10.0, 11.0)]
    );

    let two = NotificationManager::with_count(2);
    assert_eq!(
        spans(&layer, Some(&two)),
        vec![(0.0, 1.0), (1.0, 9.0), (9.0, 10.0), (10.0, 11.0)]
    );
}

#[test]
fn notification_actions_shrink_content_by_two_each() {
    let layer = notification_layer();
    let mgr = NotificationManager::with_actions(&["Reply", "Archive"]);

    assert_eq!(
        spans(&layer, Some(&mgr)),
        vec![
            (0.0, 0.0),
            (0.0, 6.0),
            (6.0, 8.0),
            (8.0, 10.0),
            (10.0, 10.0),
            (10.0, 11.0)
        ]
    );
}

fn fractional_layer() -> FunctionLayer {
    bare_layer(
        "Fractional",
        vec![
            (0.0, test_button(ButtonImage::Text("a".to_string()))),
            (0.5, test_button(ButtonImage::Text("b".to_string()))),
            (2.0, test_button(ButtonImage::Text("c".to_string()))),
        ],
        3.0,
    )
}

#[test]
fn layers_fractional_stretch_is_preserved_in_layer_spans() {
    assert_eq!(spans(&fractional_layer(), None), vec![(0.0, 0.5), (0.5, 2.0), (2.0, 3.0)]);
}

#[test]
fn main_fractional_stretch_is_preserved_in_layer_spans() {
    assert_eq!(spans(&fractional_layer(), None), vec![(0.0, 0.5), (0.5, 2.0), (2.0, 3.0)]);
}

#[test]
fn active_window_button_is_hittable_for_toggle() {
    let mut layer = bare_layer(
        "Titlebar",
        vec![(0.0, test_button(ButtonImage::ActiveWindow(None, false)))],
        1.0,
    );
    layer.displays_sysinfo = true;

    assert_eq!(layer.hit(100, 30, one(50.0), one(15.0), None, None), Some(0));
}

#[test]
fn touches_outside_the_middle_of_the_bar_miss() {
    let layer = bare_layer(
        "Titlebar",
        vec![(0.0, test_button(ButtonImage::ActiveWindow(None, false)))],
        1.0,
    );
    assert_eq!(layer.hit(100, 30, one(50.0), one(2.9), None, None), None);
    assert_eq!(layer.hit(100, 30, one(50.0), one(3.0), None, None), Some(0));
    assert_eq!(layer.hit(100, 30, one(50.0), one(27.0), None, None), Some(0));
    assert_eq!(layer.hit(100, 30, one(50.0), one(27.1), None, None), None);
}

#[test]
fn a_press_keeps_its_button_only_while_it_stays_on_it() {
    let mut layer = fractional_layer();
    for (_, b) in &mut layer.buttons {
        b.action = vec![KEY_A];
    }
    // 332 px are left for three units between two gaps of 16 px.
    assert_eq!(layer.hit(364, 30, one(10.0), one(15.0), None, None), Some(0));
    assert_eq!(layer.hit(364, 30, one(100.0), one(15.0), None, None), Some(1));
    assert_eq!(layer.hit(364, 30, one(300.0), one(15.0), None, None), Some(2));
    assert_eq!(layer.hit(364, 30, one(100.0), one(15.0), Some(1), None), Some(1));
    assert_eq!(layer.hit(364, 30, one(100.0), one(15.0), Some(0), None), None);
}

#[test]
fn actions_of_a_notification_can_be_touched() {
    let layer = notification_layer();
    let mgr = NotificationManager::with_actions(&["Reply", "Archive"]);
    let kinds: Vec<LayoutItemKind> =
        layer.layout_items(Some(&mgr)).iter().map(|item| item.kind).collect();
    assert_eq!(
        kinds,
        vec![
            LayoutItemKind::Button(0),
            LayoutItemKind::Button(1),
            LayoutItemKind::NotificationAction(0),
            LayoutItemKind::NotificationAction(1),
            LayoutItemKind::Button(2),
            LayoutItemKind::Button(3),
        ]
    );
    // 1100 px for eleven units, and three gaps of 16 px between four places.
    assert_eq!(layer.hit(1148, 30, one(700.0), one(15.0), None, Some(&mgr)), Some(4));
    assert_eq!(layer.hit(1148, 30, one(900.0), one(15.0), None, Some(&mgr)), Some(5));
    assert_eq!(layer.hit(1148, 30, one(300.0), one(15.0), None, Some(&mgr)), Some(1));
}

#[test]
fn a_resting_touch_keeps_the_action_it_hit() {
    let layer = notification_layer();
    let mgr = NotificationManager::with_actions(&["Reply", "Archive"]);
    for x in [700.0, 900.0] {
        let hit = layer.hit(1148, 30, one(x), one(15.0), None, Some(&mgr));
        assert!(hit.unwrap() >= layer.buttons.len());
        assert_eq!(layer.hit(1148, 30, one(x), one(15.0), hit, Some(&mgr)), hit);
    }
}

#[test]
fn a_notification_may_offer_any_number_of_actions() {
    let layer = notification_layer();
    let labels = vec!["Reply"; 10_001];
    let mgr = NotificationManager::with_actions(&labels);
    let spans = spans(&layer, Some(&mgr));
    assert_eq!(spans.len(), 4 + 10_001);
    assert_eq!(spans[1], (0.0, 0.5));
    assert_eq!(spans[2], (0.5, 2.5));
    assert_eq!(spans[10_002], (20_000.5, 20_002.5));
    assert!(layer.places_fit(Some(&mgr)));
    // The gaps leave no room on the bar.
    assert_eq!(layer.hit(1148, 30, one(700.0), one(15.0), None, Some(&mgr)), None);
    assert_eq!(layer.hit(1148, 30, one(700.0), one(15.0), Some(2), Some(&mgr)), None);
}

#[test]
fn layers_may_be_very_wide() {
    let wide = |t: &str| ButtonConfig {
        text: Some(t.to_string()),
        action: vec![KEY_A],
        stretch: Some(6_000 * ONE),
        ..ButtonConfig::default()
    };
    let l = layer("Wide", vec![wide("a"), wide("b")]);
    assert_eq!(l.virtual_button_count, 12_000 * ONE);
    assert_eq!(spans(&l, None), vec![(0.0, 6_000.0), (6_000.0, 12_000.0)]);
    assert_eq!(l.hit(1016, 30, one(499.0), one(15.0), None, None), Some(0));
    assert_eq!(l.hit(1016, 30, one(517.0), one(15.0), None, None), Some(1));
    assert_eq!(l.button_left_edge(1016, 1, None), Some(516_000_000_000));
    assert_eq!(l.slider_fraction(1016, 1, one(766.0)), ONE / 2);
}

#[test]
fn the_widest_layer_is_laid_out_to_the_pixel() {
    let half = i64::MAX / 2;
    let wide = |t: &str| ButtonConfig {
        text: Some(t.to_string()),
        action: vec![KEY_A],
        stretch: Some(half),
        ..ButtonConfig::default()
    };
    let l = layer("Widest", vec![wide("a"), wide("b")]);
    assert_eq!(l.virtual_button_count, i64::MAX - 1);
    assert_eq!(l.button_left_edge(1016, 1, None), Some(516_000_000_000));
    assert_eq!(l.hit(1016, 30, one(900.0), one(15.0), None, None), Some(1));
}

#[test]
fn touches_beside_a_panel_miss_it() {
    let mut panel = fractional_layer();
    for (_, b) in &mut panel.buttons {
        b.action = vec![KEY_A];
    }
    panel.set_overlay("Base".to_string(), one(0.5));
    assert!(panel.is_overlay());
    assert_eq!(panel.overlay_origin(1000), one(500.0));
    assert_eq!(panel.hit(1000, 30, one(499.0), one(15.0), None, None), None);
    assert_eq!(panel.hit(1000, 30, one(501.0), one(15.0), None, None), Some(0));
    assert_eq!(panel.button_left_edge(1000, 0, None), Some(500_000_000_000));
    assert_eq!(panel.button_left_edge(1000, 3, None), None);
}

#[test]
fn sliders_follow_the_finger_along_their_width() {
    let layer = bare_layer("S", vec![(0.0, test_button(ButtonImage::Spacer))], 1.0);
    assert_eq!(layer.slider_fraction(1000, 0, one(0.0)), 0);
    assert_eq!(layer.slider_fraction(1000, 0, one(250.0)), ONE / 4);
    assert_eq!(layer.slider_fraction(1000, 0, one(2000.0)), ONE);
    assert_eq!(layer.slider_fraction(1000, 0, one(-5.0)), 0);
}

#[test]
fn layers_are_found_by_their_first_name() {
    let layers = vec![
        bare_layer("A", vec![], 1.0),
        bare_layer("B", vec![], 1.0),
        bare_layer("B", vec![], 2.0),
    ];
    assert_eq!(layer_index(&layers, "B"), Some(1));
    assert_eq!(layer_index(&layers, "C"), None);
}

#[test]
fn two_elements_can_be_changed_at_once() {
    let mut v = vec![1, 2, 3];
    {
        let (a, b) = two_mut(&mut v, 2, 0);
        *a += 10;
        *b += 20;
    }
    assert_eq!(v, vec![21, 2, 13]);
}
