//! Keys, the USB device, the window for trying things out, and the picture that is
//! left after a crash.

use tiny_dfr::command::Environment;
use tiny_dfr::construct::Hardware;
use tiny_dfr::crash::crash_picture;
use tiny_dfr::image::Images;
use tiny_dfr::input::{
    access_mode, after_failed_open, usb_recovery, OpenStep, Recovery, DRM_OPEN_ATTEMPTS,
};
use tiny_dfr::json::parse_json;
use tiny_dfr::keys::{array_or_single, print_keys, KeySpec};
use tiny_dfr::logging::{logging_enabled, set_logging_enabled, Logging};
use tiny_dfr::number::ONE;
use tiny_dfr::simulator::{
    blit, button_label, check_actions, layer_list, press_line, share_candidates, window_size,
    Pointer, Simulator,
};
use tiny_dfr::t2_usb::{
    is_t2_macbook, wait_for_display, DisplayStep, T2TouchBar, UsbDevice, UsbListing, UsbProblem,
    WaitStep,
};
use tiny_dfr::{ButtonConfig, FunctionLayer, NotificationManager};

fn some(s: &str) -> Option<String> {
    Some(s.to_string())
}

#[test]
fn keys_are_read_by_name() {
    let many = |v: Vec<&str>| KeySpec::Many(v.into_iter().map(str::to_string).collect());
    assert_eq!(array_or_single(KeySpec::One("A".to_string())), Ok(vec![30]));
    assert_eq!(array_or_single(KeySpec::One("DnD".to_string())), Ok(vec![]));
    assert_eq!(array_or_single(many(vec!["LeftCtrl", "C"])), Ok(vec![29, 46]));
    assert_eq!(array_or_single(many(vec!["A", "Nope"])), Err("Nope".to_string()));
    assert_eq!(print_keys(&vec![30, 464]), ["A", "Fn"]);
}

#[test]
fn json_is_read() {
    let v = parse_json(br#"{"a": [1, "x"], "b": -2}"#).unwrap();
    assert_eq!(v.get("a").unwrap().first().unwrap().as_u64(), Some(1));
    assert_eq!(v.get("a").unwrap().as_array().unwrap()[1].as_str(), Some("x"));
    assert_eq!(v.get("b").unwrap().as_u64(), None);
    assert!(v.get("c").is_none());
    assert!(parse_json(b"{").is_none());
}

#[test]
fn diagnostics_are_on_until_turned_off() {
    let mut logging = Logging::new();
    assert!(logging_enabled(&logging));
    set_logging_enabled(&mut logging, false);
    assert!(!logging_enabled(&logging));
}

#[test]
fn opening_the_display_is_tried_several_times() {
    assert_eq!(after_failed_open(1), OpenStep::Retry(2));
    assert_eq!(after_failed_open(DRM_OPEN_ATTEMPTS), OpenStep::GiveUp);
    assert_eq!(usb_recovery(&None, true), Recovery::Disabled);
    assert_eq!(usb_recovery(&some("no"), true), Recovery::Disabled);
    assert_eq!(usb_recovery(&some("yes"), false), Recovery::OtherMachine);
    assert_eq!(usb_recovery(&some("1"), true), Recovery::Reset);
    assert_eq!(access_mode(0), (true, false));
    assert_eq!(access_mode(1), (false, true));
    assert_eq!(access_mode(0o4002), (true, true));
}

fn device(path: &str, vendor: &str, product: &str) -> Option<UsbDevice> {
    Some(UsbDevice {
        path: path.to_string(),
        directory: true,
        vendor: some(vendor),
        product: some(product),
    })
}

#[test]
fn the_touch_bar_is_found_on_the_usb() {
    let listing = UsbListing::Devices(vec![
        device("/sys/a", "1d6b\n", "0002\n"),
        device("/sys/b", "05ac\n", "8302\n"),
    ]);
    let mut bar = T2TouchBar::new();
    assert_eq!(bar.reset(&some("1"), &some("2")), Err(UsbProblem::NotLookedFor));
    assert_eq!(bar.find_device(&UsbListing::Missing), Err(UsbProblem::NoListing));
    assert_eq!(bar.find_device(&UsbListing::Unreadable), Err(UsbProblem::Unreadable));
    assert_eq!(bar.find_device(&UsbListing::Devices(vec![])), Err(UsbProblem::NotFound));
    assert_eq!(
        bar.find_device(&UsbListing::Devices(vec![None])),
        Err(UsbProblem::Unreadable)
    );
    assert_eq!(bar.wait_for_enumeration(0, 30, &UsbListing::Missing), WaitStep::Sleep);
    assert_eq!(bar.wait_for_enumeration(30, 30, &listing), WaitStep::TimedOut);
    assert_eq!(bar.wait_for_enumeration(29, 30, &listing), WaitStep::Found);
    assert_eq!(bar.usb_device_path, "/sys/b");
    assert_eq!(bar.reset(&some("3\n"), &some("117\n")), Ok("/dev/bus/usb/003/117".to_string()));
    assert_eq!(bar.reset(&None, &some("1")), Err(UsbProblem::NoBus));
    assert_eq!(bar.reset(&some("256"), &some("1")), Err(UsbProblem::BadBus));
    assert_eq!(bar.reset(&some("1"), &None), Err(UsbProblem::NoDevice));
    assert_eq!(bar.reset(&some("1"), &some("x")), Err(UsbProblem::BadDevice));
}

#[test]
fn the_display_is_waited_for() {
    let names: Vec<String> = ["by-path", "card0"].iter().map(|s| s.to_string()).collect();
    assert_eq!(wait_for_display(0, &names), DisplayStep::Found(1));
    assert_eq!(wait_for_display(0, &vec![]), DisplayStep::Sleep);
    assert_eq!(wait_for_display(15, &names), DisplayStep::GiveUp);
    assert!(is_t2_macbook(&some("MacBookPro16,1\n"), false));
    assert!(!is_t2_macbook(&some("MacBookPro14,1"), false));
    assert!(is_t2_macbook(&None, true));
}

#[test]
fn a_crash_leaves_a_picture() {
    let out = crash_picture(&[0b0000_0001, 0xff], 100);
    assert_eq!(out.len(), 64);
    assert_eq!(&out[..8], &[0, 0, 0, 0, 0xff, 0xff, 0xff, 0xff]);
    assert!(out[32..].iter().all(|b| *b == 0));
    assert_eq!(crash_picture(&[0, 0], 11).len(), 8);
    assert_eq!(crash_picture(&[], 100).len(), 0);
}

fn layer(name: &str, cfg: Vec<ButtonConfig>) -> FunctionLayer {
    let hw = Hardware {
        battery: None,
        display: None,
        keyboard: None,
        volume: Some((0, false)),
        now: 0,
    };
    FunctionLayer::build(name.to_string(), cfg, &Images::new(), &hw).ok().unwrap()
}

fn key(t: &str, codes: Vec<u16>) -> ButtonConfig {
    ButtonConfig { text: Some(t.to_string()), action: codes, ..ButtonConfig::default() }
}

#[test]
fn the_window_has_the_size_that_is_asked_for() {
    assert_eq!(window_size(&None), ((1710, 50), false));
    assert_eq!(window_size(&some("800 x 40")), ((800, 40), false));
    assert_eq!(window_size(&some("800")), ((1710, 50), true));
    assert_eq!(window_size(&some("axb")), ((1710, 50), true));
    assert_eq!(window_size(&some("1x2x3")), ((1710, 50), true));
}

#[test]
fn files_are_looked_for_near_the_program() {
    assert_eq!(
        share_candidates(&some("/w"), "/b"),
        ["/w/share/tiny-dfr", "/b/share/tiny-dfr", "/usr/share/tiny-dfr"]
    );
    assert_eq!(share_candidates(&None, "/b").len(), 2);
}

#[test]
fn pictures_are_turned_upright() {
    // Two pixels wide and one high, lying on its side with four spare bytes a row.
    let data = [1u8, 2, 3, 9, 0, 0, 0, 0, 4, 5, 6, 9, 0, 0, 0, 0];
    assert_eq!(blit(&data, 8, 2, 1), vec![0x03_02_01, 0x06_05_04]);
    // One wide and two high: the last column comes first.
    assert_eq!(blit(&data[..8], 8, 1, 2), vec![0, 0x03_02_01]);
}

#[test]
fn layers_and_presses_are_described() {
    let layers = vec![layer("Main", vec![key("a", vec![30])]), layer("Media", vec![key("m", vec![])])];
    assert_eq!(layer_list(&layers), "[1] Main  [2] Media");
    assert_eq!(button_label(&layers[0].buttons[0].1), "[A]");
    assert_eq!(button_label(&layers[1].buttons[0].1), "(no action)");
    let mut b = layer("X", vec![key("x", vec![])]);
    b.buttons[0].1.command = some("ls");
    assert_eq!(button_label(&b.buttons[0].1), "command `ls`");
    assert_eq!(press_line("[A]", true), "press: [A]");
    assert_eq!(press_line("[A]", false), "press (preview): [A]");
    assert!(check_actions(&layers));
}

#[test]
fn the_mouse_takes_the_place_of_fingers() {
    let env = Environment {
        sudo_user: None,
        sudo_uid: None,
        wayland_display: None,
        xdg_runtime_dir: None,
        hyprland_instance_signature: None,
        xdg_runtime_dir_set: false,
        euid: 1000,
    };
    let open = ButtonConfig {
        text: some("o"),
        layer_toggle: some("Media"),
        ..ButtonConfig::default()
    };
    let slider = ButtonConfig {
        button: some("Slider"),
        option: some("volume"),
        ..ButtonConfig::default()
    };
    let layers = vec![
        layer("Main", vec![key("a", vec![30]), open]),
        layer("Media", vec![slider]),
        layer("FKeys", vec![key("F1", vec![59])]),
    ];
    let mgr = NotificationManager::with_count(0);
    let mut sim = Simulator::new(layers, "Main");
    assert_eq!(sim.active(false), 0);
    assert_eq!(sim.active(true), 2);
    sim.select(7);
    assert_eq!(sim.selected, 0);
    let at = |active: usize, x: i64| Pointer {
        active,
        width: 1000,
        height: 60,
        at: Some((x * ONE, 30 * ONE)),
    };
    let e = sim.mouse(&at(0, 100), true, 0, &mgr, &env);
    assert_eq!(e.label.as_deref(), Some("[A]"));
    assert_eq!(e.touch.press.events[0].value, 1);
    let e = sim.mouse(&at(0, 700), true, 1, &mgr, &env);
    assert!(e.touch.press.events.is_empty());
    let e = sim.mouse(&at(0, 700), false, 2, &mgr, &env);
    assert_eq!(e.touch.press.events[0].value, 0);
    assert_eq!(sim.selected, 0);

    sim.mouse(&at(0, 700), true, 3, &mgr, &env);
    sim.mouse(&at(0, 700), false, 4, &mgr, &env);
    assert_eq!(sim.selected, 1);

    let e = sim.mouse(&at(1, 500), true, 5, &mgr, &env);
    assert_eq!(e.label.as_deref(), Some("slider Volume"));
    assert!(e.touch.slider.is_some());
    let e = sim.mouse(&at(1, 600), true, 100_000_000, &mgr, &env);
    assert!(e.touch.slider.is_some() && e.label.is_none());
    let e = sim.mouse(&at(1, 600), false, 100_000_001, &mgr, &env);
    assert!(e.touch.slider.is_some());
    assert!(sim.held.is_none());
}
