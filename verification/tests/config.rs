//! Configuration files, pullouts and the layers that are built from them.

use tiny_dfr::config::{
    assemble, collect_child_layers, config_paths, default_cfg_path, expand_pullout, is_complete,
    user_config_path, ConfigManager, ConfigProxy, LayerMap, WatchStep, DEFAULT_FONT_SIZE,
};
use tiny_dfr::construct::{button_kind, image_requests, Backlight, BuildProblem, ButtonKind, Hardware};
use tiny_dfr::image::{icon_paths, image_format, ImageFormat, ImageRequest, Images, Loaded};
use tiny_dfr::load::{load_config, LayerProblem, LoadProblem};
use tiny_dfr::logging::{logging_enabled, Logging};
use tiny_dfr::number::ONE;
use tiny_dfr::warnings::config_warnings;
use tiny_dfr::{layer_index, Button, ButtonConfig, ButtonImage, FunctionLayer};

fn text(t: &str) -> ButtonConfig {
    ButtonConfig { text: Some(t.to_string()), ..ButtonConfig::default() }
}

fn named(b: &str) -> ButtonConfig {
    ButtonConfig { button: Some(b.to_string()), ..ButtonConfig::default() }
}

fn hardware() -> Hardware {
    Hardware { battery: None, display: None, keyboard: None, volume: None, now: 0 }
}

fn empty_file() -> ConfigProxy {
    ConfigProxy {
        default_layer: None,
        show_button_outlines: None,
        enable_pixel_shift: None,
        font_template: None,
        font_size: None,
        adaptive_brightness: None,
        active_brightness: None,
        double_press_switch_layers: None,
        drop_privileges: None,
        logging: None,
        weather_location: None,
        weather_units: None,
        primary_layer_keys: None,
        system_info_layer_keys: None,
        media_layer_keys: None,
        layers: None,
    }
}

fn full_file() -> ConfigProxy {
    ConfigProxy {
        show_button_outlines: Some(true),
        enable_pixel_shift: Some(false),
        font_template: Some(":bold".to_string()),
        adaptive_brightness: Some(true),
        active_brightness: Some(128),
        double_press_switch_layers: Some(0),
        primary_layer_keys: Some(vec![text("F1")]),
        media_layer_keys: Some(vec![text("Mute")]),
        ..empty_file()
    }
}

#[test]
fn children_inherit_parent_colorize() {
    let parent = ButtonConfig {
        layer_toggle: Some("Child".to_string()),
        colorize: true,
        children: Some(vec![ButtonConfig {
            button: Some("Weather".to_string()),
            ..ButtonConfig::default()
        }]),
        ..ButtonConfig::default()
    };
    let mut layers = Vec::new();

    collect_child_layers(&[parent], &mut layers);

    assert_eq!(layers.len(), 1);
    assert_eq!(layers[0].0, "Child");
    assert!(layers[0].1[0].colorize);
}

#[test]
fn pullout_child_layer_toggle_target_is_collected() {
    let sub_toggle = ButtonConfig {
        text: Some("open".to_string()),
        layer_toggle: Some("SubLayer".to_string()),
        children: Some(vec![ButtonConfig {
            text: Some("inner".to_string()),
            ..ButtonConfig::default()
        }]),
        ..ButtonConfig::default()
    };
    let keys = vec![
        ButtonConfig { text: Some("title".to_string()), ..ButtonConfig::default() },
        ButtonConfig {
            button: Some("pullout".to_string()),
            children: Some(vec![sub_toggle]),
            ..ButtonConfig::default()
        },
    ];

    let mut child_layers = Vec::new();
    collect_child_layers(&keys, &mut child_layers);
    let (_collapsed, _pullout) = expand_pullout("SystemInfo", keys);

    assert!(
        child_layers.iter().any(|(name, _)| name == "SubLayer"),
        "pullout child's LayerToggle target 'SubLayer' was never collected, \
         so pressing it does nothing"
    );
}

#[test]
fn pullout_splits_into_collapsed_and_expanded() {
    let keys = vec![
        text("esc"),
        text("title"),
        ButtonConfig {
            button: Some("pullout".to_string()),
            option: Some("2".to_string()),
            children: Some(vec![text("weather"), text("cpu"), text("battery"), text("date")]),
            ..ButtonConfig::default()
        },
    ];

    let (collapsed, pullout) = expand_pullout("SystemInfo", keys);
    let p = pullout.unwrap();

    let labels: Vec<_> = collapsed.iter().map(|b| b.text.clone().unwrap()).collect();
    assert_eq!(labels, ["esc", "title", "<", "battery", "date"]);
    assert_eq!(collapsed[2].layer_toggle.as_deref(), Some("SystemInfo__pullout"));

    assert_eq!(p.name, "SystemInfo__pullout");
    assert_eq!(p.parent, "SystemInfo");
    let labels: Vec<_> = p.keys.iter().map(|b| b.text.clone().unwrap()).collect();
    assert_eq!(labels, [">", "weather", "cpu", "battery", "date"]);
    assert_eq!(p.keys[0].layer_toggle.as_deref(), Some("SystemInfo"));
}

#[test]
fn pullout_coverage_is_kept_within_bounds() {
    let coverage = |stretch: Option<i64>| {
        let keys = vec![ButtonConfig {
            button: Some("Pullout".to_string()),
            stretch,
            children: Some(vec![text("a"), text("b"), text("c")]),
            ..ButtonConfig::default()
        }];
        expand_pullout("L", keys).1.unwrap().coverage
    };
    assert_eq!(coverage(None), 660_000_000);
    assert_eq!(coverage(Some(100_000_000)), 250_000_000);
    assert_eq!(coverage(Some(500_000_000)), 500_000_000);
    assert_eq!(coverage(Some(ONE)), 950_000_000);
}

#[test]
fn layers_without_a_pullout_stay_as_they_are() {
    let (keys, pullout) = expand_pullout("L", vec![text("a"), text("b")]);
    assert_eq!(keys.len(), 2);
    assert!(pullout.is_none());
}

#[test]
fn an_incomplete_configuration_is_refused() {
    assert!(!is_complete(&empty_file()));
    assert!(is_complete(&full_file()));
    let loaded = load_config(empty_file(), &Images::new(), &hardware(), &mut Logging::new());
    assert!(matches!(loaded, Err(LoadProblem::Incomplete)));
}

#[test]
fn a_later_file_overrides_what_it_sets() {
    let mut base = full_file();
    base.font_size = Some(20 * ONE);
    base.merge(ConfigProxy {
        active_brightness: Some(200),
        default_layer: Some("FKeys".to_string()),
        ..empty_file()
    });
    assert_eq!(base.active_brightness, Some(200));
    assert_eq!(base.font_size, Some(20 * ONE));
    assert_eq!(base.default_layer.as_deref(), Some("FKeys"));
}

#[test]
fn a_configuration_becomes_layers_and_settings() {
    let mut base = full_file();
    let mut extra = LayerMap::new();
    extra.insert("Zoom".to_string(), vec![text("z")]);
    extra.insert("Apps".to_string(), vec![text("a")]);
    base.layers = Some(extra);
    base.weather_units = Some("Imperial".to_string());
    let (cfg, layers) = load_config(base, &Images::new(), &hardware(), &mut Logging::new()).ok().unwrap();
    let names: Vec<&str> = layers.iter().map(|l| l.name.as_str()).collect();
    assert!(names.contains(&"FKeys"));
    assert!(names.contains(&"Media"));
    assert!(names.contains(&"SystemInfo"));
    let apps = names.iter().position(|n| *n == "Apps").unwrap();
    let zoom = names.iter().position(|n| *n == "Zoom").unwrap();
    assert!(apps < zoom);
    assert!(cfg.weather_fahrenheit);
    assert!(cfg.drop_privileges);
    assert_eq!(cfg.font_size, DEFAULT_FONT_SIZE);
    assert!(layer_index(&layers, &cfg.default_layer).is_some());
}

#[test]
fn a_pullout_becomes_a_panel_over_its_layer() {
    let mut base = full_file();
    base.system_info_layer_keys = Some(vec![
        text("title"),
        ButtonConfig {
            button: Some("pullout".to_string()),
            children: Some(vec![text("a"), text("b")]),
            ..ButtonConfig::default()
        },
    ]);
    let (_, plans) = assemble(base);
    let panel = plans.iter().find(|p| p.name == "SystemInfo__pullout").unwrap();
    let overlay = panel.overlay.as_ref().unwrap();
    assert_eq!(overlay.0, "SystemInfo");
    assert_eq!(overlay.1, 660_000_000);
}

#[test]
fn every_load_applies_the_logging_setting() {
    let mut logging = Logging::new();
    let mut base = full_file();
    base.logging = Some(true);
    base.merge(ConfigProxy { logging: Some(false), ..empty_file() });
    let (cfg, _) = load_config(base, &Images::new(), &hardware(), &mut logging).ok().unwrap();
    assert!(!cfg.logging);
    assert!(!logging_enabled(&logging));
    let (cfg, _) =
        load_config(full_file(), &Images::new(), &hardware(), &mut logging).ok().unwrap();
    assert!(cfg.logging);
    assert!(logging_enabled(&logging));
    let broken = ConfigProxy { logging: Some(false), ..empty_file() };
    assert!(load_config(broken, &Images::new(), &hardware(), &mut logging).is_err());
    assert!(!logging_enabled(&logging));
}

#[test]
fn layers_that_cannot_be_built_are_reported() {
    let mut base = full_file();
    base.primary_layer_keys = Some(vec![]);
    assert!(matches!(
        load_config(base, &Images::new(), &hardware(), &mut Logging::new()),
        Err(LoadProblem::Layer(_, LayerProblem::Empty))
    ));

    let mut base = full_file();
    base.primary_layer_keys = Some(vec![
        text("a"),
        ButtonConfig { icon: Some("missing".to_string()), ..ButtonConfig::default() },
    ]);
    assert!(matches!(
        load_config(base, &Images::new(), &hardware(), &mut Logging::new()),
        Err(LoadProblem::Layer(_, LayerProblem::Button(1, BuildProblem::Icon)))
    ));

    let mut base = full_file();
    base.primary_layer_keys =
        Some(vec![ButtonConfig { stretch: Some(i64::MAX), ..text("wide") }, text("more")]);
    assert!(matches!(
        load_config(base, &Images::new(), &hardware(), &mut Logging::new()),
        Err(LoadProblem::Layer(_, LayerProblem::TooWide))
    ));
}

#[test]
fn buttons_that_cannot_be_built_say_why() {
    let problem = |c: ButtonConfig, hw: &Hardware| {
        Button::build(c, &Images::new(), hw).err()
    };
    let time = ButtonConfig { option: Some("%Q".to_string()), ..named("Time") };
    assert_eq!(problem(time, &hardware()), Some(BuildProblem::TimeFormat));

    let with_battery = Hardware { battery: Some("BAT0".to_string()), ..hardware() };
    assert_eq!(problem(named("Battery"), &with_battery), Some(BuildProblem::BatteryIcon));
    assert_eq!(problem(named("Battery"), &hardware()), None);
    assert_eq!(problem(named("ActiveWindow"), &hardware()), Some(BuildProblem::PlayIcon));
}

fn every_image(c: &ButtonConfig, hw: &Hardware) -> Images {
    let mut images = Images::new();
    for (i, request) in image_requests(c, hw).into_iter().enumerate() {
        images.add_entry(request, Loaded::Svg(i as u32));
    }
    images
}

#[test]
fn a_battery_needs_an_option_that_is_known() {
    let hw = Hardware { battery: Some("BAT0".to_string()), ..hardware() };
    let c = ButtonConfig { option: Some("fancy".to_string()), ..named("Battery") };
    let images = every_image(&c, &hw);
    assert_eq!(Button::build(c, &images, &hw).err(), Some(BuildProblem::BatteryMode));
    let c = ButtonConfig { option: Some("both".to_string()), ..named("Battery") };
    let b = Button::build(c, &images, &hw).ok().unwrap();
    assert!(matches!(b.image, ButtonImage::Battery(_, _, _, _)));
}

#[test]
fn descriptions_stand_for_kinds_of_buttons() {
    assert_eq!(button_kind(&text("a")), ButtonKind::Text);
    assert_eq!(button_kind(&ButtonConfig::default()), ButtonKind::Spacer);
    let slider = ButtonConfig { option: Some("volume".to_string()), ..named("Slider") };
    let b = Button::build(slider, &Images::new(), &hardware()).ok().unwrap();
    assert!(b.slider_kind().is_some());
}

#[test]
fn a_brightness_slider_starts_at_what_was_read() {
    let hw = Hardware {
        display: Some(Backlight {
            path: "/sys/class/backlight/x".to_string(),
            max_brightness: Some("200\n".to_string()),
            brightness: Some("50\n".to_string()),
        }),
        ..hardware()
    };
    let c = ButtonConfig { option: Some("brightness".to_string()), ..named("Slider") };
    let b = Button::build(c, &Images::new(), &hw).ok().unwrap();
    match b.image {
        ButtonImage::Slider { state, .. } => assert_eq!(state.value(), ONE / 4),
        _ => panic!("no slider"),
    }
}

#[test]
fn layers_place_buttons_by_their_stretch() {
    let wide = ButtonConfig { stretch: Some(3 * ONE), ..text("wide") };
    let l = FunctionLayer::build("L".to_string(), vec![text("a"), wide], &Images::new(), &hardware())
        .ok()
        .unwrap();
    assert_eq!(l.buttons[0].0, 0);
    assert_eq!(l.buttons[1].0, ONE);
    assert_eq!(l.virtual_button_count, 4 * ONE);
}

#[test]
fn files_are_looked_for_where_they_belong() {
    let some = |s: &str| Some(s.to_string());
    assert_eq!(default_cfg_path(None), "/usr/share/tiny-dfr/config.toml");
    assert_eq!(default_cfg_path(some("/x")), "/x/config.toml");
    assert_eq!(
        user_config_path(some("/home/u/.cfg"), some("/home/u")),
        some("/home/u/.cfg/tiny-dfr/config.toml")
    );
    assert_eq!(
        user_config_path(None, some("/home/u")),
        some("/home/u/.config/tiny-dfr/config.toml")
    );
    assert_eq!(user_config_path(None, None), None);
    assert_eq!(config_paths(None, None), vec!["/etc/tiny-dfr/config.toml".to_string()]);
    assert_eq!(
        icon_paths("bolt", &None),
        vec![
            "/etc/tiny-dfr/bolt.svg".to_string(),
            "/etc/tiny-dfr/bolt.png".to_string(),
            "/usr/share/tiny-dfr/bolt.svg".to_string(),
            "/usr/share/tiny-dfr/bolt.png".to_string(),
        ]
    );
    assert_eq!(image_format("/a.b/c.png"), ImageFormat::Png);
    assert_eq!(image_format("/a/c.svg"), ImageFormat::Svg);
    assert_eq!(image_format("/a.svg/c"), ImageFormat::Unknown);
    assert_eq!(image_format("/a/.svg"), ImageFormat::Unknown);
}

#[test]
fn the_first_image_for_a_request_counts() {
    let mut images = Images::new();
    let request = || ImageRequest { name: "a".to_string(), theme: None, width: 48, height: 48 };
    images.add_entry(request(), Loaded::Svg(1));
    images.add_entry(request(), Loaded::Bitmap(2));
    assert_eq!(images.find("a", &None, 48, 48), Loaded::Svg(1));
    assert_eq!(images.find("a", &None, 32, 48), Loaded::Failed);
    assert_eq!(images.find_icon("a", &None), Some(1));
}

#[test]
fn changes_of_watched_files_call_for_a_reload() {
    let mut m = ConfigManager::new(vec![None, Some(7)]);
    assert_eq!(m.next_step(), WatchStep::Read);
    assert!(m.calls_for_reload(7));
    assert!(!m.calls_for_reload(8));
    m.arm(vec![None, None]);
    assert_eq!(m.next_step(), WatchStep::Arm);
}

fn warned(base: &ConfigProxy) -> Vec<String> {
    config_warnings(base).iter().map(|w| w.text()).collect()
}

#[test]
fn a_sound_configuration_gives_no_warnings() {
    assert!(warned(&full_file()).is_empty());
    assert!(warned(&empty_file()).is_empty());
}

#[test]
fn vain_wishes_are_reported_in_order() {
    let marker = || ButtonConfig { children: Some(vec![text("c")]), ..named("pullout") };
    let mut base = full_file();
    base.primary_layer_keys = Some(vec![
        marker(),
        marker(),
        ButtonConfig { stretch: Some(ONE / 4), ..text("thin") },
    ]);
    base.media_layer_keys = Some(vec![
        ButtonConfig { option: Some("knob".to_string()), ..named("Slider") },
        named("slider"),
        ButtonConfig { option: Some("hail".to_string()), ..named("Weather") },
        named("Weather"),
    ]);
    base.system_info_layer_keys = Some(vec![text("s")]);
    let mut extra = LayerMap::new();
    extra.insert("FKeys".to_string(), vec![text("f")]);
    base.layers = Some(extra);
    base.default_layer = Some("Nowhere".to_string());
    assert_eq!(
        warned(&base),
        vec![
            "Layer 'FKeys' has multiple pullout markers; only the first is used",
            "Stretch value must be at least 0.5, setting to 0.5.",
            "Unknown Slider option 'knob'; expected display_brightness, keyboard_backlight, or volume",
            "Unknown Slider option ''; expected display_brightness, keyboard_backlight, or volume",
            "Unknown Weather option 'hail'; expected current or forecast",
            "Warning: Layers.FKeys ignored; use PrimaryLayerKeys for built-in layers",
            "Warning: Invalid DefaultLayer 'Nowhere', using SystemInfo",
        ]
    );
    let diagnostics: Vec<bool> = config_warnings(&base).iter().map(|w| w.is_diagnostic()).collect();
    assert_eq!(diagnostics, vec![false, true, true, true, true, false, false]);
}
