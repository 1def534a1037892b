//! What buttons show: time, usage, battery, weather and notifications.

use tiny_dfr::clock::{weekday_abbrev, Moment};
use tiny_dfr::construct::{image_requests, Hardware};
use tiny_dfr::content::Ambient;
use tiny_dfr::image::{Images, Loaded};
use tiny_dfr::number::{Signed, ONE};
use tiny_dfr::sysinfo_manager::SystemInfoManager;
use tiny_dfr::weather::{
    fetch_weather, resolve_report, weather_url, WeatherManager, RETRY_REFRESH, WEATHER_REFRESH,
};
use tiny_dfr::{BatteryState, Button, ButtonConfig, ButtonContent, NotificationManager};

fn hardware() -> Hardware {
    Hardware {
        battery: Some("BAT0".to_string()),
        display: None,
        keyboard: None,
        volume: Some((ONE / 4, true)),
        now: 0,
    }
}

fn named(b: &str) -> ButtonConfig {
    ButtonConfig { button: Some(b.to_string()), ..ButtonConfig::default() }
}

fn button(c: ButtonConfig) -> Button {
    let hw = hardware();
    let mut images = Images::new();
    for (i, request) in image_requests(&c, &hw).into_iter().enumerate() {
        images.add_entry(request, Loaded::Svg(i as u32));
    }
    Button::build(c, &images, &hw).ok().unwrap()
}

fn bare(c: ButtonConfig) -> Button {
    Button::build(c, &Images::new(), &hardware()).ok().unwrap()
}

fn ambient() -> Ambient {
    Ambient {
        // 2024-02-29 12:34:56 UTC, shown one hour ahead.
        now: Moment { secs: 1_709_210_096, nanos: 0, offset: 3600 },
        charge: (8, BatteryState::Low),
        power_profile: Some("BAL".to_string()),
    }
}

fn text(b: &Button, sys: Option<&SystemInfoManager>, notes: Option<&NotificationManager>) -> String {
    match b.get_content(sys, None, notes, &ambient()) {
        Some(ButtonContent::SimpleText(t)) => t,
        Some(ButtonContent::ClippedText(t)) => t,
        Some(ButtonContent::MultilineText(lines)) => lines.join("|"),
        _ => "other".to_string(),
    }
}

#[test]
fn the_time_is_written_in_its_format_and_zone() {
    let time = |option: &str| {
        bare(ButtonConfig { option: Some(option.to_string()), ..named("Time") })
    };
    assert_eq!(text(&time("%H:%M"), None, None), "13:34");
    assert_eq!(text(&time("%Y-%m-%d"), None, None), "2024-02-29");
    let german = bare(ButtonConfig {
        option: Some("%A".to_string()),
        locale: Some("de_DE".to_string()),
        ..named("Time")
    });
    assert_eq!(text(&german, None, None), "Donnerstag");
}

#[test]
fn time_formats_go_by_names() {
    let shown = |format: &str| {
        let b = Button::new_time(vec![], None, format, &None);
        text(&b, None, None)
    };
    assert_eq!(shown("24hr"), shown("%H:%M    %a %-e %b"));
    assert_eq!(shown("12hr"), shown("%-l:%M %p    %a %-e %b"));
    assert_ne!(shown("24hr"), shown("12hr"));
}

#[test]
fn times_with_seconds_are_drawn_more_often() {
    let time = |option: &str| {
        bare(ButtonConfig { option: Some(option.to_string()), ..named("Time") })
    };
    assert!(time("%H:%M:%S").needs_faster_refresh());
    assert!(!time("%H:%M").needs_faster_refresh());
}

#[test]
fn weekdays_are_named() {
    assert_eq!(weekday_abbrev("2024-02-29"), "Thu");
    assert_eq!(weekday_abbrev("2023-02-29"), "");
    assert_eq!(weekday_abbrev("soon"), "");
}

#[test]
fn usage_is_written_out() {
    let mut sys = SystemInfoManager::new(0);
    sys.store_stats((42 << 32) + (1 << 31), 3 << 30, 8 << 30, 0);
    assert_eq!(text(&bare(named("cpu")), Some(&sys), None), "CPU 42.5%");
    let usage = bare(named("memory"));
    assert_eq!(text(&usage, Some(&sys), None), "MEM 3.0G/8.0G");
    assert!(matches!(
        bare(named("cpu")).get_content(None, None, None, &ambient()),
        Some(ButtonContent::Empty)
    ));
}

fn memory_color(used: u64, total: u64) -> (u32, u32, u32) {
    let b = button(ButtonConfig {
        colorize: true,
        icon: Some("memory".to_string()),
        ..named("memory")
    });
    let mut sys = SystemInfoManager::new(0);
    sys.store_stats(0, used, total, 0);
    match b.get_content(Some(&sys), None, None, &ambient()) {
        Some(ButtonContent::ColoredIconWithText { icon_color, .. }) => icon_color,
        _ => panic!("the memory is not shown in colour"),
    }
}

fn color_of(usage: f64) -> (u32, u32, u32) {
    match usage {
        p if p <= 10.0 => (10_000, 10_000, 10_000),
        p if p <= 25.0 => (10_000, 8_500, 0),
        p if p <= 55.0 => (10_000, 4_500, 0),
        p if p <= 75.0 => (5_500, 2_500, 10_000),
        _ => (10_000, 0, 0),
    }
}

#[test]
fn the_memory_usage_is_reckoned_in_double_precision() {
    // 55 of 100 come out a little above 55 per cent.
    assert_eq!(memory_color(55, 100), (5_500, 2_500, 10_000));
    assert_eq!(memory_color(10, 100), (10_000, 10_000, 10_000));
    assert_eq!(memory_color(25, 100), (10_000, 8_500, 0));
    assert_eq!(memory_color(75, 100), (5_500, 2_500, 10_000));
    assert_eq!(memory_color(0, 0), (10_000, 10_000, 10_000));
    assert_eq!(memory_color(3, 2), (10_000, 0, 0));
}

#[test]
fn every_share_of_the_memory_has_its_color() {
    let totals = (1..160).chain([8 << 30, 1_000_000_007, (1 << 60) + 129, u64::MAX]);
    for total in totals {
        for percent in [10u128, 25, 55, 75, 100] {
            let at = (total as u128 * percent / 100) as u64;
            for used in [at.saturating_sub(1), at, at.saturating_add(1), at / 2] {
                let usage = (used as f64 / total as f64) * 100.0;
                assert_eq!(memory_color(used, total), color_of(usage), "{used} of {total}");
            }
        }
    }
}

#[test]
fn battery_text_tells_the_charge() {
    let b = button(ButtonConfig { option: Some("percentage".to_string()), ..named("Battery") });
    assert!(text(&b, None, None).contains("8%"));
}

#[test]
fn sliders_show_their_state() {
    let b = bare(ButtonConfig { option: Some("volume".to_string()), ..named("Slider") });
    match b.get_content(None, None, None, &ambient()) {
        Some(ButtonContent::SliderBar { fraction, muted, percent, .. }) => {
            assert_eq!((fraction, muted, percent), (ONE / 4, true, 25));
        }
        _ => panic!("no slider"),
    }
}

#[test]
fn notification_buttons_show_texts() {
    let mgr = NotificationManager::with_count(2);
    assert_eq!(text(&bare(named("NotificationContent")), None, Some(&mgr)), "app: summary 0");
    assert_eq!(text(&bare(named("DnDNotification")), None, Some(&mgr)), "DnD off");
    assert_eq!(text(&bare(named("NextNotification")), None, Some(&mgr)), ">");
}

const REPORT: &str = r#"{
  "current_condition": [{"temp_C": "-3", "temp_F": "27", "weatherDesc": [{"value": "Sunny"}]}],
  "nearest_area": [{"areaName": [{"value": "Oslo"}]}],
  "weather": [
    {"date": "2024-02-29", "maxtempC": "1", "mintempC": "-5", "hourly": []},
    {"date": "2024-03-01", "maxtempC": "x", "mintempC": "-7", "hourly": []}
  ]
}"#;

#[test]
fn reports_are_read() {
    let report = fetch_weather(&Some(REPORT.as_bytes().to_vec()), false).unwrap();
    assert_eq!(report.city, "Oslo");
    assert_eq!(report.current_temp.as_deref(), Some("-3"));
    assert_eq!(report.current_desc, "Sunny");
    assert_eq!(report.days.len(), 2);
    assert_eq!(report.days[0].weekday, "Thu");
    assert_eq!(report.days[1].tmax.as_deref(), Some("x"));
    let report = fetch_weather(&Some(REPORT.as_bytes().to_vec()), true).unwrap();
    assert_eq!(report.current_temp.as_deref(), Some("27"));
    assert!(fetch_weather(&Some(b"nothing".to_vec()), false).is_none());
    assert!(fetch_weather(&Some(vec![0xff]), false).is_none());
    assert!(fetch_weather(&None, false).is_none());
}

#[test]
fn temperatures_go_to_their_places() {
    let report = fetch_weather(&Some(REPORT.as_bytes().to_vec()), false).unwrap();
    let below = |n: u64| Signed { negative: true, amount: n * ONE as u64 };
    let above = |n: u64| Signed { negative: false, amount: n * ONE as u64 };
    let temps = vec![(Some(above(1)), Some(below(5))), (None, Some(below(7)))];
    let data = resolve_report(report, Some(below(3)), &temps, false);
    assert!(data.available);
    assert_eq!(data.days[0].tmax.whole_text(), "1");
    assert_eq!(data.days[0].tmin.whole_text(), "-5");
    assert_eq!(data.days[1].tmax.whole_text(), "0");

    let mut mgr = WeatherManager::new(false, 0);
    assert!(mgr.fetch_due(0));
    mgr.store(None, 0);
    assert!(!mgr.fetch_due(RETRY_REFRESH - 1));
    assert!(mgr.fetch_due(RETRY_REFRESH));
    mgr.store(Some(data), RETRY_REFRESH);
    assert!(!mgr.fetch_due(RETRY_REFRESH + WEATHER_REFRESH - 1));
    assert_eq!(mgr.data().city, "Oslo");
}

#[test]
fn weather_is_asked_for_by_place() {
    assert_eq!(weather_url(&None), "https://wttr.in/?format=j1");
    assert_eq!(weather_url(&Some("New York".to_string())), "https://wttr.in/New+York?format=j1");
}

#[test]
fn numbers_are_rounded_for_show() {
    let n = |negative: bool, amount: u64| Signed { negative, amount };
    assert_eq!(n(false, 2_500_000_000).whole_text(), "2");
    assert_eq!(n(false, 3_500_000_000).whole_text(), "4");
    assert_eq!(n(true, 400_000_000).whole_text(), "-0");
    assert_eq!(n(false, 2_500_000_000).nearest_text(), "3");
    assert_eq!(n(true, 2_500_000_000).nearest_text(), "-3");
    assert_eq!(n(true, 400_000_000).nearest_text(), "0");
}
