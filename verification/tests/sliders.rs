//! Sliders for brightness and volume, and the commands they run.

use tiny_dfr::command::{press_command, Environment};
use tiny_dfr::number::ONE;
use tiny_dfr::slider::{query_volume, read_u32, user_command, Reading, Slider, SliderEffect};
use tiny_dfr::text::split_words;
use tiny_dfr::SliderKind;

fn environment() -> Environment {
    Environment {
        sudo_user: None,
        sudo_uid: Some("1000".to_string()),
        wayland_display: Some("wayland-1".to_string()),
        xdg_runtime_dir: None,
        hyprland_instance_signature: None,
        xdg_runtime_dir_set: false,
        euid: 0,
    }
}

fn volume(value: i64) -> Slider {
    Slider::new(SliderKind::Volume, None, None, 0, Reading::Volume(Some((value, false))))
}

fn display() -> Slider {
    Slider::new(
        SliderKind::DisplayBrightness,
        Some("/sys/b".to_string()),
        Some("1000".to_string()),
        0,
        Reading::Brightness(Some(500)),
    )
}

fn line(e: Option<SliderEffect>) -> Option<String> {
    match e {
        Some(SliderEffect::Run { line }) => Some(line),
        Some(SliderEffect::Write { path, contents }) => Some(format!("{contents} > {path}")),
        None => None,
    }
}

#[test]
fn kinds_have_several_names() {
    assert_eq!(SliderKind::parse("Display"), Some(SliderKind::DisplayBrightness));
    assert_eq!(SliderKind::parse("illum"), Some(SliderKind::KeyboardBacklight));
    assert_eq!(SliderKind::parse("SOUND"), Some(SliderKind::Volume));
    assert_eq!(SliderKind::parse("knob"), None);
}

#[test]
fn brightness_is_written_and_never_goes_dark() {
    let mut s = display();
    assert_eq!(s.value(), ONE / 2);
    assert_eq!(line(s.set_fraction(ONE, 1)), Some("1000\n > /sys/b/brightness".to_string()));
    assert_eq!(line(s.set_fraction(0, 2)), Some("20\n > /sys/b/brightness".to_string()));
    assert_eq!(s.value(), ONE / 50);
}

#[test]
fn a_display_of_few_steps_never_goes_dark() {
    let mut s = Slider::new(
        SliderKind::DisplayBrightness,
        Some("/sys/b".to_string()),
        Some("10".to_string()),
        0,
        Reading::Brightness(Some(10)),
    );
    assert_eq!(line(s.set_fraction(0, 1)), Some("1\n > /sys/b/brightness".to_string()));
    assert_eq!(s.value(), ONE / 50);
    assert_eq!(line(s.set_fraction(ONE / 2, 2)), Some("5\n > /sys/b/brightness".to_string()));
}

#[test]
fn a_brightness_beyond_the_largest_is_drawn_once() {
    let mut s = Slider::new(
        SliderKind::DisplayBrightness,
        Some("/sys/b".to_string()),
        Some("100".to_string()),
        0,
        Reading::Brightness(Some(50)),
    );
    assert!(s.refresh(1, Reading::Brightness(Some(200))));
    assert_eq!((s.value(), s.muted()), (ONE, false));
    assert!(!s.refresh(2, Reading::Brightness(Some(200))));
    assert_eq!((s.value(), s.muted()), (ONE, false));
    assert!(s.refresh(3, Reading::Brightness(Some(90))));
}

#[test]
fn a_keyboard_backlight_may_go_dark() {
    let mut s = Slider::new(
        SliderKind::KeyboardBacklight,
        Some("/sys/k".to_string()),
        Some("255\n".to_string()),
        0,
        Reading::Brightness(Some(255)),
    );
    assert_eq!(s.percent(), 100);
    assert_eq!(line(s.set_fraction(0, 1)), Some("0\n > /sys/k/brightness".to_string()));
}

#[test]
fn volume_is_set_at_intervals_and_at_the_end() {
    let mut s = volume(0);
    assert_eq!(
        line(s.set_fraction(ONE / 2, 0)),
        Some("wpctl set-volume @DEFAULT_AUDIO_SINK@ 50%".to_string())
    );
    assert_eq!(line(s.set_fraction(ONE / 4, 59_999_999)), None);
    assert_eq!(
        line(s.set_fraction(3 * ONE / 4, 60_000_000)),
        Some("wpctl set-volume @DEFAULT_AUDIO_SINK@ 75%".to_string())
    );
    assert_eq!(
        line(s.commit(61_000_000)),
        Some("wpctl set-volume @DEFAULT_AUDIO_SINK@ 75%".to_string())
    );
}

#[test]
fn muting_twice_restores() {
    let mut s = volume(ONE / 2);
    assert_eq!(
        line(s.toggle_mute(1)),
        Some("wpctl set-mute @DEFAULT_AUDIO_SINK@ toggle".to_string())
    );
    assert!(s.muted());
    s.toggle_mute(2);
    assert!(!s.muted());
    assert_eq!(line(display().toggle_mute(1)), None);
}

#[test]
fn the_volume_is_read_at_intervals() {
    let mut s = volume(0);
    assert!(!s.poll_due(699_999_999));
    assert!(!s.refresh(699_999_999, Reading::Volume(Some((ONE, false)))));
    assert_eq!(s.value(), 0);
    assert!(s.poll_due(700_000_000));
    assert!(s.refresh(700_000_000, Reading::Volume(Some((ONE, true)))));
    assert_eq!((s.value(), s.muted()), (ONE, true));
}

#[test]
fn volume_output_is_read() {
    let read = |s: &str| {
        let numbers: Vec<Option<i64>> = split_words(s)
            .iter()
            .map(|w| w.parse::<f64>().ok().map(|f| (f * 1e9).round() as i64))
            .collect();
        query_volume(s, &numbers)
    };
    assert_eq!(read("Volume: 0.42\n"), Some((420_000_000, false)));
    assert_eq!(read("Volume: 1.50 [MUTED]\n"), Some((ONE, true)));
    assert_eq!(read("nothing"), None);
}

#[test]
fn numbers_in_files_may_have_space_around_them() {
    assert_eq!(read_u32(&Some(" 42\n".to_string())), Some(42));
    assert_eq!(read_u32(&Some("4294967296".to_string())), None);
    assert_eq!(read_u32(&Some("-1".to_string())), None);
    assert_eq!(read_u32(&None), None);
}

#[test]
fn commands_run_as_the_user() {
    let plan = user_command("true", &environment());
    assert_eq!(plan.program, "sh");
    assert_eq!(plan.args, ["-c", "true"]);
    assert!(plan.vars.contains(&("WAYLAND_DISPLAY".to_string(), "wayland-1".to_string())));
    assert!(plan.vars.contains(&("XDG_RUNTIME_DIR".to_string(), "/run/user/1000".to_string())));

    let sudo = Environment { sudo_user: Some("ann".to_string()), ..environment() };
    let plan = press_command("true", &sudo);
    assert_eq!(plan.program, "sudo");
    assert_eq!(plan.args, ["-u", "ann", "sh", "-c", "true"]);
}
