//! What buttons show at a given moment.

use vstd::prelude::*;
use vstd::string::*;

use crate::button::{
    battery_color, battery_tint, icon_entries, icon_named, icon_picked, now_playing_icon_color, slider_icon_color,
    slider_tint, usage_color, usage_tint, weather_icon_color, weather_tint, workspace_icon_color,
    BatteryIconMode, BatteryImages, BatteryImagesView, BatteryState, Button, ButtonImage, ButtonView,
    ImageView, NotificationButton, WeatherIcons, GREEN, PURPLE, WHITE, YELLOW,
};
use crate::clock::{format_moment, moment_text, Moment};
use crate::command::text_opt;
use crate::image::DEFAULT_ICON_SIZE;
use crate::notification_manager::{non_empty, notification_text, NotificationManager};
use crate::number::{
    as_double, billionths, divide_half_even, divide_up, double_at_most, half_even,
    half_even_is_nearest, is_rounded, nearest, nearest_is_rounded, rounded_up, rounded_up_is_least,
    signed_decimal, tenths, tenths_text, to_double, whole, whole_keeps_the_sign, written, Color,
};
use crate::slider::percent_of;
use crate::sysinfo_manager::{SystemInfoManager, SystemView};
use crate::text::{
    decimal, decimal_text, is_space, join, joined, single_spaced, single_spaced_is_one_field,
    split_wide, texts, trim, trimmed, wide_fields, wide_gap_splits,
};
use crate::weather::{DayView, WeatherManager, WeatherView};

verus! {

/// What is drawn on a button. Icons and bitmaps are numbers of loaded images,
/// sizes are in pixels, fractions in billionths.
pub enum ButtonContent {
    SimpleText(String),
    Icon(u32, i32),
    Bitmap(u32, i32, i32),
    IconWithText { icon: u32, icon_size: i32, text: String },
    ColoredIconWithText {
        icon: u32,
        icon_size: i32,
        icon_color: Color,
        overlay_icon: Option<u32>,
        overlay_color: Color,
        text: String,
    },
    IconWithCenteredText { icon: u32, icon_color: Option<Color>, icon_size: i32, text: String },
    IconWithMultilineText { icon: u32, icon_size: i32, lines: Vec<String>, emphasize_first: bool },
    ColoredIconWithMultilineText {
        icon: u32,
        icon_size: i32,
        icon_color: Color,
        overlay_icon: Option<u32>,
        overlay_color: Color,
        lines: Vec<String>,
        emphasize_first: bool,
    },
    ClippedText(String),
    IconWithClippedText { icon: u32, icon_color: Option<Color>, text: String },
    MultilineText(Vec<String>),
    SliderBar {
        fraction: i64,
        muted: bool,
        percent: u32,
        icon_color: Option<Color>,
        icon: Option<u32>,
        muted_icon: Option<u32>,
    },
    Empty,
}

/// The mathematical counterpart of [`ButtonContent`].
#[verifier::ext_equal]
pub enum ContentView {
    SimpleText(Seq<char>),
    Icon(u32, i32),
    Bitmap(u32, i32, i32),
    IconWithText { icon: u32, icon_size: i32, text: Seq<char> },
    ColoredIconWithText {
        icon: u32,
        icon_size: i32,
        icon_color: Color,
        overlay_icon: Option<u32>,
        overlay_color: Color,
        text: Seq<char>,
    },
    IconWithCenteredText { icon: u32, icon_color: Option<Color>, icon_size: i32, text: Seq<char> },
    IconWithMultilineText {
        icon: u32,
        icon_size: i32,
        lines: Seq<Seq<char>>,
        emphasize_first: bool,
    },
    ColoredIconWithMultilineText {
        icon: u32,
        icon_size: i32,
        icon_color: Color,
        overlay_icon: Option<u32>,
        overlay_color: Color,
        lines: Seq<Seq<char>>,
        emphasize_first: bool,
    },
    ClippedText(Seq<char>),
    IconWithClippedText { icon: u32, icon_color: Option<Color>, text: Seq<char> },
    MultilineText(Seq<Seq<char>>),
    SliderBar {
        fraction: i64,
        muted: bool,
        percent: u32,
        icon_color: Option<Color>,
        icon: Option<u32>,
        muted_icon: Option<u32>,
    },
    Empty,
}

impl View for ButtonContent {
    type V = ContentView;

    open spec fn view(&self) -> ContentView {
        match self {
            ButtonContent::SimpleText(t) => ContentView::SimpleText(t@),
            ButtonContent::Icon(i, s) => ContentView::Icon(*i, *s),
            ButtonContent::Bitmap(i, w, h) => ContentView::Bitmap(*i, *w, *h),
            ButtonContent::IconWithText { icon, icon_size, text } => ContentView::IconWithText {
                icon: *icon,
                icon_size: *icon_size,
                text: text@,
            },
            ButtonContent::ColoredIconWithText {
                icon,
                icon_size,
                icon_color,
                overlay_icon,
                overlay_color,
                text,
            } => ContentView::ColoredIconWithText {
                icon: *icon,
                icon_size: *icon_size,
                icon_color: *icon_color,
                overlay_icon: *overlay_icon,
                overlay_color: *overlay_color,
                text: text@,
            },
            ButtonContent::IconWithCenteredText { icon, icon_color, icon_size, text } =>
            ContentView::IconWithCenteredText {
                icon: *icon,
                icon_color: *icon_color,
                icon_size: *icon_size,
                text: text@,
            },
            ButtonContent::IconWithMultilineText { icon, icon_size, lines, emphasize_first } =>
            ContentView::IconWithMultilineText {
                icon: *icon,
                icon_size: *icon_size,
                lines: texts(lines@),
                emphasize_first: *emphasize_first,
            },
            ButtonContent::ColoredIconWithMultilineText {
                icon,
                icon_size,
                icon_color,
                overlay_icon,
                overlay_color,
                lines,
                emphasize_first,
            } => ContentView::ColoredIconWithMultilineText {
                icon: *icon,
                icon_size: *icon_size,
                icon_color: *icon_color,
                overlay_icon: *overlay_icon,
                overlay_color: *overlay_color,
                lines: texts(lines@),
                emphasize_first: *emphasize_first,
            },
            ButtonContent::ClippedText(t) => ContentView::ClippedText(t@),
            ButtonContent::IconWithClippedText { icon, icon_color, text } =>
            ContentView::IconWithClippedText { icon: *icon, icon_color: *icon_color, text: text@ },
            ButtonContent::MultilineText(lines) => ContentView::MultilineText(texts(lines@)),
            ButtonContent::SliderBar { fraction, muted, percent, icon_color, icon, muted_icon } =>
            ContentView::SliderBar {
                fraction: *fraction,
                muted: *muted,
                percent: *percent,
                icon_color: *icon_color,
                icon: *icon,
                muted_icon: *muted_icon,
            },
            ButtonContent::Empty => ContentView::Empty,
        }
    }
}

/// What the clock, the battery and the power profile say.
pub struct Ambient {
    pub now: Moment,
    /// The charge in per cent, and what the battery is doing.
    pub charge: (u32, BatteryState),
    pub power_profile: Option<String>,
}

/// What is known of the system.
pub open spec fn system_view(mgr: Option<&SystemInfoManager>) -> Option<SystemView> {
    match mgr {
        Some(m) => Some(m.info@),
        None => None,
    }
}

/// What is known of the weather.
pub open spec fn weather_view(mgr: Option<&WeatherManager>) -> Option<WeatherView> {
    match mgr {
        Some(m) => Some(m.weather@),
        None => None,
    }
}

/// The smaller side of a button's icon.
pub open spec fn side(b: ButtonView) -> i32 {
    if b.icon_width <= b.icon_height {
        b.icon_width
    } else {
        b.icon_height
    }
}

/// The groups of a time, which two spaces and more stand between.
pub open spec fn time_lines(time: Seq<char>) -> Seq<Seq<char>> {
    non_empty(wide_fields(time).map_values(|f: Seq<char>| trimmed(f)))
}

/// A time: on several lines if it is stacked and has several groups.
pub open spec fn time_content(stacked: bool, time: Seq<char>) -> ContentView {
    if stacked && time_lines(time).len() > 1 {
        ContentView::MultilineText(time_lines(time))
    } else {
        ContentView::SimpleText(time)
    }
}

/// The position of the icon for a charge, among those without the sign for
/// charging.
pub open spec fn plain_step(capacity: u32) -> int {
    if capacity == 0 {
        0
    } else if capacity <= 20 {
        1
    } else if capacity <= 30 {
        2
    } else if capacity <= 50 {
        3
    } else if capacity <= 60 {
        4
    } else if capacity <= 80 {
        5
    } else if capacity <= 99 {
        6
    } else {
        7
    }
}

/// The position of the icon for a charge, among those with the sign for
/// charging.
pub open spec fn charging_step(capacity: u32) -> int {
    if capacity <= 20 {
        0
    } else if capacity <= 30 {
        1
    } else if capacity <= 50 {
        2
    } else if capacity <= 60 {
        3
    } else if capacity <= 80 {
        4
    } else if capacity <= 99 {
        5
    } else {
        6
    }
}

/// The icon of a battery.
pub open spec fn battery_icon(
    mode: BatteryIconMode,
    icons: BatteryImagesView,
    colorize: bool,
    charge: (u32, BatteryState),
) -> Option<u32> {
    if mode != BatteryIconMode::Percentage {
        if charge.1 == BatteryState::Charging && !colorize {
            Some(icons.charging[charging_step(charge.0)])
        } else {
            Some(icons.plain[plain_step(charge.0)])
        }
    } else if charge.1 == BatteryState::Charging {
        Some(icons.bolt)
    } else {
        None
    }
}

/// A figure in per cent.
pub open spec fn percents(n: nat) -> Seq<char> {
    decimal(n) + "%"@
}

/// The charge, and the power profile behind it where there is one.
pub open spec fn battery_text(capacity: u32, profile: Option<Seq<char>>) -> Seq<char> {
    match profile {
        Some(p) => percents(capacity as nat) + " "@ + p,
        None => percents(capacity as nat),
    }
}

/// The charge, and the power profile on a line below it where there is one.
pub open spec fn battery_lines(capacity: u32, profile: Option<Seq<char>>) -> Seq<Seq<char>> {
    match profile {
        Some(p) => if p.len() > 0 {
            seq![percents(capacity as nat), p]
        } else {
            seq![percents(capacity as nat)]
        },
        None => seq![percents(capacity as nat)],
    }
}

/// What a battery button shows.
pub open spec fn battery_content(
    stacked: bool,
    mode: BatteryIconMode,
    icons: BatteryImagesView,
    colorize: bool,
    charge: (u32, BatteryState),
    profile: Option<Seq<char>>,
) -> ContentView {
    let icon = battery_icon(mode, icons, colorize, charge);
    let text = mode != BatteryIconMode::Icon;
    let overlay = if charge.1 == BatteryState::Charging {
        Some(icons.bolt)
    } else {
        None
    };
    match icon {
        Some(i) => if stacked && text {
            if colorize {
                ContentView::ColoredIconWithMultilineText {
                    icon: i,
                    icon_size: DEFAULT_ICON_SIZE,
                    icon_color: battery_tint(charge.0),
                    overlay_icon: overlay,
                    overlay_color: YELLOW,
                    lines: battery_lines(charge.0, profile),
                    emphasize_first: false,
                }
            } else {
                ContentView::IconWithMultilineText {
                    icon: i,
                    icon_size: DEFAULT_ICON_SIZE,
                    lines: battery_lines(charge.0, profile),
                    emphasize_first: false,
                }
            }
        } else if text {
            if colorize {
                ContentView::ColoredIconWithText {
                    icon: i,
                    icon_size: DEFAULT_ICON_SIZE,
                    icon_color: battery_tint(charge.0),
                    overlay_icon: overlay,
                    overlay_color: YELLOW,
                    text: battery_text(charge.0, profile),
                }
            } else {
                ContentView::IconWithText {
                    icon: i,
                    icon_size: DEFAULT_ICON_SIZE,
                    text: battery_text(charge.0, profile),
                }
            }
        } else {
            ContentView::Icon(i, DEFAULT_ICON_SIZE)
        },
        None => if stacked && text {
            ContentView::SimpleText(joined(battery_lines(charge.0, profile), " "@))
        } else {
            ContentView::SimpleText(battery_text(charge.0, profile))
        },
    }
}

/// A whole of the processor usage: one per cent.
pub const CPU_ONE: u64 = 4_294_967_296;

/// A whole of the memory figures: one gibibyte.
pub const GIB: u64 = 1_073_741_824;

/// What a processor button shows.
pub open spec fn cpu_content(b: ButtonView, icon: Option<u32>, colorize: bool, usage: u64) ->
    ContentView {
    match icon {
        Some(i) => {
            let text = percents(half_even(usage as nat, CPU_ONE as nat));
            if colorize {
                ContentView::ColoredIconWithText {
                    icon: i,
                    icon_size: side(b),
                    icon_color: usage_tint(rounded_up(usage as nat, CPU_ONE as nat)),
                    overlay_icon: None,
                    overlay_color: WHITE,
                    text,
                }
            } else {
                ContentView::IconWithText { icon: i, icon_size: side(b), text }
            }
        },
        None => ContentView::SimpleText(
            "CPU "@ + tenths(half_even(usage as nat * 10, CPU_ONE as nat)) + "%"@,
        ),
    }
}

/// An amount of memory in gibibytes, with one digit behind the point.
pub open spec fn gigabytes(bytes: u64) -> Seq<char> {
    tenths(half_even(as_double(bytes) * 10, GIB as nat))
}

/// The steps of the memory usage at which its colour changes, in per cent.
#[derive(Clone, Copy, PartialEq, Eq, Structural, Debug)]
pub enum UsageStep {
    UpTo10,
    UpTo25,
    UpTo55,
    UpTo75,
}

impl UsageStep {
    /// The step in per cent.
    pub open spec fn percent(self) -> nat {
        match self {
            UsageStep::UpTo10 => 10,
            UsageStep::UpTo25 => 25,
            UsageStep::UpTo55 => 55,
            UsageStep::UpTo75 => 75,
        }
    }

    /// The largest share in double precision whose hundredfold is at most the step,
    /// as a numerator and a denominator.
    pub open spec fn share(self) -> (u64, u64) {
        match self {
            UsageStep::UpTo10 => (7_205_759_403_792_794, 72_057_594_037_927_936),
            UsageStep::UpTo25 => (4_503_599_627_370_496, 18_014_398_509_481_984),
            UsageStep::UpTo55 => (4_953_959_590_107_545, 9_007_199_254_740_992),
            UsageStep::UpTo75 => (6_755_399_441_055_744, 9_007_199_254_740_992),
        }
    }

    /// Half of how far apart the numbers of double precision lie at the step, in
    /// units of its share.
    pub open spec fn half(self) -> nat {
        match self {
            UsageStep::UpTo10 => 64,
            UsageStep::UpTo25 => 32,
            UsageStep::UpTo55 => 32,
            UsageStep::UpTo75 => 64,
        }
    }

    /// The largest share of the step.
    fn largest_share(self) -> (r: (u64, u64))
        ensures
            r == self.share(),
    {
        match self {
            UsageStep::UpTo10 => (7_205_759_403_792_794, 72_057_594_037_927_936),
            UsageStep::UpTo25 => (4_503_599_627_370_496, 18_014_398_509_481_984),
            UsageStep::UpTo55 => (4_953_959_590_107_545, 9_007_199_254_740_992),
            UsageStep::UpTo75 => (6_755_399_441_055_744, 9_007_199_254_740_992),
        }
    }
}

/// Whether the memory usage, reckoned in double precision, is at most a step.
pub open spec fn usage_within(used: u64, total: u64, s: UsageStep) -> bool {
    double_at_most(as_double(used), as_double(total), s.share().0 as nat, s.share().1 as nat)
}

/// The memory usage in per cent, reckoned in double precision, up to the next
/// step at which the colour changes.
pub open spec fn memory_percent(used: u64, total: u64) -> nat {
    if total == 0 {
        0
    } else if usage_within(used, total, UsageStep::UpTo10) {
        10
    } else if usage_within(used, total, UsageStep::UpTo25) {
        25
    } else if usage_within(used, total, UsageStep::UpTo55) {
        55
    } else if usage_within(used, total, UsageStep::UpTo75) {
        75
    } else {
        100
    }
}

/// Each step holds the largest share that it can. Where the numbers of double
/// precision lie `2 * half` apart, a hundredfold that is no more than `half` above
/// the step is rounded down to it; that of the share is so, and that of the next
/// one is not.
pub proof fn usage_steps_are_tight(s: UsageStep)
    ensures
        4_503_599_627_370_496 <= s.share().0 < 9_007_199_254_740_992,
        9_007_199_254_740_992 * s.half() <= s.percent() * s.share().1,
        s.percent() * s.share().1 < 18_014_398_509_481_984 * s.half(),
        100 * s.share().0 <= s.percent() * s.share().1 + s.half(),
        s.percent() * s.share().1 + s.half() < 100 * (s.share().0 + 1),
{
    match s {
        UsageStep::UpTo10 => {},
        UsageStep::UpTo25 => {},
        UsageStep::UpTo55 => {},
        UsageStep::UpTo75 => {},
    }
}

/// Double precision matters only next to a step: a usage that is clearly below or
/// above it is on the side where it belongs. One that is just a step belongs to
/// it, but for the step of 55 per cent, where the hundredfold comes out higher.
pub proof fn usage_follows_the_quotient(used: u64, total: u64, s: UsageStep)
    requires
        used < 9_007_199_254_740_992,
        0 < total < 9_007_199_254_740_992,
    ensures
        1_000_000_000_000_000 * (100 * used) <= 999_999_999_999_999 * (s.percent() * total)
            ==> usage_within(used, total, s),
        1_000_000_000_000_000 * (100 * used) >= 1_000_000_000_000_001 * (s.percent() * total)
            ==> !usage_within(used, total, s),
        s != UsageStep::UpTo55 && 100 * used <= s.percent() * total ==> usage_within(used, total, s),
{
    let (u, t) = (used as nat, total as nat);
    assert(as_double(used) == u && as_double(total) == t) by {
        assert(half_even(u, 1) == u && half_even(t, 1) == t);
    }
    match s {
        UsageStep::UpTo10 => {
            assert(usage_within(used, total, s) <==> 144_115_188_075_855_872 * u
                <= 14_411_518_807_585_589 * t) by (nonlinear_arith)
                requires
                    usage_within(used, total, s) == double_at_most(
                        u,
                        t,
                        7_205_759_403_792_794,
                        72_057_594_037_927_936,
                    ),
            ;
        },
        UsageStep::UpTo25 => {
            assert(usage_within(used, total, s) <==> 36_028_797_018_963_968 * u
                <= 9_007_199_254_740_993 * t) by (nonlinear_arith)
                requires
                    usage_within(used, total, s) == double_at_most(
                        u,
                        t,
                        4_503_599_627_370_496,
                        18_014_398_509_481_984,
                    ),
            ;
        },
        UsageStep::UpTo55 => {
            assert(usage_within(used, total, s) <==> 18_014_398_509_481_984 * u
                < 9_907_919_180_215_091 * t) by (nonlinear_arith)
                requires
                    usage_within(used, total, s) == double_at_most(
                        u,
                        t,
                        4_953_959_590_107_545,
                        9_007_199_254_740_992,
                    ),
            ;
        },
        UsageStep::UpTo75 => {
            assert(usage_within(used, total, s) <==> 18_014_398_509_481_984 * u
                <= 13_510_798_882_111_489 * t) by (nonlinear_arith)
                requires
                    usage_within(used, total, s) == double_at_most(
                        u,
                        t,
                        6_755_399_441_055_744,
                        9_007_199_254_740_992,
                    ),
            ;
        },
    }
}

/// What a memory button shows.
pub open spec fn memory_content(
    b: ButtonView,
    icon: Option<u32>,
    colorize: bool,
    used: u64,
    total: u64,
) -> ContentView {
    match icon {
        Some(i) => if b.stacked {
            ContentView::IconWithMultilineText {
                icon: i,
                icon_size: side(b),
                lines: seq![
                    "used: "@ + gigabytes(used) + "G"@,
                    "total: "@ + gigabytes(total) + "G"@,
                ],
                emphasize_first: false,
            }
        } else {
            let text = gigabytes(used) + "/"@ + gigabytes(total) + "G"@;
            if colorize {
                ContentView::ColoredIconWithText {
                    icon: i,
                    icon_size: side(b),
                    icon_color: usage_tint(memory_percent(used, total)),
                    overlay_icon: None,
                    overlay_color: WHITE,
                    text,
                }
            } else {
                ContentView::IconWithText { icon: i, icon_size: side(b), text }
            }
        },
        None => ContentView::SimpleText(
            "MEM "@ + gigabytes(used) + "G/"@ + gigabytes(total) + "G"@,
        ),
    }
}

/// What a button with the active window shows.
pub open spec fn window_content(icon: Option<u32>, colorize: bool, s: SystemView) -> ContentView {
    if s.shows_music() && icon is Some {
        ContentView::IconWithClippedText {
            icon: icon->0,
            icon_color: if colorize {
                Some(GREEN)
            } else {
                None
            },
            text: s.titlebar(),
        }
    } else {
        ContentView::ClippedText(s.titlebar())
    }
}

/// What a button with the active workspace shows.
pub open spec fn workspace_content(
    b: ButtonView,
    icon: Option<u32>,
    colorize: bool,
    workspace: Seq<char>,
) -> ContentView {
    match icon {
        Some(i) => ContentView::IconWithCenteredText {
            icon: i,
            icon_color: if colorize {
                Some(PURPLE)
            } else {
                None
            },
            icon_size: side(b),
            text: if workspace.len() == 0 {
                "?"@
            } else {
                workspace
            },
        },
        None => ContentView::SimpleText("WS: "@ + workspace),
    }
}

/// What a button with the weather of now shows.
pub open spec fn current_content(
    icons: Seq<(Seq<char>, u32)>,
    colorize: bool,
    w: WeatherView,
) -> ContentView {
    if w.available {
        let temp = match w.current_temp {
            Some(t) => whole(t) + w.unit,
            None => "--"@,
        };
        match icon_picked(icons, w.current_icon) {
            Some(i) => match weather_tint(i.0) {
                Some(color) => if colorize {
                    ContentView::ColoredIconWithText {
                        icon: i.1,
                        icon_size: DEFAULT_ICON_SIZE,
                        icon_color: color,
                        overlay_icon: None,
                        overlay_color: WHITE,
                        text: temp,
                    }
                } else {
                    ContentView::IconWithText {
                        icon: i.1,
                        icon_size: DEFAULT_ICON_SIZE,
                        text: temp,
                    }
                },
                None => ContentView::IconWithText {
                    icon: i.1,
                    icon_size: DEFAULT_ICON_SIZE,
                    text: temp,
                },
            },
            None => ContentView::SimpleText(temp),
        }
    } else {
        ContentView::SimpleText("…"@)
    }
}

/// The lines of a day's forecast: the weekday, the temperatures and the
/// condition, as far as there are any.
pub open spec fn forecast_lines(d: DayView, unit: Seq<char>) -> Seq<Seq<char>> {
    let temps = signed_decimal(nearest(d.tmax)) + "/"@ + signed_decimal(nearest(d.tmin)) + unit;
    let first = if d.weekday.len() > 0 {
        seq![d.weekday, temps]
    } else {
        seq![temps]
    };
    if d.desc.len() > 0 {
        first.push(d.desc)
    } else {
        first
    }
}

/// What a button with a day's forecast shows.
pub open spec fn forecast_content(
    day: usize,
    icons: Seq<(Seq<char>, u32)>,
    colorize: bool,
    w: WeatherView,
) -> ContentView {
    if day < w.days.len() {
        let d = w.days[day as int];
        let lines = forecast_lines(d, w.unit);
        match icon_picked(icons, d.icon) {
            Some(i) => match weather_tint(i.0) {
                Some(color) => if colorize {
                    ContentView::ColoredIconWithMultilineText {
                        icon: i.1,
                        icon_size: DEFAULT_ICON_SIZE,
                        icon_color: color,
                        overlay_icon: None,
                        overlay_color: WHITE,
                        lines,
                        emphasize_first: true,
                    }
                } else {
                    ContentView::IconWithMultilineText {
                        icon: i.1,
                        icon_size: DEFAULT_ICON_SIZE,
                        lines,
                        emphasize_first: true,
                    }
                },
                None => ContentView::IconWithMultilineText {
                    icon: i.1,
                    icon_size: DEFAULT_ICON_SIZE,
                    lines,
                    emphasize_first: true,
                },
            },
            None => ContentView::MultilineText(lines),
        }
    } else {
        ContentView::SimpleText("--"@)
    }
}

/// An icon, or a text where there is none.
pub open spec fn icon_or(icon: Option<u32>, text: Seq<char>) -> ContentView {
    match icon {
        Some(i) => ContentView::Icon(i, DEFAULT_ICON_SIZE),
        None => ContentView::SimpleText(text),
    }
}

/// What a notification button shows.
pub open spec fn notification_content(
    kind: NotificationButton,
    icon: Option<u32>,
    active_icon: Option<u32>,
    mgr: Option<&NotificationManager>,
) -> ContentView {
    match kind {
        NotificationButton::Count => match mgr {
            Some(m) => match icon {
                Some(i) => ContentView::IconWithText {
                    icon: i,
                    icon_size: DEFAULT_ICON_SIZE,
                    text: decimal(m.list().len()),
                },
                None => ContentView::SimpleText(decimal(m.list().len())),
            },
            None => ContentView::Empty,
        },
        NotificationButton::Back => icon_or(icon, "<-"@),
        NotificationButton::Previous => icon_or(icon, "<"@),
        NotificationButton::Text => match mgr {
            Some(m) => ContentView::ClippedText(
                match m.current() {
                    Some(n) => notification_text(n),
                    None => "No notifications"@,
                },
            ),
            None => ContentView::Empty,
        },
        NotificationButton::Next => icon_or(icon, ">"@),
        NotificationButton::Dnd => match mgr {
            Some(m) => icon_or(
                if m.dnd() && active_icon is Some {
                    active_icon
                } else {
                    icon
                },
                if m.dnd() {
                    "DnD on"@
                } else {
                    "DnD off"@
                },
            ),
            None => ContentView::Empty,
        },
    }
}

/// What a button shows. `time` is the present time in the button's format, where
/// it shows the time.
pub open spec fn content(
    b: ButtonView,
    time: Seq<char>,
    system: Option<SystemView>,
    weather: Option<WeatherView>,
    mgr: Option<&NotificationManager>,
    charge: (u32, BatteryState),
    profile: Option<Seq<char>>,
) -> ContentView {
    match b.image {
        ImageView::Text(t) => ContentView::SimpleText(t),
        ImageView::LayerToggle(_, t) => ContentView::SimpleText(t),
        ImageView::Svg(i) => ContentView::Icon(i, side(b)),
        ImageView::Bitmap(i) => ContentView::Bitmap(i, b.icon_width, b.icon_height),
        ImageView::Time(_, _) => time_content(b.stacked, time),
        ImageView::Battery(_, mode, icons, colorize) => battery_content(
            b.stacked,
            mode,
            icons,
            colorize,
            charge,
            profile,
        ),
        ImageView::CpuUsage(icon, colorize) => match system {
            Some(s) => cpu_content(b, icon, colorize, s.cpu_usage),
            None => ContentView::Empty,
        },
        ImageView::MemoryUsage(icon, colorize) => match system {
            Some(s) => memory_content(b, icon, colorize, s.memory_usage, s.memory_total),
            None => ContentView::Empty,
        },
        ImageView::ActiveWindow(icon, colorize) => match system {
            Some(s) => window_content(icon, colorize, s),
            None => ContentView::Empty,
        },
        ImageView::ActiveWorkspace(icon, colorize) => match system {
            Some(s) => workspace_content(b, icon, colorize, s.active_workspace),
            None => ContentView::Empty,
        },
        ImageView::Slider { state, icon, muted_icon, colorize } => ContentView::SliderBar {
            fraction: state.value,
            muted: state.muted,
            percent: percent_of(state.value as int) as u32,
            icon_color: if colorize {
                slider_tint(state.kind, percent_of(state.value as int) as u32)
            } else {
                None
            },
            icon,
            muted_icon,
        },
        ImageView::WeatherCurrent(icons, colorize) => match weather {
            Some(w) => current_content(icons, colorize, w),
            None => ContentView::Empty,
        },
        ImageView::WeatherForecast(day, icons, colorize) => match weather {
            Some(w) => forecast_content(day, icons, colorize, w),
            None => ContentView::Empty,
        },
        ImageView::Notification(kind, icon, active_icon) => notification_content(
            kind,
            icon,
            active_icon,
            mgr,
        ),
        ImageView::Spacer => ContentView::Empty,
    }
}

/// The present time in a button's format, where it shows the time; nothing where
/// the time cannot be written so.
pub open spec fn time_of(b: ButtonView, now: Moment) -> Option<Seq<char>> {
    match b.image {
        ImageView::Time(format, locale) => moment_text(
            now.secs,
            now.nanos,
            now.offset,
            format,
            locale,
        ),
        _ => Some(Seq::empty()),
    }
}

fn percents_text(n: u64) -> (r: String)
    ensures
        r@ == percents(n as nat),
{
    let mut s = decimal_text(n);
    s.append("%");
    s
}

/// The lines of a time, as far as they are not blank.
fn lines_of_time(time: &str) -> (r: Vec<String>)
    ensures
        texts(r@) == time_lines(time@),
{
    let parts = split_wide(time);
    let ghost all = wide_fields(time@).map_values(|f: Seq<char>| trimmed(f));
    let n = parts.len();
    let mut r: Vec<String> = Vec::new();
    let mut i: usize = 0;
    assert(texts(parts@).len() == n);
    assert(all.subrange(0, 0) =~= Seq::empty());
    assert(texts(r@) =~= Seq::empty());
    while i < n
        invariant
            i <= n,
            n == parts@.len(),
            texts(parts@) == wide_fields(time@),
            all == wide_fields(time@).map_values(|f: Seq<char>| trimmed(f)),
            texts(r@) == non_empty(all.subrange(0, i as int)),
        decreases n - i,
    {
        let ghost seen = all.subrange(0, i + 1);
        assert(seen.subrange(0, seen.len() - 1) =~= all.subrange(0, i as int));
        assert(texts(parts@)[i as int] == parts@[i as int]@);
        assert(seen[seen.len() - 1] == trimmed(parts@[i as int]@));
        let t = trim(parts[i].as_str());
        if !t.as_str().is_empty() {
            let ghost was = texts(r@);
            r.push(t);
            assert(texts(r@) =~= was.push(t@));
        }
        i += 1;
    }
    assert(all.subrange(0, n as int) =~= all);
    r
}

fn time_shown(stacked: bool, time: &str) -> (r: ButtonContent)
    ensures
        r@ == time_content(stacked, time@),
{
    if stacked {
        let lines = lines_of_time(time);
        assert(texts(lines@).len() == lines@.len());
        if lines.len() > 1 {
            return ButtonContent::MultilineText(lines);
        }
    }
    ButtonContent::SimpleText(time.to_owned())
}

fn find_battery_icon(
    mode: BatteryIconMode,
    icons: &BatteryImages,
    colorize: bool,
    charge: (u32, BatteryState),
) -> (r: Option<u32>)
    requires
        icons@.plain.len() == 8,
        icons@.charging.len() == 7,
    ensures
        r == battery_icon(mode, icons@, colorize, charge),
{
    let capacity = charge.0;
    if mode.should_draw_icon() {
        if charge.1 == BatteryState::Charging && !colorize {
            let step: usize = if capacity <= 20 {
                0
            } else if capacity <= 30 {
                1
            } else if capacity <= 50 {
                2
            } else if capacity <= 60 {
                3
            } else if capacity <= 80 {
                4
            } else if capacity <= 99 {
                5
            } else {
                6
            };
            Some(icons.charging[step])
        } else {
            let step: usize = if capacity == 0 {
                0
            } else if capacity <= 20 {
                1
            } else if capacity <= 30 {
                2
            } else if capacity <= 50 {
                3
            } else if capacity <= 60 {
                4
            } else if capacity <= 80 {
                5
            } else if capacity <= 99 {
                6
            } else {
                7
            };
            Some(icons.plain[step])
        }
    } else if charge.1 == BatteryState::Charging {
        Some(icons.bolt)
    } else {
        None
    }
}

fn battery_text_of(capacity: u32, profile: &Option<String>) -> (r: String)
    ensures
        r@ == battery_text(capacity, text_opt(*profile)),
{
    let mut s = percents_text(capacity as u64);
    match profile {
        Some(p) => {
            s.append(" ");
            s.append(p.as_str());
        },
        None => {},
    }
    s
}

fn battery_lines_of(capacity: u32, profile: &Option<String>) -> (r: Vec<String>)
    ensures
        texts(r@) == battery_lines(capacity, text_opt(*profile)),
{
    let mut r: Vec<String> = Vec::new();
    r.push(percents_text(capacity as u64));
    match profile {
        Some(p) => {
            if !p.as_str().is_empty() {
                r.push(p.clone());
            }
        },
        None => {},
    }
    assert(texts(r@) =~= battery_lines(capacity, text_opt(*profile)));
    r
}

fn battery_shown(
    stacked: bool,
    mode: BatteryIconMode,
    icons: &BatteryImages,
    colorize: bool,
    charge: (u32, BatteryState),
    profile: &Option<String>,
) -> (r: ButtonContent)
    requires
        icons@.plain.len() == 8,
        icons@.charging.len() == 7,
    ensures
        r@ == battery_content(stacked, mode, icons@, colorize, charge, text_opt(*profile)),
{
    let icon = find_battery_icon(mode, icons, colorize, charge);
    let overlay_icon: Option<u32> = if charge.1 == BatteryState::Charging {
        Some(icons.bolt)
    } else {
        None
    };
    match icon {
        Some(icon) => {
            if stacked && mode.should_draw_text() {
                let lines = battery_lines_of(charge.0, profile);
                if colorize {
                    ButtonContent::ColoredIconWithMultilineText {
                        icon,
                        icon_size: DEFAULT_ICON_SIZE,
                        icon_color: battery_color(charge.0),
                        overlay_icon,
                        overlay_color: YELLOW,
                        lines,
                        emphasize_first: false,
                    }
                } else {
                    ButtonContent::IconWithMultilineText {
                        icon,
                        icon_size: DEFAULT_ICON_SIZE,
                        lines,
                        emphasize_first: false,
                    }
                }
            } else if mode.should_draw_text() {
                let text = battery_text_of(charge.0, profile);
                if colorize {
                    ButtonContent::ColoredIconWithText {
                        icon,
                        icon_size: DEFAULT_ICON_SIZE,
                        icon_color: battery_color(charge.0),
                        overlay_icon,
                        overlay_color: YELLOW,
                        text,
                    }
                } else {
                    ButtonContent::IconWithText { icon, icon_size: DEFAULT_ICON_SIZE, text }
                }
            } else {
                ButtonContent::Icon(icon, DEFAULT_ICON_SIZE)
            }
        },
        None => {
            if stacked && mode.should_draw_text() {
                let lines = battery_lines_of(charge.0, profile);
                ButtonContent::SimpleText(join(&lines, " "))
            } else {
                ButtonContent::SimpleText(battery_text_of(charge.0, profile))
            }
        },
    }
}

proof fn lemma_rounded(n: nat, d: nat, bound: nat)
    requires
        d >= 2,
        n <= bound,
    ensures
        half_even(n, d) <= bound / 2 + 1,
        rounded_up(n, d) <= bound / 2 + 1,
{
    assert(n / d <= bound / 2) by (nonlinear_arith)
        requires
            d >= 2,
            n <= bound,
    ;
}

fn gigabytes_text(bytes: u64) -> (r: String)
    ensures
        r@ == gigabytes(bytes),
{
    let amount = to_double(bytes);
    proof {
        let n = as_double(bytes) * 10;
        let d = GIB as nat;
        assert(n / d <= u64::MAX / 2) by (nonlinear_arith)
            requires
                d == 1_073_741_824,
                n <= 184_467_440_737_095_516_160,
        ;
    }
    let t: u128 = divide_half_even(amount * 10, GIB as u128);
    tenths_text(t as u64)
}

fn cpu_shown(b: &Button, icon: Option<u32>, colorize: bool, usage: u64) -> (r: ButtonContent)
    ensures
        r@ == cpu_content(b@, icon, colorize, usage),
{
    proof {
        lemma_rounded(usage as nat, CPU_ONE as nat, u64::MAX as nat);
        let n = usage as nat * 10;
        let d = CPU_ONE as nat;
        assert(n / d <= u64::MAX / 2) by (nonlinear_arith)
            requires
                d == 4_294_967_296,
                n <= u64::MAX * 10,
        ;
    }
    match icon {
        Some(icon) => {
            let whole: u128 = divide_half_even(usage as u128, CPU_ONE as u128);
            let text = percents_text(whole as u64);
            if colorize {
                let up: u128 = divide_up(usage as u128, CPU_ONE as u128);
                ButtonContent::ColoredIconWithText {
                    icon,
                    icon_size: b.smaller_side(),
                    icon_color: usage_color(up as u64),
                    overlay_icon: None,
                    overlay_color: WHITE,
                    text,
                }
            } else {
                ButtonContent::IconWithText { icon, icon_size: b.smaller_side(), text }
            }
        },
        None => {
            let t: u128 = divide_half_even(usage as u128 * 10, CPU_ONE as u128);
            let mut s = "CPU ".to_owned();
            s.append(tenths_text(t as u64).as_str());
            s.append("%");
            ButtonContent::SimpleText(s)
        },
    }
}

/// The memory usage in per cent, rounded up, as far as it matters: anything above
/// one hundred counts as one hundred and one.
fn memory_share(used: u64, total: u64) -> (r: u64)
    ensures
        r == memory_percent(used, total),
{
    if total == 0 {
        0
    } else if is_within(used, total, UsageStep::UpTo10) {
        10
    } else if is_within(used, total, UsageStep::UpTo25) {
        25
    } else if is_within(used, total, UsageStep::UpTo55) {
        55
    } else if is_within(used, total, UsageStep::UpTo75) {
        75
    } else {
        100
    }
}

/// Whether the memory usage is at most a step.
fn is_within(used: u64, total: u64, s: UsageStep) -> (r: bool)
    ensures
        r == usage_within(used, total, s),
{
    let (share, of) = s.largest_share();
    let n = to_double(used);
    let d = to_double(total);
    let m: u128 = share as u128;
    let unit: u128 = of as u128;
    proof {
        assert(0 <= 2 * n * unit <= 2 * 18_446_744_073_709_551_616 * 72_057_594_037_927_936)
            by (nonlinear_arith)
            requires
                0 <= n <= 18_446_744_073_709_551_616,
                0 <= unit <= 72_057_594_037_927_936,
        ;
        assert(0 <= (2 * m + 1) * d <= 18_014_398_509_481_985 * 18_446_744_073_709_551_616)
            by (nonlinear_arith)
            requires
                0 <= d <= 18_446_744_073_709_551_616,
                0 <= m <= 9_007_199_254_740_992,
        ;
    }
    if m % 2 == 0 {
        2 * n * unit <= (2 * m + 1) * d
    } else {
        2 * n * unit < (2 * m + 1) * d
    }
}

fn memory_shown(b: &Button, icon: Option<u32>, colorize: bool, used: u64, total: u64) -> (r:
    ButtonContent)
    ensures
        r@ == memory_content(b@, icon, colorize, used, total),
{
    match icon {
        Some(icon) => {
            if b.stacked {
                let mut first = "used: ".to_owned();
                first.append(gigabytes_text(used).as_str());
                first.append("G");
                let mut second = "total: ".to_owned();
                second.append(gigabytes_text(total).as_str());
                second.append("G");
                let mut lines: Vec<String> = Vec::new();
                lines.push(first);
                lines.push(second);
                assert(texts(lines@) =~= seq![
                    "used: "@ + gigabytes(used) + "G"@,
                    "total: "@ + gigabytes(total) + "G"@,
                ]);
                ButtonContent::IconWithMultilineText {
                    icon,
                    icon_size: b.smaller_side(),
                    lines,
                    emphasize_first: false,
                }
            } else {
                let mut text = gigabytes_text(used);
                text.append("/");
                text.append(gigabytes_text(total).as_str());
                text.append("G");
                if colorize {
                    ButtonContent::ColoredIconWithText {
                        icon,
                        icon_size: b.smaller_side(),
                        icon_color: usage_color(memory_share(used, total)),
                        overlay_icon: None,
                        overlay_color: WHITE,
                        text,
                    }
                } else {
                    ButtonContent::IconWithText { icon, icon_size: b.smaller_side(), text }
                }
            }
        },
        None => {
            let mut s = "MEM ".to_owned();
            s.append(gigabytes_text(used).as_str());
            s.append("G/");
            s.append(gigabytes_text(total).as_str());
            s.append("G");
            ButtonContent::SimpleText(s)
        },
    }
}

fn current_shown(icons: &WeatherIcons, colorize: bool, mgr: &WeatherManager) -> (r: ButtonContent)
    ensures
        r@ == current_content(icon_entries(icons.icons@), colorize, mgr.weather@),
{
    let w = &mgr.weather;
    if !w.available {
        return ButtonContent::SimpleText("…".to_owned());
    }
    let temp = match w.current_temp {
        Some(t) => {
            let mut s = t.whole_text();
            s.append(w.unit.as_str());
            s
        },
        None => "--".to_owned(),
    };
    match icons.pick(w.current_icon.as_str()) {
        Some((name, icon)) => match weather_icon_color(name.as_str()) {
            Some(icon_color) => {
                if colorize {
                    ButtonContent::ColoredIconWithText {
                        icon,
                        icon_size: DEFAULT_ICON_SIZE,
                        icon_color,
                        overlay_icon: None,
                        overlay_color: WHITE,
                        text: temp,
                    }
                } else {
                    ButtonContent::IconWithText { icon, icon_size: DEFAULT_ICON_SIZE, text: temp }
                }
            },
            None => ButtonContent::IconWithText { icon, icon_size: DEFAULT_ICON_SIZE, text: temp },
        },
        None => ButtonContent::SimpleText(temp),
    }
}

fn forecast_shown(day: usize, icons: &WeatherIcons, colorize: bool, mgr: &WeatherManager) -> (r:
    ButtonContent)
    ensures
        r@ == forecast_content(day, icon_entries(icons.icons@), colorize, mgr.weather@),
{
    let w = &mgr.weather;
    if day >= w.days.len() {
        return ButtonContent::SimpleText("--".to_owned());
    }
    let d = &w.days[day];
    assert(w@.days[day as int] == d@);
    let mut temps = d.tmax.nearest_text();
    temps.append("/");
    temps.append(d.tmin.nearest_text().as_str());
    temps.append(w.unit.as_str());
    let mut lines: Vec<String> = Vec::new();
    if !d.weekday.as_str().is_empty() {
        lines.push(d.weekday.clone());
    }
    lines.push(temps);
    if !d.desc.as_str().is_empty() {
        lines.push(d.desc.clone());
    }
    assert(texts(lines@) =~= forecast_lines(d@, w.unit@));
    match icons.pick(d.icon.as_str()) {
        Some((name, icon)) => match weather_icon_color(name.as_str()) {
            Some(icon_color) => {
                if colorize {
                    ButtonContent::ColoredIconWithMultilineText {
                        icon,
                        icon_size: DEFAULT_ICON_SIZE,
                        icon_color,
                        overlay_icon: None,
                        overlay_color: WHITE,
                        lines,
                        emphasize_first: true,
                    }
                } else {
                    ButtonContent::IconWithMultilineText {
                        icon,
                        icon_size: DEFAULT_ICON_SIZE,
                        lines,
                        emphasize_first: true,
                    }
                }
            },
            None => ButtonContent::IconWithMultilineText {
                icon,
                icon_size: DEFAULT_ICON_SIZE,
                lines,
                emphasize_first: true,
            },
        },
        None => ButtonContent::MultilineText(lines),
    }
}

fn shown_icon_or(icon: Option<u32>, text: &str) -> (r: ButtonContent)
    ensures
        r@ == icon_or(icon, text@),
{
    match icon {
        Some(i) => ButtonContent::Icon(i, DEFAULT_ICON_SIZE),
        None => ButtonContent::SimpleText(text.to_owned()),
    }
}

fn notification_shown(
    kind: NotificationButton,
    icon: Option<u32>,
    active_icon: Option<u32>,
    mgr: Option<&NotificationManager>,
) -> (r: ButtonContent)
    ensures
        r@ == notification_content(kind, icon, active_icon, mgr),
{
    match kind {
        NotificationButton::Count => match mgr {
            Some(m) => match icon {
                Some(icon) => ButtonContent::IconWithText {
                    icon,
                    icon_size: DEFAULT_ICON_SIZE,
                    text: m.count_text(),
                },
                None => ButtonContent::SimpleText(m.count_text()),
            },
            None => ButtonContent::Empty,
        },
        NotificationButton::Back => shown_icon_or(icon, "<-"),
        NotificationButton::Previous => shown_icon_or(icon, "<"),
        NotificationButton::Text => match mgr {
            Some(m) => ButtonContent::ClippedText(m.current_text()),
            None => ButtonContent::Empty,
        },
        NotificationButton::Next => shown_icon_or(icon, ">"),
        NotificationButton::Dnd => match mgr {
            Some(m) => {
                let shown = if m.dnd_enabled() && active_icon.is_some() {
                    active_icon
                } else {
                    icon
                };
                let text = m.dnd_text();
                shown_icon_or(shown, text.as_str())
            },
            None => ButtonContent::Empty,
        },
    }
}

impl Button {
    /// The smaller side of the button's icon.
    fn smaller_side(&self) -> (r: i32)
        ensures
            r == side(self@),
    {
        if self.icon_width <= self.icon_height {
            self.icon_width
        } else {
            self.icon_height
        }
    }

    /// What the button shows, given the present time in its format where it shows
    /// the time.
    pub fn content_at(
        &self,
        time: &str,
        sysinfo_mgr: Option<&SystemInfoManager>,
        weather_mgr: Option<&WeatherManager>,
        notification_mgr: Option<&NotificationManager>,
        charge: (u32, BatteryState),
        profile: &Option<String>,
    ) -> (r: ButtonContent)
        requires
            self@.wf(),
        ensures
            r@ == content(
                self@,
                time@,
                system_view(sysinfo_mgr),
                weather_view(weather_mgr),
                notification_mgr,
                charge,
                text_opt(*profile),
            ),
    {
        match &self.image {
            ButtonImage::Text(t) => ButtonContent::SimpleText(t.clone()),
            ButtonImage::LayerToggle(_, t) => ButtonContent::SimpleText(t.clone()),
            ButtonImage::Svg(i) => ButtonContent::Icon(*i, self.smaller_side()),
            ButtonImage::Bitmap(i) => ButtonContent::Bitmap(*i, self.icon_width, self.icon_height),
            ButtonImage::Time(_, _) => time_shown(self.stacked, time),
            ButtonImage::Battery(_, mode, icons, colorize) => battery_shown(
                self.stacked,
                *mode,
                icons,
                *colorize,
                charge,
                profile,
            ),
            ButtonImage::CpuUsage(icon, colorize) => match sysinfo_mgr {
                Some(m) => cpu_shown(self, *icon, *colorize, m.get_cpu_usage()),
                None => ButtonContent::Empty,
            },
            ButtonImage::MemoryUsage(icon, colorize) => match sysinfo_mgr {
                Some(m) => {
                    let (used, total) = m.get_memory_usage();
                    memory_shown(self, *icon, *colorize, used, total)
                },
                None => ButtonContent::Empty,
            },
            ButtonImage::ActiveWindow(icon, colorize) => match sysinfo_mgr {
                Some(m) => {
                    let (text, music) = m.get_titlebar_text();
                    match *icon {
                        Some(i) => if music {
                            ButtonContent::IconWithClippedText {
                                icon: i,
                                icon_color: now_playing_icon_color(*colorize),
                                text,
                            }
                        } else {
                            ButtonContent::ClippedText(text)
                        },
                        None => ButtonContent::ClippedText(text),
                    }
                },
                None => ButtonContent::Empty,
            },
            ButtonImage::ActiveWorkspace(icon, colorize) => match sysinfo_mgr {
                Some(m) => {
                    let workspace = m.get_active_workspace();
                    match *icon {
                        Some(i) => {
                            let text = if workspace.as_str().is_empty() {
                                "?".to_owned()
                            } else {
                                workspace
                            };
                            ButtonContent::IconWithCenteredText {
                                icon: i,
                                icon_color: workspace_icon_color(*colorize),
                                icon_size: self.smaller_side(),
                                text,
                            }
                        },
                        None => {
                            let mut s = "WS: ".to_owned();
                            s.append(workspace.as_str());
                            ButtonContent::SimpleText(s)
                        },
                    }
                },
                None => ButtonContent::Empty,
            },
            ButtonImage::Slider { state, icon, muted_icon, colorize } => {
                let percent = state.percent();
                ButtonContent::SliderBar {
                    fraction: state.value(),
                    muted: state.muted(),
                    percent,
                    icon_color: if *colorize {
                        slider_icon_color(state.kind(), percent)
                    } else {
                        None
                    },
                    icon: *icon,
                    muted_icon: *muted_icon,
                }
            },
            ButtonImage::WeatherCurrent(icons, colorize) => match weather_mgr {
                Some(m) => current_shown(icons, *colorize, m),
                None => ButtonContent::Empty,
            },
            ButtonImage::WeatherForecast(day, icons, colorize) => match weather_mgr {
                Some(m) => forecast_shown(*day, icons, *colorize, m),
                None => ButtonContent::Empty,
            },
            ButtonImage::Notification(kind, icon, active_icon) => notification_shown(
                *kind,
                *icon,
                *active_icon,
                notification_mgr,
            ),
            ButtonImage::Spacer => ButtonContent::Empty,
        }
    }

    /// What the button shows. There is nothing to show only where the present
    /// time cannot be written in the button's format.
    pub fn get_content(
        &self,
        sysinfo_mgr: Option<&SystemInfoManager>,
        weather_mgr: Option<&WeatherManager>,
        notification_mgr: Option<&NotificationManager>,
        ambient: &Ambient,
    ) -> (r: Option<ButtonContent>)
        requires
            self@.wf(),
        ensures
            match r {
                Some(c) => time_of(self@, ambient.now) is Some && c@ == content(
                    self@,
                    time_of(self@, ambient.now)->0,
                    system_view(sysinfo_mgr),
                    weather_view(weather_mgr),
                    notification_mgr,
                    ambient.charge,
                    text_opt(ambient.power_profile),
                ),
                None => time_of(self@, ambient.now) is None,
            },
    {
        let time = match &self.image {
            ButtonImage::Time(format, locale) => format_moment(
                ambient.now.secs,
                ambient.now.nanos,
                ambient.now.offset,
                format.as_str(),
                locale.as_str(),
            ),
            _ => Some(String::new()),
        };
        match time {
            Some(t) => {
                assert(text_opt(time) == time_of(self@, ambient.now));
                Some(
                    self.content_at(
                        t.as_str(),
                        sysinfo_mgr,
                        weather_mgr,
                        notification_mgr,
                        ambient.charge,
                        &ambient.power_profile,
                    ),
                )
            },
            None => None,
        }
    }
}

/// The lines of text in what a button shows.
pub open spec fn lines_shown(c: ContentView) -> Seq<Seq<char>> {
    match c {
        ContentView::SimpleText(text) => seq![text],
        ContentView::IconWithText { text, .. } => seq![text],
        ContentView::ColoredIconWithText { text, .. } => seq![text],
        ContentView::IconWithCenteredText { text, .. } => seq![text],
        ContentView::IconWithMultilineText { lines, .. } => lines,
        ContentView::ColoredIconWithMultilineText { lines, .. } => lines,
        ContentView::ClippedText(text) => seq![text],
        ContentView::IconWithClippedText { text, .. } => seq![text],
        ContentView::MultilineText(lines) => lines,
        _ => Seq::empty(),
    }
}

/// The icon in what a button shows, with its colour if it is given one.
pub open spec fn icon_shown(c: ContentView) -> Option<(u32, Option<Color>)> {
    match c {
        ContentView::Icon(icon, _) => Some((icon, None)),
        ContentView::IconWithText { icon, .. } => Some((icon, None)),
        ContentView::ColoredIconWithText { icon, icon_color, .. } => Some((icon, Some(icon_color))),
        ContentView::IconWithCenteredText { icon, icon_color, .. } => Some((icon, icon_color)),
        ContentView::IconWithMultilineText { icon, .. } => Some((icon, None)),
        ContentView::ColoredIconWithMultilineText { icon, icon_color, .. } => Some(
            (icon, Some(icon_color)),
        ),
        ContentView::IconWithClippedText { icon, icon_color, .. } => Some((icon, icon_color)),
        _ => None,
    }
}

/// The icon over the icon in what a button shows, with its colour.
pub open spec fn overlay_shown(c: ContentView) -> Option<(u32, Color)> {
    match c {
        ContentView::ColoredIconWithText { overlay_icon: Some(o), overlay_color, .. } => Some(
            (o, overlay_color),
        ),
        ContentView::ColoredIconWithMultilineText { overlay_icon: Some(o), overlay_color, .. } =>
        Some((o, overlay_color)),
        _ => None,
    }
}

/// The side of the icon in what a button shows.
pub open spec fn icon_side(c: ContentView) -> Option<i32> {
    match c {
        ContentView::Icon(_, size) => Some(size),
        ContentView::IconWithText { icon_size, .. } => Some(icon_size),
        ContentView::ColoredIconWithText { icon_size, .. } => Some(icon_size),
        ContentView::IconWithCenteredText { icon_size, .. } => Some(icon_size),
        ContentView::IconWithMultilineText { icon_size, .. } => Some(icon_size),
        ContentView::ColoredIconWithMultilineText { icon_size, .. } => Some(icon_size),
        _ => None,
    }
}

/// The smaller one of two numbers.
pub open spec fn is_smaller(n: i32, a: i32, b: i32) -> bool {
    n <= a && n <= b && (n == a || n == b)
}

/// A button with a text or a picture shows just that: the text as it is, the
/// drawing as large as its smaller side allows, the bitmap in its size. A toggle
/// shows its label, and a spacer nothing.
pub proof fn text_and_pictures_are_shown(
    b: ButtonView,
    time: Seq<char>,
    system: Option<SystemView>,
    weather: Option<WeatherView>,
    mgr: Option<&NotificationManager>,
    charge: (u32, BatteryState),
    profile: Option<Seq<char>>,
)
    ensures
        ({
            let c = content(b, time, system, weather, mgr, charge, profile);
            &&& b.image matches ImageView::Text(t) ==> c == ContentView::SimpleText(t)
            &&& b.image matches ImageView::LayerToggle(_, label) ==> c == ContentView::SimpleText(
                label,
            )
            &&& b.image matches ImageView::Svg(id) ==> {
                &&& c matches ContentView::Icon(icon, size)
                &&& icon == id
                &&& is_smaller(size, b.icon_width, b.icon_height)
            }
            &&& b.image matches ImageView::Bitmap(id) ==> c == ContentView::Bitmap(
                id,
                b.icon_width,
                b.icon_height,
            )
            &&& b.image is Spacer ==> c is Empty
        }),
{
}

/// What is not known is not shown: without a system, a weather or notifications,
/// their buttons are empty.
pub proof fn unknown_is_not_shown(
    b: ButtonView,
    time: Seq<char>,
    system: Option<SystemView>,
    weather: Option<WeatherView>,
    mgr: Option<&NotificationManager>,
    charge: (u32, BatteryState),
    profile: Option<Seq<char>>,
)
    ensures
        ({
            let c = content(b, time, system, weather, mgr, charge, profile);
            &&& system is None && (b.image is CpuUsage || b.image is MemoryUsage
                || b.image is ActiveWindow || b.image is ActiveWorkspace) ==> c is Empty
            &&& weather is None && (b.image is WeatherCurrent || b.image is WeatherForecast)
                ==> c is Empty
            &&& mgr is None && b.image is Notification ==> c is Empty || c is Icon || c
                is SimpleText
        }),
{
}

/// The largest charge for each of a battery's icons, from the emptiest to the
/// fullest.
pub open spec fn plain_limits() -> Seq<int> {
    seq![0, 20, 30, 50, 60, 80, 99, u32::MAX as int]
}

/// The largest charge for each of a charging battery's icons.
pub open spec fn charging_limits() -> Seq<int> {
    seq![20, 30, 50, 60, 80, 99, u32::MAX as int]
}

/// An icon is the one whose charge is the least that is not exceeded.
pub open spec fn fits_step(icon: u32, icons: Seq<u32>, limits: Seq<int>, charge: u32) -> bool {
    exists|k: int|
        0 <= k < limits.len() && icon == #[trigger] icons[k] && charge <= limits[k] && (k > 0
            ==> charge > limits[k - 1])
}

/// The icon of a battery follows its charge: among those with a sign for charging
/// while it charges and is not coloured, and else among the plain ones. Without an
/// icon in its option it shows a bolt, and that only while it charges.
pub proof fn battery_icon_follows_charge(
    b: ButtonView,
    time: Seq<char>,
    system: Option<SystemView>,
    weather: Option<WeatherView>,
    mgr: Option<&NotificationManager>,
    charge: (u32, BatteryState),
    profile: Option<Seq<char>>,
)
    requires
        b.wf(),
    ensures
        b.image matches ImageView::Battery(_, mode, icons, colorize) ==> {
            let c = content(b, time, system, weather, mgr, charge, profile);
            let charging = charge.1 == BatteryState::Charging;
            &&& mode != BatteryIconMode::Percentage ==> {
                &&& icon_shown(c) is Some
                &&& charging && !colorize ==> fits_step(
                    (icon_shown(c)->0).0,
                    icons.charging,
                    charging_limits(),
                    charge.0,
                )
                &&& !charging || colorize ==> fits_step(
                    (icon_shown(c)->0).0,
                    icons.plain,
                    plain_limits(),
                    charge.0,
                )
            }
            &&& mode == BatteryIconMode::Percentage ==> if charging {
                icon_shown(c) is Some && (icon_shown(c)->0).0 == icons.bolt
            } else {
                icon_shown(c) is None
            }
            &&& icon_shown(c) is Some ==> icon_side(c) == Some(48i32)
        },
{
    match b.image {
        ImageView::Battery(_, mode, icons, colorize) => {
            let p = plain_step(charge.0);
            let q = charging_step(charge.0);
            assert(0 <= p < 8 && icons.plain[p] == icons.plain[p]);
            assert(0 <= q < 7 && icons.charging[q] == icons.charging[q]);
            assert(charge.0 <= plain_limits()[p] && (p > 0 ==> charge.0 > plain_limits()[p - 1]));
            assert(charge.0 <= charging_limits()[q] && (q > 0 ==> charge.0 > charging_limits()[q
                - 1]));
            assert(fits_step(icons.plain[p], icons.plain, plain_limits(), charge.0));
            assert(fits_step(icons.charging[q], icons.charging, charging_limits(), charge.0));
        },
        _ => {},
    }
}

/// A battery's text begins with its charge in per cent; the power profile stands
/// behind it, or on a line of its own. A battery that shows its icon alone has
/// none.
pub proof fn battery_text_gives_charge(
    b: ButtonView,
    time: Seq<char>,
    system: Option<SystemView>,
    weather: Option<WeatherView>,
    mgr: Option<&NotificationManager>,
    charge: (u32, BatteryState),
    profile: Option<Seq<char>>,
)
    ensures
        b.image matches ImageView::Battery(_, mode, icons, colorize) ==> {
            let c = content(b, time, system, weather, mgr, charge, profile);
            let percent = decimal(charge.0 as nat) + seq!['%'];
            if mode == BatteryIconMode::Icon {
                lines_shown(c).len() == 0
            } else {
                match profile {
                    Some(p) => if !b.stacked {
                        lines_shown(c) == seq![percent + seq![' '] + p]
                    } else if p.len() == 0 {
                        lines_shown(c) == seq![percent]
                    } else if icon_shown(c) is Some {
                        lines_shown(c) == seq![percent, p]
                    } else {
                        lines_shown(c) == seq![percent + seq![' '] + p]
                    },
                    None => lines_shown(c) == seq![percent],
                }
            }
        },
{
    reveal_strlit("%");
    reveal_strlit(" ");
    assert("%"@ =~= seq!['%']);
    assert(" "@ =~= seq![' ']);
    let lines = battery_lines(charge.0, profile);
    if lines.len() == 2 {
        assert(lines.subrange(0, 1) =~= seq![lines[0]]);
        assert(joined(lines.subrange(0, 1), " "@) == lines[0]);
        assert(joined(lines, " "@) == lines[0] + " "@ + lines[1]);
    }
}

/// Only a coloured battery has a colour: red up to a tenth, then purple, orange
/// and blue up to a quarter, a half and three quarters, and green above; while it
/// charges a yellow bolt lies over it.
pub proof fn battery_colour_follows_charge(
    b: ButtonView,
    time: Seq<char>,
    system: Option<SystemView>,
    weather: Option<WeatherView>,
    mgr: Option<&NotificationManager>,
    charge: (u32, BatteryState),
    profile: Option<Seq<char>>,
)
    ensures
        b.image matches ImageView::Battery(_, mode, icons, colorize) ==> {
            let c = content(b, time, system, weather, mgr, charge, profile);
            let text = mode != BatteryIconMode::Icon;
            &&& icon_shown(c) matches Some(i) ==> i.1 == if !colorize || !text {
                None
            } else if charge.0 <= 10 {
                Some(crate::button::RED)
            } else if charge.0 <= 25 {
                Some(PURPLE)
            } else if charge.0 <= 50 {
                Some(crate::button::ORANGE)
            } else if charge.0 <= 75 {
                Some(crate::button::BLUE)
            } else {
                Some(GREEN)
            }
            &&& overlay_shown(c) == if colorize && text && charge.1 == BatteryState::Charging {
                Some((icons.bolt, YELLOW))
            } else {
                None
            }
        },
{
}

/// The colour for a usage that is at most so many per cent.
pub open spec fn usage_step(share: int, one: int) -> Color {
    if share <= 10 * one {
        WHITE
    } else if share <= 25 * one {
        YELLOW
    } else if share <= 55 * one {
        crate::button::ORANGE
    } else if share <= 75 * one {
        PURPLE
    } else {
        crate::button::RED
    }
}

/// The processor usage is shown to the nearest per cent beside an icon, and to the
/// nearest tenth of it behind its name where there is none; a coloured icon has
/// the colour for the usage itself.
pub proof fn processor_usage_is_shown(
    b: ButtonView,
    s: SystemView,
    time: Seq<char>,
    weather: Option<WeatherView>,
    mgr: Option<&NotificationManager>,
    charge: (u32, BatteryState),
    profile: Option<Seq<char>>,
)
    ensures
        b.image matches ImageView::CpuUsage(icon, colorize) ==> {
            let c = content(b, time, Some(s), weather, mgr, charge, profile);
            let one: int = 4_294_967_296;
            match icon {
                Some(i) => {
                    &&& icon_shown(c) == Some(
                        (
                            i,
                            if colorize {
                                Some(usage_step(s.cpu_usage as int, one))
                            } else {
                                None
                            },
                        ),
                    )
                    &&& icon_side(c) is Some
                    &&& is_smaller(icon_side(c)->0, b.icon_width, b.icon_height)
                    &&& overlay_shown(c) is None
                    &&& exists|n: nat|
                        lines_shown(c) == seq![#[trigger] decimal(n) + seq!['%']] && -one <= 2 * (n
                            * one - s.cpu_usage) <= one
                },
                None => {
                    &&& icon_shown(c) is None
                    &&& exists|n: nat|
                        lines_shown(c) == seq![
                            seq!['C', 'P', 'U', ' '] + #[trigger] tenths(n) + seq!['%'],
                        ] && -one <= 2 * (n * one - 10 * s.cpu_usage) <= one
                },
            }
        },
{
    reveal_strlit("%");
    reveal_strlit("CPU ");
    assert("%"@ =~= seq!['%']);
    assert("CPU "@ =~= seq!['C', 'P', 'U', ' ']);
    let one = CPU_ONE as nat;
    let n = half_even(s.cpu_usage as nat, one);
    let t = half_even(s.cpu_usage as nat * 10, one);
    half_even_is_nearest(s.cpu_usage as nat, one);
    half_even_is_nearest(s.cpu_usage as nat * 10, one);
    rounded_up_is_least(s.cpu_usage as nat, one);
    assert(decimal(n) + seq!['%'] == percents(n));
    assert(tenths(t) == tenths(t));
}

/// An amount of memory as it is written: to the nearest tenth of a gibibyte.
pub open spec fn is_gibibytes(text: Seq<char>, bytes: u64) -> bool {
    exists|n: nat|
        text == #[trigger] tenths(n) && -1_073_741_824 <= 2 * (n * 1_073_741_824 - 10 * as_double(
            bytes,
        )) <= 1_073_741_824
}

/// The memory in use and all of it are shown in gibibytes, in this order: beside
/// an icon on one line, or on two if they are stacked, and behind their name where
/// there is no icon.
pub proof fn memory_usage_is_shown(
    b: ButtonView,
    s: SystemView,
    time: Seq<char>,
    weather: Option<WeatherView>,
    mgr: Option<&NotificationManager>,
    charge: (u32, BatteryState),
    profile: Option<Seq<char>>,
)
    ensures
        b.image matches ImageView::MemoryUsage(icon, colorize) ==> {
            let c = content(b, time, Some(s), weather, mgr, charge, profile);
            exists|used: Seq<char>, total: Seq<char>|
                {
                    &&& #[trigger] is_gibibytes(used, s.memory_usage)
                    &&& #[trigger] is_gibibytes(total, s.memory_total)
                    &&& match icon {
                        Some(i) => {
                            &&& icon_shown(c) is Some && (icon_shown(c)->0).0 == i
                            &&& icon_side(c) is Some
                            &&& is_smaller(icon_side(c)->0, b.icon_width, b.icon_height)
                            &&& overlay_shown(c) is None
                            &&& lines_shown(c) == if b.stacked {
                                seq![
                                    seq!['u', 's', 'e', 'd', ':', ' '] + used + seq!['G'],
                                    seq!['t', 'o', 't', 'a', 'l', ':', ' '] + total + seq!['G'],
                                ]
                            } else {
                                seq![used + seq!['/'] + total + seq!['G']]
                            }
                        },
                        None => icon_shown(c) is None && lines_shown(c) == seq![
                            seq!['M', 'E', 'M', ' '] + used + seq!['G', '/'] + total + seq!['G'],
                        ],
                    }
                }
        },
{
    reveal_strlit("used: ");
    reveal_strlit("total: ");
    reveal_strlit("G");
    reveal_strlit("G/");
    reveal_strlit("/");
    reveal_strlit("MEM ");
    assert("used: "@ =~= seq!['u', 's', 'e', 'd', ':', ' ']);
    assert("total: "@ =~= seq!['t', 'o', 't', 'a', 'l', ':', ' ']);
    assert("G"@ =~= seq!['G']);
    assert("G/"@ =~= seq!['G', '/']);
    assert("/"@ =~= seq!['/']);
    assert("MEM "@ =~= seq!['M', 'E', 'M', ' ']);
    half_even_is_nearest(as_double(s.memory_usage) * 10, GIB as nat);
    half_even_is_nearest(as_double(s.memory_total) * 10, GIB as nat);
    let used = gigabytes(s.memory_usage);
    let total = gigabytes(s.memory_total);
    assert(is_gibibytes(used, s.memory_usage)) by {
        let n = half_even(as_double(s.memory_usage) * 10, GIB as nat);
        assert(used == tenths(n));
    }
    assert(is_gibibytes(total, s.memory_total)) by {
        let n = half_even(as_double(s.memory_total) * 10, GIB as nat);
        assert(total == tenths(n));
    }
}

proof fn lemma_side_of_step(used: u64, total: u64, s: UsageStep, percent: int)
    requires
        used < 9_007_199_254_740_992,
        0 < total < 9_007_199_254_740_992,
        s.percent() == percent,
    ensures
        1_000_000_000_000_000 * (100 * used) <= percent * (999_999_999_999_999 * total)
            ==> usage_within(used, total, s),
        percent * (1_000_000_000_000_001 * total) <= 1_000_000_000_000_000 * (100 * used)
            ==> !usage_within(used, total, s),
{
    usage_follows_the_quotient(used, total, s);
    assert(999_999_999_999_999 * (percent * total) == percent * (999_999_999_999_999 * total))
        by (nonlinear_arith);
    assert(1_000_000_000_000_001 * (percent * total) == percent * (1_000_000_000_000_001 * total))
        by (nonlinear_arith);
}

/// A coloured memory icon beside one line has the colour for the part of the
/// memory that is in use, wherever that is clearly on one side of a step.
pub proof fn memory_colour_follows_usage(
    b: ButtonView,
    s: SystemView,
    time: Seq<char>,
    weather: Option<WeatherView>,
    mgr: Option<&NotificationManager>,
    charge: (u32, BatteryState),
    profile: Option<Seq<char>>,
)
    requires
        s.memory_usage < 9_007_199_254_740_992,
        0 < s.memory_total < 9_007_199_254_740_992,
    ensures
        b.image matches ImageView::MemoryUsage(icon, colorize) ==> icon is Some ==> {
            let c = content(b, time, Some(s), weather, mgr, charge, profile);
            let tint = (icon_shown(c)->0).1;
            let share = 1_000_000_000_000_000 * (100 * s.memory_usage);
            let low = 999_999_999_999_999 * s.memory_total;
            let high = 1_000_000_000_000_001 * s.memory_total;
            &&& !colorize || b.stacked ==> tint is None
            &&& colorize && !b.stacked ==> {
                &&& share <= 10 * low ==> tint == Some(WHITE)
                &&& 10 * high <= share <= 25 * low ==> tint == Some(YELLOW)
                &&& 25 * high <= share <= 55 * low ==> tint == Some(crate::button::ORANGE)
                &&& 55 * high <= share <= 75 * low ==> tint == Some(PURPLE)
                &&& 75 * high <= share ==> tint == Some(crate::button::RED)
            }
        },
{
    let (used, total) = (s.memory_usage, s.memory_total);
    lemma_side_of_step(used, total, UsageStep::UpTo10, 10);
    lemma_side_of_step(used, total, UsageStep::UpTo25, 25);
    lemma_side_of_step(used, total, UsageStep::UpTo55, 55);
    lemma_side_of_step(used, total, UsageStep::UpTo75, 75);
    let share = 1_000_000_000_000_000 * (100 * used);
    let low = 999_999_999_999_999 * total;
    let high = 1_000_000_000_000_001 * total;
    let tint = usage_tint(memory_percent(used, total));
    assert(share <= 10 * low ==> tint == WHITE);
    assert(10 * high <= share <= 25 * low ==> tint == YELLOW);
    assert(25 * high <= share <= 55 * low ==> tint == crate::button::ORANGE);
    assert(55 * high <= share <= 75 * low ==> tint == PURPLE);
    assert(75 * high <= share ==> tint == crate::button::RED);
}

/// The active window's button shows the music with its icon, green if it is
/// coloured, while music plays and is to be shown, and else the window's title;
/// the workspace's shows the workspace over its icon, and a question mark for
/// none.
pub proof fn desktop_is_shown(
    b: ButtonView,
    s: SystemView,
    time: Seq<char>,
    weather: Option<WeatherView>,
    mgr: Option<&NotificationManager>,
    charge: (u32, BatteryState),
    profile: Option<Seq<char>>,
)
    ensures
        ({
            let c = content(b, time, Some(s), weather, mgr, charge, profile);
            let music = s.show_now_playing && s.now_playing.len() > 0;
            &&& b.image matches ImageView::ActiveWindow(icon, colorize) ==> {
                &&& c is ClippedText || c is IconWithClippedText
                &&& music ==> lines_shown(c) == seq![s.now_playing]
                &&& !music ==> lines_shown(c) == seq![s.active_window]
                &&& icon_shown(c) == match icon {
                    Some(i) => if !music {
                        None
                    } else if colorize {
                        Some((i, Some(GREEN)))
                    } else {
                        Some((i, None))
                    },
                    None => None,
                }
            }
            &&& b.image matches ImageView::ActiveWorkspace(icon, colorize) ==> match icon {
                Some(i) => {
                    &&& c is IconWithCenteredText
                    &&& icon_shown(c) == Some(
                        (
                            i,
                            if colorize {
                                Some(PURPLE)
                            } else {
                                None
                            },
                        ),
                    )
                    &&& icon_side(c) is Some
                    &&& is_smaller(icon_side(c)->0, b.icon_width, b.icon_height)
                    &&& lines_shown(c) == if s.active_workspace.len() > 0 {
                        seq![s.active_workspace]
                    } else {
                        seq![seq!['?']]
                    }
                },
                None => c == ContentView::SimpleText(
                    seq!['W', 'S', ':', ' '] + s.active_workspace,
                ),
            }
        }),
{
    reveal_strlit("?");
    reveal_strlit("WS: ");
    assert("?"@ =~= seq!['?']);
    assert("WS: "@ =~= seq!['W', 'S', ':', ' ']);
}

/// A slider's button shows the slider as it stands, with the whole number of per
/// cent that is nearest to it, and both of its icons. Its icon is coloured if it
/// is to be, except for the volume: white at nothing, the more orange the
/// brighter.
pub proof fn slider_is_shown_as_it_stands(
    b: ButtonView,
    time: Seq<char>,
    system: Option<SystemView>,
    weather: Option<WeatherView>,
    mgr: Option<&NotificationManager>,
    charge: (u32, BatteryState),
    profile: Option<Seq<char>>,
)
    requires
        b.wf(),
    ensures
        b.image matches ImageView::Slider { state, icon, muted_icon, colorize } ==> {
            let c = content(b, time, system, weather, mgr, charge, profile);
            &&& c matches ContentView::SliderBar {
                fraction,
                muted,
                percent,
                icon_color,
                icon: i,
                muted_icon: m,
            }
            &&& fraction == state.value
            &&& muted == state.muted
            &&& -1_000_000_000 < 2 * (percent * 1_000_000_000 - 100 * state.value)
                <= 1_000_000_000
            &&& i == icon
            &&& m == muted_icon
            &&& icon_color is Some <==> colorize && state.kind
                != crate::slider::SliderKind::Volume
            &&& icon_color matches Some(color) ==> {
                &&& color.0 == 10_000
                &&& color.1 + 55 * percent == 10_000
                &&& color.2 + 100 * percent == 10_000
            }
        },
{
    match b.image {
        ImageView::Slider { state, .. } => {
            crate::number::half_up_is_nearest(
                (state.value * 100) as nat,
                crate::number::ONE as nat,
            );
            let n = percent_of(state.value as int);
            assert(n <= 100);
        },
        _ => {},
    }
}

/// The weather icon that is shown: the one of that name, or the one for clouds
/// where there is none, coloured yellow if it is to be and shows the sun or the
/// moon.
pub open spec fn shows_weather_icon(
    c: ContentView,
    icons: Seq<(Seq<char>, u32)>,
    name: Seq<char>,
    colorize: bool,
) -> bool {
    let found = match icon_named(icons, name) {
        Some(i) => Some(i),
        None => icon_named(icons, "weather_cloudy"@),
    };
    match found {
        Some(i) => icon_side(c) == Some(48i32) && overlay_shown(c) is None && icon_shown(c) == Some(
            (
                i.1,
                if colorize && (i.0 == "weather_sunny"@ || i.0 == "weather_moon"@) {
                    Some(YELLOW)
                } else {
                    None
                },
            ),
        ),
        None => icon_shown(c) is None,
    }
}

/// The weather of now is shown as its temperature without decimals, with its
/// unit, beside its icon; two dashes stand for a temperature that is missing, and
/// three dots for weather that is.
pub proof fn weather_of_now_is_shown(
    b: ButtonView,
    w: WeatherView,
    time: Seq<char>,
    system: Option<SystemView>,
    mgr: Option<&NotificationManager>,
    charge: (u32, BatteryState),
    profile: Option<Seq<char>>,
)
    ensures
        b.image matches ImageView::WeatherCurrent(icons, colorize) ==> {
            let c = content(b, time, system, Some(w), mgr, charge, profile);
            if w.available {
                &&& shows_weather_icon(c, icons, w.current_icon, colorize)
                &&& match w.current_temp {
                    Some(t) => exists|q: nat|
                        {
                            &&& -1_000_000_000 <= 2 * (q * 1_000_000_000 - t.amount)
                                <= 1_000_000_000
                            &&& lines_shown(c) == seq![
                                if t.negative {
                                    seq!['-'] + #[trigger] decimal(q)
                                } else {
                                    decimal(q)
                                } + w.unit,
                            ]
                        },
                    None => lines_shown(c) == seq![seq!['-', '-']],
                }
            } else {
                c == ContentView::SimpleText(seq!['…'])
            }
        },
{
    reveal_strlit("…");
    reveal_strlit("--");
    assert("…"@ =~= seq!['…']);
    assert("--"@ =~= seq!['-', '-']);
    match w.current_temp {
        Some(t) => {
            whole_keeps_the_sign(t);
        },
        None => {},
    }
}

/// A day's forecast gives the weekday where it is known, then the highest
/// temperature, a slash, the lowest one and the unit, each temperature rounded to
/// the nearest whole number, then the condition where it is known; beside the
/// day's icon, if there is one, with a first line that stands out. A day that
/// there is no forecast for shows two dashes.
pub proof fn forecast_gives_highest_and_lowest(
    b: ButtonView,
    w: WeatherView,
    time: Seq<char>,
    system: Option<SystemView>,
    mgr: Option<&NotificationManager>,
    charge: (u32, BatteryState),
    profile: Option<Seq<char>>,
)
    ensures
        b.image matches ImageView::WeatherForecast(day, icons, colorize) ==> {
            let c = content(b, time, system, Some(w), mgr, charge, profile);
            if day < w.days.len() {
                let d = w.days[day as int];
                let lines = lines_shown(c);
                let k = if d.weekday.len() > 0 {
                    1int
                } else {
                    0
                };
                &&& shows_weather_icon(c, icons, d.icon, colorize)
                &&& k == 1 ==> lines[0] == d.weekday
                &&& lines.len() == k + if d.desc.len() > 0 {
                    2int
                } else {
                    1
                }
                &&& exists|high: int, low: int|
                    #![trigger is_rounded(high, billionths(d.tmax)), is_rounded(low, billionths(d.tmin))]
                    {
                        &&& is_rounded(high, billionths(d.tmax))
                        &&& is_rounded(low, billionths(d.tmin))
                        &&& lines[k] == written(high) + seq!['/'] + written(low) + w.unit
                    }
                &&& d.desc.len() > 0 ==> lines[k + 1] == d.desc
                &&& c matches ContentView::IconWithMultilineText { emphasize_first, .. }
                    ==> emphasize_first
                &&& c matches ContentView::ColoredIconWithMultilineText { emphasize_first, .. }
                    ==> emphasize_first
            } else {
                c == ContentView::SimpleText(seq!['-', '-'])
            }
        },
{
    reveal_strlit("/");
    reveal_strlit("--");
    assert("/"@ =~= seq!['/']);
    assert("--"@ =~= seq!['-', '-']);
    match b.image {
        ImageView::WeatherForecast(day, icons, colorize) => {
            if day < w.days.len() {
                let d = w.days[day as int];
                nearest_is_rounded(d.tmax);
                nearest_is_rounded(d.tmin);
                assert(is_rounded(nearest(d.tmax), billionths(d.tmax)));
                assert(is_rounded(nearest(d.tmin), billionths(d.tmin)));
            }
        },
        _ => {},
    }
}

/// A button that counts notifications shows how many there are, one with the text
/// shows that of the one on show, and one for not being disturbed shows whether
/// that is on: by its second icon, if it has one, or in words if it has none.
pub proof fn notifications_are_shown(
    b: ButtonView,
    m: &NotificationManager,
    time: Seq<char>,
    system: Option<SystemView>,
    weather: Option<WeatherView>,
    charge: (u32, BatteryState),
    profile: Option<Seq<char>>,
)
    ensures
        b.image matches ImageView::Notification(kind, icon, active) ==> {
            let c = content(b, time, system, weather, Some(m), charge, profile);
            let plain = match icon {
                Some(i) => Some((i, None::<Color>)),
                None => None,
            };
            match kind {
                NotificationButton::Count => lines_shown(c) == seq![decimal(m.list().len())]
                    && icon_shown(c) == plain,
                NotificationButton::Text => c == ContentView::ClippedText(
                    match m.current() {
                        Some(n) => notification_text(n),
                        None => "No notifications"@,
                    },
                ),
                NotificationButton::Back => icon_shown(c) == plain && lines_shown(c) == match icon {
                    Some(_) => Seq::empty(),
                    None => seq![seq!['<', '-']],
                },
                NotificationButton::Previous => icon_shown(c) == plain && lines_shown(c)
                    == match icon {
                    Some(_) => Seq::empty(),
                    None => seq![seq!['<']],
                },
                NotificationButton::Next => icon_shown(c) == plain && lines_shown(c) == match icon {
                    Some(_) => Seq::empty(),
                    None => seq![seq!['>']],
                },
                NotificationButton::Dnd => {
                    let i = if m.dnd() && active is Some {
                        active
                    } else {
                        icon
                    };
                    &&& i matches Some(n) ==> c == ContentView::Icon(n, 48)
                    &&& i is None ==> c == ContentView::SimpleText(
                        if m.dnd() {
                            "DnD on"@
                        } else {
                            "DnD off"@
                        },
                    )
                },
            }
        },
{
    reveal_strlit("<-");
    reveal_strlit("<");
    reveal_strlit(">");
    assert("<-"@ =~= seq!['<', '-']);
    assert("<"@ =~= seq!['<']);
    assert(">"@ =~= seq!['>']);
}

/// A time whose two groups stand four spaces apart is shown as two lines if it is
/// stacked, and as it is if it is not.
pub proof fn stacked_time_has_a_line_for_each_group(
    b: ButtonView,
    first: Seq<char>,
    second: Seq<char>,
    system: Option<SystemView>,
    weather: Option<WeatherView>,
    mgr: Option<&NotificationManager>,
    charge: (u32, BatteryState),
    profile: Option<Seq<char>>,
)
    requires
        b.image is Time,
        first.len() > 0,
        second.len() > 0,
        single_spaced(first),
        single_spaced(second),
        !is_space(first[0]) && !is_space(first.last()),
        !is_space(second[0]) && !is_space(second.last()),
    ensures
        ({
            let time = first + seq![' ', ' ', ' ', ' '] + second;
            let c = content(b, time, system, weather, mgr, charge, profile);
            &&& b.stacked ==> c == ContentView::MultilineText(seq![first, second])
            &&& !b.stacked ==> c == ContentView::SimpleText(time)
        }),
{
    let time = first + seq![' ', ' ', ' ', ' '] + second;
    wide_gap_splits(first, second);
    let none = Seq::<char>::empty();
    let parts = wide_fields(time).map_values(|f: Seq<char>| trimmed(f));
    assert(trimmed(first) == first);
    assert(trimmed(second) == second);
    assert(trimmed(none) == none);
    assert(parts =~= seq![first, none, second]);
    reveal_with_fuel(non_empty, 4);
    assert(parts.subrange(0, 2) =~= seq![first, none]);
    assert(seq![first, none].subrange(0, 1) =~= seq![first]);
    assert(seq![first].subrange(0, 0) =~= Seq::<Seq<char>>::empty());
    assert(non_empty(parts) =~= seq![first, second]);
}

/// A time in a single group is shown as it is, stacked or not.
pub proof fn single_group_is_shown_as_it_is(
    b: ButtonView,
    time: Seq<char>,
    system: Option<SystemView>,
    weather: Option<WeatherView>,
    mgr: Option<&NotificationManager>,
    charge: (u32, BatteryState),
    profile: Option<Seq<char>>,
)
    requires
        b.image is Time,
        single_spaced(time),
    ensures
        content(b, time, system, weather, mgr, charge, profile) == ContentView::SimpleText(time),
{
    single_spaced_is_one_field(time);
    let parts = wide_fields(time).map_values(|f: Seq<char>| trimmed(f));
    assert(parts =~= seq![trimmed(time)]);
    reveal_with_fuel(non_empty, 2);
    assert(parts.subrange(0, 0) =~= Seq::<Seq<char>>::empty());
    assert(non_empty(parts).len() <= 1);
}

} // verus!
