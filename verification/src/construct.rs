//! How buttons are built from their descriptions.

use vstd::prelude::*;
use vstd::string::*;

use crate::button::{
    icons_loaded, normal_time_option, normalize_time_option, notification_button_alias,
    notification_named, weather_icon_names, BatteryIconMode, BatteryImages, BatteryImagesView,
    Button, ButtonImage, ButtonView, ImageView, NotificationButton, WeatherIcons,
};
use crate::clock::{is_locale, known_locale, strftime_items, time_items};
use crate::command::text_opt;
use crate::config::{copy_keys, named, ButtonConfig, ButtonConfigView};
use crate::image::{
    drawing, icon_request, requests, svg, ImageRequest, Images, Loaded, RequestView,
    DEFAULT_ICON_SIZE,
};
use crate::slider::{
    brightness_is_read_as_its_part, number_in, read_u32, slider_kind_named, Reading, Slider, SliderKind,
};
use crate::text::{decimal, decimal_is_read_back, line_of_digits_is_trimmed, same, texts};

verus! {

/// A backlight: its path, and the contents of its files, as far as they could be
/// read.
pub struct Backlight {
    pub path: String,
    pub max_brightness: Option<String>,
    pub brightness: Option<String>,
}

/// What was found of the hardware, and when, in nanoseconds.
pub struct Hardware {
    pub battery: Option<String>,
    pub display: Option<Backlight>,
    pub keyboard: Option<Backlight>,
    pub volume: Option<(i64, bool)>,
    pub now: u64,
}

/// The kinds of buttons that a description can stand for.
#[derive(Clone, Copy, PartialEq, Eq, Structural, Debug)]
pub enum ButtonKind {
    Notification(NotificationButton),
    Slider,
    Weather,
    Time,
    PulloutToggle,
    Text,
    Battery,
    Cpu,
    Memory,
    ActiveWindow,
    ActiveWorkspace,
    Icon,
    LayerToggle,
    Spacer,
}

/// Whether a button has one of two names.
pub open spec fn is_named(c: ButtonConfigView, one: Seq<char>, other: Seq<char>) -> bool {
    c.button == Some(one) || c.button == Some(other)
}

/// The kind of button that a description stands for. What comes first in this
/// order decides.
pub open spec fn kind_of(c: ButtonConfigView) -> ButtonKind {
    let notification = match c.button {
        Some(b) => notification_named(b),
        None => None,
    };
    if notification is Some {
        ButtonKind::Notification(notification->0)
    } else if is_named(c, "Slider"@, "slider"@) {
        ButtonKind::Slider
    } else if is_named(c, "Weather"@, "weather"@) {
        ButtonKind::Weather
    } else if is_named(c, "Time"@, "time"@) {
        ButtonKind::Time
    } else if c.button == Some("pullout_toggle"@) {
        ButtonKind::PulloutToggle
    } else if c.text is Some {
        ButtonKind::Text
    } else if is_named(c, "Battery"@, "battery"@) {
        ButtonKind::Battery
    } else if is_named(c, "CpuUsage"@, "CPU"@) || c.button == Some("cpu"@) {
        ButtonKind::Cpu
    } else if is_named(c, "MemoryUsage"@, "Memory"@) || c.button == Some("memory"@) {
        ButtonKind::Memory
    } else if is_named(c, "ActiveWindow"@, "active_window"@) {
        ButtonKind::ActiveWindow
    } else if is_named(c, "ActiveWorkspace"@, "active_workspace"@) {
        ButtonKind::ActiveWorkspace
    } else if c.icon is Some {
        ButtonKind::Icon
    } else if c.layer_toggle is Some {
        ButtonKind::LayerToggle
    } else {
        ButtonKind::Spacer
    }
}

/// Tells what kind of button a description stands for.
pub fn button_kind(c: &ButtonConfig) -> (r: ButtonKind)
    ensures
        r == kind_of(c@),
{
    let notification = match &c.button {
        Some(b) => notification_button_alias(b.as_str()),
        None => None,
    };
    match notification {
        Some(kind) => {
            return ButtonKind::Notification(kind);
        },
        None => {},
    }
    if named(&c.button, "Slider", "slider") {
        ButtonKind::Slider
    } else if named(&c.button, "Weather", "weather") {
        ButtonKind::Weather
    } else if named(&c.button, "Time", "time") {
        ButtonKind::Time
    } else if named(&c.button, "pullout_toggle", "pullout_toggle") {
        ButtonKind::PulloutToggle
    } else if c.text.is_some() {
        ButtonKind::Text
    } else if named(&c.button, "Battery", "battery") {
        ButtonKind::Battery
    } else if named(&c.button, "CpuUsage", "CPU") || named(&c.button, "cpu", "cpu") {
        ButtonKind::Cpu
    } else if named(&c.button, "MemoryUsage", "Memory") || named(&c.button, "memory", "memory") {
        ButtonKind::Memory
    } else if named(&c.button, "ActiveWindow", "active_window") {
        ButtonKind::ActiveWindow
    } else if named(&c.button, "ActiveWorkspace", "active_workspace") {
        ButtonKind::ActiveWorkspace
    } else if c.icon.is_some() {
        ButtonKind::Icon
    } else if c.layer_toggle.is_some() {
        ButtonKind::LayerToggle
    } else {
        ButtonKind::Spacer
    }
}

/// A button that shows an image and does nothing.
pub open spec fn bare(image: ImageView) -> ButtonView {
    ButtonView {
        image,
        changed: false,
        active: false,
        action: Seq::empty(),
        command: None,
        icon_width: 0,
        icon_height: 0,
        stacked: false,
        font_size: None,
        max_title_length: None,
        toggle_target: None,
        hold_started: None,
    }
}

/// A text or another.
pub open spec fn or_else(a: Option<Seq<char>>, b: Seq<char>) -> Seq<char> {
    match a {
        Some(t) => t,
        None => b,
    }
}

/// The width and the height of a button's icon.
pub open spec fn icon_width(c: ButtonConfigView) -> i32 {
    match c.icon_width {
        Some(w) => w,
        None => DEFAULT_ICON_SIZE,
    }
}

pub open spec fn icon_height(c: ButtonConfigView) -> i32 {
    match c.icon_height {
        Some(h) => h,
        None => DEFAULT_ICON_SIZE,
    }
}

/// The icon of a notification button where none is set.
pub open spec fn default_icon(kind: NotificationButton) -> Option<Seq<char>> {
    if kind == NotificationButton::Count {
        Some("mail"@)
    } else if kind == NotificationButton::Dnd {
        Some("bell-ring"@)
    } else {
        None
    }
}

/// The icon of an active notification button where none is set.
pub open spec fn default_active_icon(kind: NotificationButton) -> Option<Seq<char>> {
    if kind == NotificationButton::Dnd {
        Some("bell-off"@)
    } else {
        None
    }
}

/// A setting, or what stands for it where it is not set.
pub open spec fn set_or(a: Option<Seq<char>>, b: Option<Seq<char>>) -> Option<Seq<char>> {
    if a is Some {
        a
    } else {
        b
    }
}

/// The drawing of an icon that may not be set.
pub open spec fn icon_opt(name: Option<Seq<char>>, c: ButtonConfigView, images: Images) -> Option<
    u32,
> {
    match name {
        Some(n) => images.icon(n, c.theme),
        None => None,
    }
}

/// The icons of a slider: its own, and that for when it is muted.
pub open spec fn slider_icon_name(kind: SliderKind) -> Seq<char> {
    match kind {
        SliderKind::DisplayBrightness => "brightness_low"@,
        SliderKind::KeyboardBacklight => "backlight_low"@,
        SliderKind::Volume => "volume_down"@,
    }
}

/// A slider for the hardware that was found, at its present value.
pub open spec fn slider_found(kind: SliderKind, hw: Hardware) -> Slider {
    match kind {
        SliderKind::Volume => Slider::unread(kind, None, None).refreshed(
            hw.now,
            Reading::Volume(hw.volume),
        ),
        SliderKind::DisplayBrightness => backlight_slider(kind, hw.display, hw.now),
        SliderKind::KeyboardBacklight => backlight_slider(kind, hw.keyboard, hw.now),
    }
}

/// A slider for a backlight, if there is one.
pub open spec fn backlight_slider(kind: SliderKind, b: Option<Backlight>, now: u64) -> Slider {
    match b {
        Some(b) => Slider::unread(kind, Some(b.path), text_opt(b.max_brightness)).refreshed(
            now,
            Reading::Brightness(number_in(text_opt(b.brightness))),
        ),
        None => Slider::unread(kind, None, None),
    }
}

/// A slider button.
pub open spec fn slider_button(
    kind: SliderKind,
    theme: Option<Seq<char>>,
    colorize: bool,
    images: Images,
    hw: Hardware,
) -> ButtonView {
    bare(
        ImageView::Slider {
            state: slider_found(kind, hw),
            icon: images.icon(slider_icon_name(kind), theme),
            muted_icon: if kind == SliderKind::Volume {
                images.icon("volume_off"@, theme)
            } else {
                None
            },
            colorize,
        },
    )
}

/// The format that a time option stands for.
pub open spec fn time_format(option: Seq<char>) -> Seq<char> {
    if option == "24hr"@ {
        "%H:%M    %a %-e %b"@
    } else if option == "12hr"@ {
        "%-l:%M %p    %a %-e %b"@
    } else {
        option
    }
}

/// The format of a time button.
pub open spec fn time_format_of(c: ButtonConfigView) -> Seq<char> {
    time_format(normal_time_option(or_else(c.option, "24hr"@)))
}

/// A locale that is known, or the plain one.
pub open spec fn locale_or_plain(locale: Option<Seq<char>>) -> Seq<char> {
    match locale {
        Some(l) => if is_locale(l) {
            l
        } else {
            "POSIX"@
        },
        None => "POSIX"@,
    }
}

/// The names of a battery's icons.
pub open spec fn plain_names() -> Seq<Seq<char>> {
    seq![
        "battery_0_bar"@,
        "battery_1_bar"@,
        "battery_2_bar"@,
        "battery_3_bar"@,
        "battery_4_bar"@,
        "battery_5_bar"@,
        "battery_6_bar"@,
        "battery_full"@,
    ]
}

pub open spec fn charging_names() -> Seq<Seq<char>> {
    seq![
        "battery_charging_20"@,
        "battery_charging_30"@,
        "battery_charging_50"@,
        "battery_charging_60"@,
        "battery_charging_80"@,
        "battery_charging_90"@,
        "battery_charging_full"@,
    ]
}

/// The drawings of icons, if all of them were loaded as such.
pub open spec fn drawings(
    names: Seq<Seq<char>>,
    theme: Option<Seq<char>>,
    images: Images,
) -> Option<Seq<u32>>
    decreases names.len(),
{
    if names.len() == 0 {
        Some(Seq::empty())
    } else {
        match (drawings(names.drop_last(), theme, images), images.icon(names.last(), theme)) {
            (Some(ids), Some(id)) => Some(ids.push(id)),
            _ => None,
        }
    }
}

/// What a battery button shows, by its option.
pub open spec fn battery_mode(option: Seq<char>) -> Option<BatteryIconMode> {
    if option == "icon"@ {
        Some(BatteryIconMode::Icon)
    } else if option == "percentage"@ {
        Some(BatteryIconMode::Percentage)
    } else if option == "both"@ {
        Some(BatteryIconMode::Both)
    } else {
        None
    }
}

/// A button with an icon of its own, which counts for its size if it was loaded
/// as a drawing.
pub open spec fn own_icon(c: ButtonConfigView, images: Images) -> Option<u32> {
    match c.icon {
        Some(n) => drawing(
            images.of(
                RequestView {
                    name: n,
                    theme: c.theme,
                    width: icon_width(c),
                    height: icon_height(c),
                },
            ),
        ),
        None => None,
    }
}

/// A button that shows a figure beside its own icon.
pub open spec fn figure_button(image: ImageView, c: ButtonConfigView, images: Images) -> ButtonView {
    let own = own_icon(c, images) is Some;
    ButtonView {
        action: c.action,
        command: c.command,
        icon_width: if own {
            icon_width(c)
        } else {
            0
        },
        icon_height: if own {
            icon_height(c)
        } else {
            0
        },
        ..bare(image)
    }
}

/// Why a button cannot be built.
#[derive(Clone, Copy, PartialEq, Eq, Structural, Debug)]
pub enum BuildProblem {
    /// An icon was not loaded.
    Icon,
    /// An icon of the battery was not loaded as a drawing.
    BatteryIcon,
    /// The option of the battery is none of those that there are.
    BatteryMode,
    /// The icon beside the music was not loaded as a drawing.
    PlayIcon,
    /// The time format is not valid.
    TimeFormat,
}

/// Why a button cannot be built, if so.
pub open spec fn problem_of(c: ButtonConfigView, images: Images, hw: Hardware) -> Option<
    BuildProblem,
> {
    match kind_of(c) {
        ButtonKind::Time => if strftime_items(time_format_of(c)) is None {
            Some(BuildProblem::TimeFormat)
        } else {
            None
        },
        ButtonKind::Battery => if hw.battery is None {
            None
        } else if images.icon("bolt"@, c.theme) is None || drawings(
            plain_names(),
            c.theme,
            images,
        ) is None || drawings(charging_names(), c.theme, images) is None {
            Some(BuildProblem::BatteryIcon)
        } else if battery_mode(or_else(c.option, "percentage"@)) is None {
            Some(BuildProblem::BatteryMode)
        } else {
            None
        },
        ButtonKind::ActiveWindow => if images.icon("play"@, c.theme) is None {
            Some(BuildProblem::PlayIcon)
        } else {
            None
        },
        ButtonKind::Icon => if images.of(
            RequestView {
                name: c.icon->0,
                theme: c.theme,
                width: icon_width(c),
                height: icon_height(c),
            },
        ) == Loaded::Failed {
            Some(BuildProblem::Icon)
        } else {
            None
        },
        _ => None,
    }
}

/// The image of a loaded icon.
pub open spec fn loaded_image(l: Loaded) -> ImageView {
    match l {
        Loaded::Svg(id) => ImageView::Svg(id),
        Loaded::Bitmap(id) => ImageView::Bitmap(id),
        Loaded::Failed => ImageView::Spacer,
    }
}

/// A notification button.
pub open spec fn notification_button(
    kind: NotificationButton,
    c: ButtonConfigView,
    images: Images,
) -> ButtonView {
    bare(
        ImageView::Notification(
            kind,
            icon_opt(set_or(c.icon, default_icon(kind)), c, images),
            icon_opt(set_or(c.icon_active, default_active_icon(kind)), c, images),
        ),
    )
}

/// A weather button: for now, or for a day of the forecast.
pub open spec fn weather_button(c: ButtonConfigView, images: Images) -> ButtonView {
    let icons = icons_loaded(weather_icon_names(), c.theme, images);
    if or_else(c.option, "current"@) == "current"@ {
        bare(ImageView::WeatherCurrent(icons, c.colorize))
    } else if or_else(c.option, "current"@) == "forecast"@ {
        bare(
            ImageView::WeatherForecast(
                match c.weather_day {
                    Some(d) => d,
                    None => 0,
                },
                icons,
                c.colorize,
            ),
        )
    } else {
        bare(ImageView::Spacer)
    }
}

/// The button of a kind, before the settings that all buttons share.
pub open spec fn button_of(kind: ButtonKind, c: ButtonConfigView, images: Images, hw: Hardware) ->
    ButtonView {
    match kind {
        ButtonKind::Notification(n) => notification_button(n, c, images),
        ButtonKind::Slider => match c.option {
            Some(o) => match slider_kind_named(o) {
                Some(k) => slider_button(k, c.theme, c.colorize, images, hw),
                None => bare(ImageView::Spacer),
            },
            None => bare(ImageView::Spacer),
        },
        ButtonKind::Weather => weather_button(c, images),
        ButtonKind::Time => ButtonView {
            action: c.action,
            command: c.command,
            ..bare(ImageView::Time(time_format_of(c), locale_or_plain(c.locale)))
        },
        ButtonKind::PulloutToggle => bare(
            ImageView::LayerToggle(
                or_else(c.layer_toggle, Seq::empty()),
                or_else(c.text, Seq::empty()),
            ),
        ),
        ButtonKind::Text => ButtonView {
            action: c.action,
            ..bare(ImageView::Text(c.text->0))
        },
        ButtonKind::Battery => match hw.battery {
            Some(device) => ButtonView {
                action: c.action,
                command: c.command,
                ..bare(
                    ImageView::Battery(
                        device@,
                        battery_mode(or_else(c.option, "percentage"@))->0,
                        BatteryImagesView {
                            plain: drawings(plain_names(), c.theme, images)->0,
                            charging: drawings(charging_names(), c.theme, images)->0,
                            bolt: images.icon("bolt"@, c.theme)->0,
                        },
                        c.colorize,
                    ),
                )
            },
            None => ButtonView {
                action: c.action,
                ..bare(ImageView::Text("Battery N/A"@))
            },
        },
        ButtonKind::Cpu => figure_button(
            ImageView::CpuUsage(own_icon(c, images), c.colorize),
            c,
            images,
        ),
        ButtonKind::Memory => figure_button(
            ImageView::MemoryUsage(own_icon(c, images), c.colorize),
            c,
            images,
        ),
        ButtonKind::ActiveWindow => ButtonView {
            action: c.action,
            ..bare(ImageView::ActiveWindow(images.icon("play"@, c.theme), c.colorize))
        },
        ButtonKind::ActiveWorkspace => figure_button(
            ImageView::ActiveWorkspace(own_icon(c, images), c.colorize),
            c,
            images,
        ),
        ButtonKind::Icon => ButtonView {
            action: c.action,
            icon_width: icon_width(c),
            icon_height: icon_height(c),
            ..bare(
                loaded_image(
                    images.of(
                        RequestView {
                            name: c.icon->0,
                            theme: c.theme,
                            width: icon_width(c),
                            height: icon_height(c),
                        },
                    ),
                ),
            )
        },
        ButtonKind::LayerToggle => bare(
            ImageView::LayerToggle(c.layer_toggle->0, c.layer_toggle->0),
        ),
        ButtonKind::Spacer => bare(ImageView::Spacer),
    }
}

/// The button that a description stands for. Any of them can toggle to another
/// layer too.
pub open spec fn built(c: ButtonConfigView, images: Images, hw: Hardware) -> ButtonView {
    ButtonView {
        stacked: c.stacked,
        font_size: c.font_size,
        max_title_length: c.max_title_length,
        toggle_target: c.layer_toggle,
        ..button_of(kind_of(c), c, images, hw)
    }
}

/// Looks up the drawings of icons, if all of them were loaded as such.
fn find_drawings(names: &Vec<String>, theme: &Option<String>, images: &Images) -> (r: Option<
    Vec<u32>,
>)
    ensures
        match r {
            Some(ids) => drawings(texts(names@), text_opt(*theme), *images) == Some(ids@),
            None => drawings(texts(names@), text_opt(*theme), *images) is None,
        },
{
    let ghost all = texts(names@);
    let n = names.len();
    let mut ids: Vec<u32> = Vec::new();
    let mut complete = true;
    let mut i: usize = 0;
    assert(all.subrange(0, 0) =~= Seq::empty());
    assert(ids@ =~= Seq::empty());
    while i < n
        invariant
            i <= n,
            n == names@.len(),
            all == texts(names@),
            if complete {
                drawings(all.subrange(0, i as int), text_opt(*theme), *images) == Some(ids@)
            } else {
                drawings(all.subrange(0, i as int), text_opt(*theme), *images) is None
            },
        decreases n - i,
    {
        let ghost seen = all.subrange(0, i + 1);
        assert(seen.drop_last() =~= all.subrange(0, i as int));
        assert(seen.last() == names@[i as int]@);
        match images.find_icon(names[i].as_str(), theme) {
            Some(id) => {
                ids.push(id);
            },
            None => {
                complete = false;
            },
        }
        i += 1;
    }
    assert(all.subrange(0, n as int) =~= all);
    if complete {
        Some(ids)
    } else {
        None
    }
}

fn plain_icon_names() -> (r: Vec<String>)
    ensures
        texts(r@) == plain_names(),
{
    let mut v: Vec<String> = Vec::new();
    v.push("battery_0_bar".to_owned());
    v.push("battery_1_bar".to_owned());
    v.push("battery_2_bar".to_owned());
    v.push("battery_3_bar".to_owned());
    v.push("battery_4_bar".to_owned());
    v.push("battery_5_bar".to_owned());
    v.push("battery_6_bar".to_owned());
    v.push("battery_full".to_owned());
    assert(texts(v@) =~= plain_names());
    v
}

fn charging_icon_names() -> (r: Vec<String>)
    ensures
        texts(r@) == charging_names(),
{
    let mut v: Vec<String> = Vec::new();
    v.push("battery_charging_20".to_owned());
    v.push("battery_charging_30".to_owned());
    v.push("battery_charging_50".to_owned());
    v.push("battery_charging_60".to_owned());
    v.push("battery_charging_80".to_owned());
    v.push("battery_charging_90".to_owned());
    v.push("battery_charging_full".to_owned());
    assert(texts(v@) =~= charging_names());
    v
}

/// The battery's option.
fn battery_mode_of(option: &Option<String>) -> (r: Option<BatteryIconMode>)
    ensures
        r == battery_mode(or_else(text_opt(*option), "percentage"@)),
{
    let o = match option {
        Some(o) => o.as_str(),
        None => "percentage",
    };
    if same(o, "icon") {
        Some(BatteryIconMode::Icon)
    } else if same(o, "percentage") {
        Some(BatteryIconMode::Percentage)
    } else if same(o, "both") {
        Some(BatteryIconMode::Both)
    } else {
        None
    }
}

/// The option of a time button, under its usual name.
fn time_option(c: &ButtonConfig) -> (r: String)
    ensures
        r@ == normal_time_option(or_else(c@.option, "24hr"@)),
{
    let option = match &c.option {
        Some(o) => o.clone(),
        None => "24hr".to_owned(),
    };
    normalize_time_option(option)
}

/// The format that a time option stands for.
fn format_text(option: &str) -> (r: String)
    ensures
        r@ == time_format(option@),
{
    if same(option, "24hr") {
        "%H:%M    %a %-e %b".to_owned()
    } else if same(option, "12hr") {
        "%-l:%M %p    %a %-e %b".to_owned()
    } else {
        option.to_owned()
    }
}

fn size_or_default(size: Option<i32>) -> (r: i32)
    ensures
        r == match size {
            Some(s) => s,
            None => DEFAULT_ICON_SIZE,
        },
{
    match size {
        Some(s) => s,
        None => DEFAULT_ICON_SIZE,
    }
}

/// Tells why a button cannot be built, if so.
pub fn build_problem(c: &ButtonConfig, images: &Images, hw: &Hardware) -> (r: Option<BuildProblem>)
    ensures
        r == problem_of(c@, *images, *hw),
{
    match button_kind(c) {
        ButtonKind::Time => {
            let option = time_option(c);
            let format = format_text(option.as_str());
            if time_items(format.as_str()).is_none() {
                Some(BuildProblem::TimeFormat)
            } else {
                None
            }
        },
        ButtonKind::Battery => {
            if hw.battery.is_none() {
                return None;
            }
            if images.find_icon("bolt", &c.theme).is_none() || find_drawings(
                &plain_icon_names(),
                &c.theme,
                images,
            ).is_none() || find_drawings(&charging_icon_names(), &c.theme, images).is_none() {
                Some(BuildProblem::BatteryIcon)
            } else if battery_mode_of(&c.option).is_none() {
                Some(BuildProblem::BatteryMode)
            } else {
                None
            }
        },
        ButtonKind::ActiveWindow => {
            if images.find_icon("play", &c.theme).is_none() {
                Some(BuildProblem::PlayIcon)
            } else {
                None
            }
        },
        ButtonKind::Icon => {
            let loaded = match &c.icon {
                Some(n) => images.find(
                    n.as_str(),
                    &c.theme,
                    size_or_default(c.icon_width),
                    size_or_default(c.icon_height),
                ),
                None => Loaded::Failed,
            };
            if loaded == Loaded::Failed {
                Some(BuildProblem::Icon)
            } else {
                None
            }
        },
        _ => None,
    }
}

/// The drawing of a button's own icon.
fn find_own_icon(c: &ButtonConfig, images: &Images) -> (r: Option<u32>)
    ensures
        r == own_icon(c@, *images),
{
    match &c.icon {
        Some(n) => svg(
            images.find(
                n.as_str(),
                &c.theme,
                size_or_default(c.icon_width),
                size_or_default(c.icon_height),
            ),
        ),
        None => None,
    }
}

impl Button {
    /// A button that shows an image and does nothing.
    fn bare(image: ButtonImage) -> (r: Button)
        ensures
            r@ == bare(image@),
    {
        let r = Button {
            image,
            changed: false,
            active: false,
            action: Vec::new(),
            command: None,
            icon_width: 0,
            icon_height: 0,
            stacked: false,
            font_size: None,
            max_title_length: None,
            toggle_target: None,
            hold_started: None,
        };
        assert(r@.action =~= Seq::empty());
        r
    }

    /// A slider for the hardware that was found.
    pub fn new_slider(
        kind: SliderKind,
        theme: &Option<String>,
        colorize: bool,
        images: &Images,
        hw: &Hardware,
    ) -> (r: Button)
        ensures
            r@ == slider_button(kind, text_opt(*theme), colorize, *images, *hw),
            r@.wf(),
    {
        let state = match kind {
            SliderKind::Volume => Slider::new(kind, None, None, hw.now, Reading::Volume(hw.volume)),
            SliderKind::DisplayBrightness => Button::backlight_slider(kind, &hw.display, hw.now),
            SliderKind::KeyboardBacklight => Button::backlight_slider(kind, &hw.keyboard, hw.now),
        };
        let icon = match kind {
            SliderKind::DisplayBrightness => images.find_icon("brightness_low", theme),
            SliderKind::KeyboardBacklight => images.find_icon("backlight_low", theme),
            SliderKind::Volume => images.find_icon("volume_down", theme),
        };
        let muted_icon = match kind {
            SliderKind::Volume => images.find_icon("volume_off", theme),
            _ => None,
        };
        Button::bare(ButtonImage::Slider { state, icon, muted_icon, colorize })
    }

    fn backlight_slider(kind: SliderKind, b: &Option<Backlight>, now: u64) -> (r: Slider)
        requires
            kind != SliderKind::Volume,
        ensures
            r == backlight_slider(kind, *b, now),
            r.wf(),
    {
        match b {
            Some(b) => Slider::new(
                kind,
                Some(b.path.clone()),
                b.max_brightness.clone(),
                now,
                Reading::Brightness(read_u32(&b.brightness)),
            ),
            None => Slider::new(kind, None, None, now, Reading::Brightness(None)),
        }
    }

    /// A button for the weather of now.
    pub fn new_weather_current(theme: &Option<String>, colorize: bool, images: &Images) -> (r:
        Button)
        ensures
            r@ == bare(
                ImageView::WeatherCurrent(
                    icons_loaded(weather_icon_names(), text_opt(*theme), *images),
                    colorize,
                ),
            ),
    {
        Button::bare(ButtonImage::WeatherCurrent(WeatherIcons::load(theme, images), colorize))
    }

    /// A button for the forecast of a day.
    pub fn new_weather_forecast(
        day: usize,
        theme: &Option<String>,
        colorize: bool,
        images: &Images,
    ) -> (r: Button)
        ensures
            r@ == bare(
                ImageView::WeatherForecast(
                    day,
                    icons_loaded(weather_icon_names(), text_opt(*theme), *images),
                    colorize,
                ),
            ),
    {
        Button::bare(ButtonImage::WeatherForecast(day, WeatherIcons::load(theme, images), colorize))
    }

    /// A notification button.
    pub fn new_notification(
        kind: NotificationButton,
        icon: Option<u32>,
        active_icon: Option<u32>,
    ) -> (r: Button)
        ensures
            r@ == bare(ImageView::Notification(kind, icon, active_icon)),
    {
        Button::bare(ButtonImage::Notification(kind, icon, active_icon))
    }

    /// An empty place.
    pub fn new_spacer() -> (r: Button)
        ensures
            r@ == bare(ImageView::Spacer),
    {
        Button::bare(ButtonImage::Spacer)
    }

    /// A button with a text.
    pub fn new_text(text: String, action: Vec<u16>) -> (r: Button)
        ensures
            r@ == (ButtonView { action: action@, ..bare(ImageView::Text(text@)) }),
    {
        let mut b = Button::bare(ButtonImage::Text(text));
        b.action = action;
        b
    }

    /// A toggle to another layer.
    pub fn new_layer_toggle(target: String, label: String) -> (r: Button)
        ensures
            r@ == bare(ImageView::LayerToggle(target@, label@)),
    {
        Button::bare(ButtonImage::LayerToggle(target, label))
    }

    /// A button with an icon.
    pub fn new_icon(image: Loaded, action: Vec<u16>, icon_width: i32, icon_height: i32) -> (r:
        Button)
        requires
            image != Loaded::Failed,
        ensures
            r@ == (ButtonView {
                action: action@,
                icon_width,
                icon_height,
                ..bare(loaded_image(image))
            }),
    {
        let mut b = Button::bare(
            match image {
                Loaded::Svg(id) => ButtonImage::Svg(id),
                Loaded::Bitmap(id) => ButtonImage::Bitmap(id),
                Loaded::Failed => ButtonImage::Spacer,
            },
        );
        b.action = action;
        b.icon_width = icon_width;
        b.icon_height = icon_height;
        b
    }

    /// A battery button.
    pub fn new_battery(
        action: Vec<u16>,
        command: Option<String>,
        battery: String,
        mode: BatteryIconMode,
        icons: BatteryImages,
        colorize: bool,
    ) -> (r: Button)
        ensures
            r@ == (ButtonView {
                action: action@,
                command: text_opt(command),
                ..bare(ImageView::Battery(battery@, mode, icons@, colorize))
            }),
    {
        let mut b = Button::bare(ButtonImage::Battery(battery, mode, icons, colorize));
        b.action = action;
        b.command = command;
        b
    }

    /// A button with the time, in a valid format, which may go by a name, and in a
    /// locale; in the plain one where that is not known.
    pub fn new_time(
        action: Vec<u16>,
        command: Option<String>,
        format: &str,
        locale: &Option<String>,
    ) -> (r: Button)
        requires
            strftime_items(time_format(format@)) is Some,
        ensures
            r@ == (ButtonView {
                action: action@,
                command: text_opt(command),
                ..bare(ImageView::Time(time_format(format@), locale_or_plain(text_opt(*locale))))
            }),
    {
        let locale = match locale {
            Some(l) => if known_locale(l.as_str()) {
                l.clone()
            } else {
                "POSIX".to_owned()
            },
            None => "POSIX".to_owned(),
        };
        let mut b = Button::bare(ButtonImage::Time(format_text(format), locale));
        b.action = action;
        b.command = command;
        b
    }

    /// A button that shows a figure beside its own icon.
    fn new_figure(image: ButtonImage, c: &ButtonConfig, own: Option<u32>) -> (r: Button)
        ensures
            forall|images: Images|
                own_icon(c@, images) == own ==> r@ == #[trigger] figure_button(image@, c@, images),
    {
        let mut b = Button::bare(image);
        b.action = copy_keys(&c.action);
        b.command = c.command.clone();
        if own.is_some() {
            b.icon_width = size_or_default(c.icon_width);
            b.icon_height = size_or_default(c.icon_height);
        }
        b
    }

    /// A button with the processor usage.
    pub fn new_cpu_usage(c: &ButtonConfig, images: &Images) -> (r: Button)
        ensures
            r@ == figure_button(
                ImageView::CpuUsage(own_icon(c@, *images), c.colorize),
                c@,
                *images,
            ),
    {
        let own = find_own_icon(c, images);
        Button::new_figure(ButtonImage::CpuUsage(own, c.colorize), c, own)
    }

    /// A button with the memory usage.
    pub fn new_memory_usage(c: &ButtonConfig, images: &Images) -> (r: Button)
        ensures
            r@ == figure_button(
                ImageView::MemoryUsage(own_icon(c@, *images), c.colorize),
                c@,
                *images,
            ),
    {
        let own = find_own_icon(c, images);
        Button::new_figure(ButtonImage::MemoryUsage(own, c.colorize), c, own)
    }

    /// A button with the active window.
    pub fn new_active_window(action: Vec<u16>, icon: u32, colorize: bool) -> (r: Button)
        ensures
            r@ == (ButtonView {
                action: action@,
                ..bare(ImageView::ActiveWindow(Some(icon), colorize))
            }),
    {
        let mut b = Button::bare(ButtonImage::ActiveWindow(Some(icon), colorize));
        b.action = action;
        b
    }

    /// A button with the active workspace.
    pub fn new_active_workspace(c: &ButtonConfig, images: &Images) -> (r: Button)
        ensures
            r@ == figure_button(
                ImageView::ActiveWorkspace(own_icon(c@, *images), c.colorize),
                c@,
                *images,
            ),
    {
        let own = find_own_icon(c, images);
        Button::new_figure(ButtonImage::ActiveWorkspace(own, c.colorize), c, own)
    }

    /// A notification button of a description.
    fn notification_of(kind: NotificationButton, c: &ButtonConfig, images: &Images) -> (r: Button)
        ensures
            r@ == notification_button(kind, c@, *images),
    {
        let icon = match &c.icon {
            Some(n) => images.find_icon(n.as_str(), &c.theme),
            None => match kind {
                NotificationButton::Count => images.find_icon("mail", &c.theme),
                NotificationButton::Dnd => images.find_icon("bell-ring", &c.theme),
                _ => None,
            },
        };
        let active_icon = match &c.icon_active {
            Some(n) => images.find_icon(n.as_str(), &c.theme),
            None => match kind {
                NotificationButton::Dnd => images.find_icon("bell-off", &c.theme),
                _ => None,
            },
        };
        Button::new_notification(kind, icon, active_icon)
    }

    /// A battery button of a description.
    fn battery_of(c: &ButtonConfig, images: &Images, hw: &Hardware) -> (r: Button)
        requires
            kind_of(c@) == ButtonKind::Battery,
            problem_of(c@, *images, *hw) is None,
        ensures
            r@ == button_of(ButtonKind::Battery, c@, *images, *hw),
            r@.wf(),
    {
        match &hw.battery {
            Some(device) => {
                let bolt = images.find_icon("bolt", &c.theme).unwrap();
                let plain = find_drawings(&plain_icon_names(), &c.theme, images).unwrap();
                let charging = find_drawings(&charging_icon_names(), &c.theme, images).unwrap();
                let mode = battery_mode_of(&c.option).unwrap();
                proof {
                    lemma_drawings_len(plain_names(), c@.theme, *images);
                    lemma_drawings_len(charging_names(), c@.theme, *images);
                }
                Button::new_battery(
                    copy_keys(&c.action),
                    c.command.clone(),
                    device.clone(),
                    mode,
                    BatteryImages { plain, charging, bolt },
                    c.colorize,
                )
            },
            None => Button::new_text("Battery N/A".to_owned(), copy_keys(&c.action)),
        }
    }

    /// A weather button of a description.
    fn weather_of(c: &ButtonConfig, images: &Images) -> (r: Button)
        ensures
            r@ == weather_button(c@, *images),
    {
        let option = match &c.option {
            Some(o) => o.as_str(),
            None => "current",
        };
        if same(option, "current") {
            Button::new_weather_current(&c.theme, c.colorize, images)
        } else if same(option, "forecast") {
            let day: usize = match c.weather_day {
                Some(d) => d,
                None => 0,
            };
            Button::new_weather_forecast(day, &c.theme, c.colorize, images)
        } else {
            Button::new_spacer()
        }
    }

    /// Builds the button that a description stands for.
    pub fn with_config(c: ButtonConfig, images: &Images, hw: &Hardware) -> (r: Button)
        requires
            problem_of(c@, *images, *hw) is None,
        ensures
            r@ == built(c@, *images, *hw),
            r@.wf(),
    {
        let kind = button_kind(&c);
        let mut button = match kind {
            ButtonKind::Notification(n) => Button::notification_of(n, &c, images),
            ButtonKind::Slider => {
                let slider = match &c.option {
                    Some(o) => SliderKind::parse(o.as_str()),
                    None => None,
                };
                match slider {
                    Some(k) => Button::new_slider(k, &c.theme, c.colorize, images, hw),
                    None => Button::new_spacer(),
                }
            },
            ButtonKind::Weather => Button::weather_of(&c, images),
            ButtonKind::Time => Button::new_time(
                copy_keys(&c.action),
                c.command.clone(),
                time_option(&c).as_str(),
                &c.locale,
            ),
            ButtonKind::PulloutToggle => {
                let target = match &c.layer_toggle {
                    Some(t) => t.clone(),
                    None => String::new(),
                };
                let label = match &c.text {
                    Some(t) => t.clone(),
                    None => String::new(),
                };
                Button::new_layer_toggle(target, label)
            },
            ButtonKind::Text => {
                let text = match &c.text {
                    Some(t) => t.clone(),
                    None => String::new(),
                };
                Button::new_text(text, copy_keys(&c.action))
            },
            ButtonKind::Battery => Button::battery_of(&c, images, hw),
            ButtonKind::Cpu => Button::new_cpu_usage(&c, images),
            ButtonKind::Memory => Button::new_memory_usage(&c, images),
            ButtonKind::ActiveWindow => {
                let icon = images.find_icon("play", &c.theme).unwrap();
                Button::new_active_window(copy_keys(&c.action), icon, c.colorize)
            },
            ButtonKind::ActiveWorkspace => Button::new_active_workspace(&c, images),
            ButtonKind::Icon => {
                let w = size_or_default(c.icon_width);
                let h = size_or_default(c.icon_height);
                let image = match &c.icon {
                    Some(n) => images.find(n.as_str(), &c.theme, w, h),
                    None => Loaded::Failed,
                };
                Button::new_icon(image, copy_keys(&c.action), w, h)
            },
            ButtonKind::LayerToggle => {
                let target = match &c.layer_toggle {
                    Some(t) => t.clone(),
                    None => String::new(),
                };
                let label = target.clone();
                Button::new_layer_toggle(target, label)
            },
            ButtonKind::Spacer => Button::new_spacer(),
        };
        assert(button@ == button_of(kind, c@, *images, *hw));
        button.stacked = c.stacked;
        button.font_size = c.font_size;
        button.max_title_length = c.max_title_length;
        button.toggle_target = c.layer_toggle.clone();
        button
    }

    /// Builds the button that a description stands for, or tells why it cannot be
    /// built.
    pub fn build(c: ButtonConfig, images: &Images, hw: &Hardware) -> (r: Result<
        Button,
        BuildProblem,
    >)
        ensures
            match r {
                Ok(b) => problem_of(c@, *images, *hw) is None && b@ == built(c@, *images, *hw)
                    && b@.wf(),
                Err(p) => problem_of(c@, *images, *hw) == Some(p),
            },
    {
        match build_problem(&c, images, hw) {
            Some(p) => Err(p),
            None => Ok(Button::with_config(c, images, hw)),
        }
    }
}

proof fn lemma_drawings_len(names: Seq<Seq<char>>, theme: Option<Seq<char>>, images: Images)
    ensures
        drawings(names, theme, images) matches Some(ids) ==> ids.len() == names.len(),
    decreases names.len(),
{
    if names.len() > 0 {
        lemma_drawings_len(names.drop_last(), theme, images);
    }
}

/// The requests for icons of the default size.
pub open spec fn icon_requests(names: Seq<Seq<char>>, theme: Option<Seq<char>>) -> Seq<
    RequestView,
> {
    Seq::new(names.len(), |i: int| icon_request(names[i], theme))
}

/// The request for a button's own icon, if it has one.
pub open spec fn own_request(c: ButtonConfigView) -> Seq<RequestView> {
    match c.icon {
        Some(n) => seq![
            RequestView {
                name: n,
                theme: c.theme,
                width: icon_width(c),
                height: icon_height(c),
            },
        ],
        None => Seq::empty(),
    }
}

/// The request for an icon that may not be set.
pub open spec fn opt_request(name: Option<Seq<char>>, theme: Option<Seq<char>>) -> Seq<
    RequestView,
> {
    match name {
        Some(n) => seq![icon_request(n, theme)],
        None => Seq::empty(),
    }
}

/// The images that a button needs.
pub open spec fn images_wanted(c: ButtonConfigView, hw: Hardware) -> Seq<RequestView> {
    match kind_of(c) {
        ButtonKind::Notification(n) => opt_request(set_or(c.icon, default_icon(n)), c.theme)
            + opt_request(set_or(c.icon_active, default_active_icon(n)), c.theme),
        ButtonKind::Slider => match c.option {
            Some(o) => match slider_kind_named(o) {
                Some(k) => if k == SliderKind::Volume {
                    icon_requests(seq!["volume_down"@, "volume_off"@], c.theme)
                } else {
                    icon_requests(seq![slider_icon_name(k)], c.theme)
                },
                None => Seq::empty(),
            },
            None => Seq::empty(),
        },
        ButtonKind::Weather => icon_requests(weather_icon_names(), c.theme),
        ButtonKind::Battery => if hw.battery is Some {
            icon_requests(seq!["bolt"@] + plain_names() + charging_names(), c.theme)
        } else {
            Seq::empty()
        },
        ButtonKind::ActiveWindow => icon_requests(seq!["play"@], c.theme),
        ButtonKind::Cpu => own_request(c),
        ButtonKind::Memory => own_request(c),
        ButtonKind::ActiveWorkspace => own_request(c),
        ButtonKind::Icon => own_request(c),
        _ => Seq::empty(),
    }
}

/// Adds requests for icons of the default size.
fn request_icons(v: &mut Vec<ImageRequest>, names: &Vec<String>, theme: &Option<String>)
    ensures
        requests(final(v)@) == requests(old(v)@) + icon_requests(texts(names@), text_opt(*theme)),
{
    let ghost start = requests(v@);
    let ghost all = icon_requests(texts(names@), text_opt(*theme));
    let n = names.len();
    let mut i: usize = 0;
    assert(start + all.subrange(0, 0) =~= start);
    while i < n
        invariant
            i <= n,
            n == names@.len(),
            all == icon_requests(texts(names@), text_opt(*theme)),
            requests(v@) == start + all.subrange(0, i as int),
        decreases n - i,
    {
        let ghost was = requests(v@);
        v.push(
            ImageRequest {
                name: names[i].clone(),
                theme: theme.clone(),
                width: DEFAULT_ICON_SIZE,
                height: DEFAULT_ICON_SIZE,
            },
        );
        assert(requests(v@) =~= was.push(all[i as int]));
        assert(start + all.subrange(0, i + 1) =~= was.push(all[i as int]));
        i += 1;
    }
    assert(all.subrange(0, n as int) =~= all);
}

/// Adds the request for one icon of the default size.
fn request_icon(v: &mut Vec<ImageRequest>, name: &str, theme: &Option<String>)
    ensures
        requests(final(v)@) == requests(old(v)@).push(icon_request(name@, text_opt(*theme))),
{
    let ghost was = requests(v@);
    v.push(
        ImageRequest {
            name: name.to_owned(),
            theme: theme.clone(),
            width: DEFAULT_ICON_SIZE,
            height: DEFAULT_ICON_SIZE,
        },
    );
    assert(requests(v@) =~= was.push(icon_request(name@, text_opt(*theme))));
}

/// Lists the images that a button needs.
pub fn image_requests(c: &ButtonConfig, hw: &Hardware) -> (r: Vec<ImageRequest>)
    ensures
        requests(r@) == images_wanted(c@, *hw),
{
    let mut v: Vec<ImageRequest> = Vec::new();
    assert(requests(v@) =~= Seq::empty());
    match button_kind(c) {
        ButtonKind::Notification(n) => {
            match &c.icon {
                Some(name) => request_icon(&mut v, name.as_str(), &c.theme),
                None => match n {
                    NotificationButton::Count => request_icon(&mut v, "mail", &c.theme),
                    NotificationButton::Dnd => request_icon(&mut v, "bell-ring", &c.theme),
                    _ => {},
                },
            }
            assert(requests(v@) =~= opt_request(set_or(c@.icon, default_icon(n)), c@.theme));
            match &c.icon_active {
                Some(name) => request_icon(&mut v, name.as_str(), &c.theme),
                None => match n {
                    NotificationButton::Dnd => request_icon(&mut v, "bell-off", &c.theme),
                    _ => {},
                },
            }
        },
        ButtonKind::Slider => {
            let slider = match &c.option {
                Some(o) => SliderKind::parse(o.as_str()),
                None => None,
            };
            match slider {
                Some(SliderKind::Volume) => {
                    request_icon(&mut v, "volume_down", &c.theme);
                    request_icon(&mut v, "volume_off", &c.theme);
                },
                Some(SliderKind::DisplayBrightness) => {
                    request_icon(&mut v, "brightness_low", &c.theme);
                },
                Some(SliderKind::KeyboardBacklight) => {
                    request_icon(&mut v, "backlight_low", &c.theme);
                },
                None => {},
            }
        },
        ButtonKind::Weather => {
            request_icon(&mut v, "weather_sunny", &c.theme);
            request_icon(&mut v, "weather_cloudy", &c.theme);
            request_icon(&mut v, "weather_rainy", &c.theme);
            request_icon(&mut v, "weather_snowy", &c.theme);
            request_icon(&mut v, "weather_moon", &c.theme);
        },
        ButtonKind::Battery => {
            if hw.battery.is_some() {
                request_icon(&mut v, "bolt", &c.theme);
                request_icons(&mut v, &plain_icon_names(), &c.theme);
                request_icons(&mut v, &charging_icon_names(), &c.theme);
            }
        },
        ButtonKind::ActiveWindow => {
            request_icon(&mut v, "play", &c.theme);
        },
        ButtonKind::Cpu | ButtonKind::Memory | ButtonKind::ActiveWorkspace | ButtonKind::Icon => {
            match &c.icon {
                Some(name) => {
                    v.push(
                        ImageRequest {
                            name: name.clone(),
                            theme: c.theme.clone(),
                            width: size_or_default(c.icon_width),
                            height: size_or_default(c.icon_height),
                        },
                    );
                },
                None => {},
            }
        },
        _ => {},
    }
    assert(requests(v@) =~= images_wanted(c@, *hw));
    v
}

/// Whether two sets of images agree on what came of some requests.
pub open spec fn agree(a: Images, b: Images, wanted: Seq<RequestView>) -> bool {
    forall|i: int| 0 <= i < wanted.len() ==> a.of(#[trigger] wanted[i]) == b.of(wanted[i])
}

proof fn lemma_drawings_agree(
    names: Seq<Seq<char>>,
    theme: Option<Seq<char>>,
    a: Images,
    b: Images,
)
    requires
        forall|i: int|
            0 <= i < names.len() ==> a.of(icon_request(#[trigger] names[i], theme)) == b.of(
                icon_request(names[i], theme),
            ),
    ensures
        drawings(names, theme, a) == drawings(names, theme, b),
        icons_loaded(names, theme, a) == icons_loaded(names, theme, b),
    decreases names.len(),
{
    if names.len() > 0 {
        let front = names.drop_last();
        assert forall|i: int| 0 <= i < front.len() implies a.of(
            icon_request(#[trigger] front[i], theme),
        ) == b.of(icon_request(front[i], theme)) by {
            assert(front[i] == names[i]);
        }
        lemma_drawings_agree(front, theme, a, b);
        assert(a.of(icon_request(names[names.len() - 1], theme)) == b.of(
            icon_request(names[names.len() - 1], theme),
        ));
    }
}

/// A button depends on the images that it is said to need, and on no others:
/// whether it can be built, and what it is then.
pub proof fn only_wanted_images_matter(c: ButtonConfigView, a: Images, b: Images, hw: Hardware)
    requires
        agree(a, b, images_wanted(c, hw)),
    ensures
        problem_of(c, a, hw) == problem_of(c, b, hw),
        built(c, a, hw) == built(c, b, hw),
{
    let w = images_wanted(c, hw);
    match kind_of(c) {
        ButtonKind::Notification(n) => {
            let first = opt_request(set_or(c.icon, default_icon(n)), c.theme);
            let second = opt_request(set_or(c.icon_active, default_active_icon(n)), c.theme);
            if first.len() > 0 {
                assert(w[0] == first[0]);
            }
            if second.len() > 0 {
                assert(w[first.len() as int] == second[0]);
            }
        },
        ButtonKind::Slider => {
            match c.option {
                Some(o) => match slider_kind_named(o) {
                    Some(k) => {
                        assert(w[0] == icon_request(slider_icon_name(k), c.theme));
                        if k == SliderKind::Volume {
                            assert(w[1] == icon_request("volume_off"@, c.theme));
                        }
                    },
                    None => {},
                },
                None => {},
            }
        },
        ButtonKind::Weather => {
            let names = weather_icon_names();
            assert forall|i: int| 0 <= i < names.len() implies a.of(
                icon_request(#[trigger] names[i], c.theme),
            ) == b.of(icon_request(names[i], c.theme)) by {
                assert(w[i] == icon_request(names[i], c.theme));
            }
            lemma_drawings_agree(names, c.theme, a, b);
        },
        ButtonKind::Battery => {
            if hw.battery is Some {
                assert(w[0] == icon_request("bolt"@, c.theme));
                let plain = plain_names();
                assert forall|i: int| 0 <= i < plain.len() implies a.of(
                    icon_request(#[trigger] plain[i], c.theme),
                ) == b.of(icon_request(plain[i], c.theme)) by {
                    assert(w[1 + i] == icon_request(plain[i], c.theme));
                }
                lemma_drawings_agree(plain, c.theme, a, b);
                let charging = charging_names();
                assert forall|i: int| 0 <= i < charging.len() implies a.of(
                    icon_request(#[trigger] charging[i], c.theme),
                ) == b.of(icon_request(charging[i], c.theme)) by {
                    assert(w[9 + i] == icon_request(charging[i], c.theme));
                }
                lemma_drawings_agree(charging, c.theme, a, b);
            }
        },
        ButtonKind::ActiveWindow => {
            assert(w[0] == icon_request("play"@, c.theme));
        },
        ButtonKind::Cpu | ButtonKind::Memory | ButtonKind::ActiveWorkspace | ButtonKind::Icon => {
            if c.icon is Some {
                assert(w[0] == own_request(c)[0]);
            }
        },
        _ => {},
    }
}

/// Any button can toggle to another layer besides what it shows.
pub proof fn any_button_can_toggle(c: ButtonConfigView, images: Images, hw: Hardware)
    requires
        c.layer_toggle is Some,
    ensures
        built(c, images, hw).target() == c.layer_toggle,
        built(c, images, hw).interactive(),
{
}

/// The names of buttons, told apart by their lengths and some of their letters.
proof fn lemma_names_differ()
    ensures
        "CPU"@.len() == 3,
        "cpu"@.len() == 3,
        "CPU"@[0] == 'C',
        "cpu"@[0] == 'c',
        "Time"@.len() == 4,
        "time"@.len() == 4,
        "Time"@[0] == 'T',
        "time"@[0] == 't',
        "Slider"@.len() == 6,
        "slider"@.len() == 6,
        "Memory"@.len() == 6,
        "memory"@.len() == 6,
        "Slider"@[0] == 'S',
        "slider"@[0] == 's',
        "Memory"@[0] == 'M',
        "memory"@[0] == 'm',
        "Weather"@.len() == 7,
        "weather"@.len() == 7,
        "Battery"@.len() == 7,
        "battery"@.len() == 7,
        "Weather"@[0] == 'W',
        "weather"@[0] == 'w',
        "Battery"@[0] == 'B',
        "battery"@[0] == 'b',
        "CpuUsage"@.len() == 8,
        "MemoryUsage"@.len() == 11,
        "noticiations"@.len() == 12,
        "ActiveWindow"@.len() == 12,
        "noticiations"@[0] == 'n',
        "ActiveWindow"@[0] == 'A',
        "notifications"@.len() == 13,
        "PreviousLayer"@.len() == 13,
        "active_window"@.len() == 13,
        "notifications"@[0] == 'n',
        "PreviousLayer"@[0] == 'P',
        "active_window"@[0] == 'a',
        "pullout_toggle"@.len() == 14,
        "DnDNotification"@.len() == 15,
        "ActiveWorkspace"@.len() == 15,
        "DnDNotification"@[0] == 'D',
        "ActiveWorkspace"@[0] == 'A',
        "NextNotification"@.len() == 16,
        "active_workspace"@.len() == 16,
        "NextNotification"@[0] == 'N',
        "active_workspace"@[0] == 'a',
        "NotificationContent"@.len() == 19,
        "PreviousNotification"@.len() == 20,
{
    reveal_strlit("notifications");
    reveal_strlit("noticiations");
    reveal_strlit("PreviousLayer");
    reveal_strlit("PreviousNotification");
    reveal_strlit("NotificationContent");
    reveal_strlit("NextNotification");
    reveal_strlit("DnDNotification");
    reveal_strlit("Slider");
    reveal_strlit("slider");
    reveal_strlit("Weather");
    reveal_strlit("weather");
    reveal_strlit("Time");
    reveal_strlit("time");
    reveal_strlit("pullout_toggle");
    reveal_strlit("Battery");
    reveal_strlit("battery");
    reveal_strlit("CpuUsage");
    reveal_strlit("CPU");
    reveal_strlit("cpu");
    reveal_strlit("MemoryUsage");
    reveal_strlit("Memory");
    reveal_strlit("memory");
    reveal_strlit("ActiveWindow");
    reveal_strlit("active_window");
    reveal_strlit("ActiveWorkspace");
    reveal_strlit("active_workspace");
}

/// A description is of a button of a name.
pub open spec fn calls_for(c: ButtonConfigView, name: &str) -> bool {
    c.button == Some(name@)
}

/// The name in a description decides what the button shows, a text comes before
/// the names of figures, and a description without a name shows its text, else its
/// picture, else the layer that it toggles to, else nothing.
pub proof fn name_decides_what_is_shown(c: ButtonConfigView, images: Images, hw: Hardware)
    requires
        problem_of(c, images, hw) is None,
    ensures
        ({
            let image = built(c, images, hw).image;
            &&& calls_for(c, "notifications") || calls_for(c, "noticiations") ==> image is Notification
                && image->Notification_0 == NotificationButton::Count
            &&& calls_for(c, "PreviousLayer") ==> image is Notification
                && image->Notification_0 == NotificationButton::Back
            &&& calls_for(c, "PreviousNotification") ==> image is Notification
                && image->Notification_0 == NotificationButton::Previous
            &&& calls_for(c, "NotificationContent") ==> image is Notification
                && image->Notification_0 == NotificationButton::Text
            &&& calls_for(c, "NextNotification") ==> image is Notification
                && image->Notification_0 == NotificationButton::Next
            &&& calls_for(c, "DnDNotification") ==> image is Notification
                && image->Notification_0 == NotificationButton::Dnd
            &&& calls_for(c, "Slider") || calls_for(c, "slider") ==> image is Slider
                || image is Spacer
            &&& calls_for(c, "Weather") || calls_for(c, "weather") ==> image is WeatherCurrent
                || image is WeatherForecast || image is Spacer
            &&& calls_for(c, "Time") || calls_for(c, "time") ==> image is Time
            &&& calls_for(c, "pullout_toggle") ==> {
                &&& image matches ImageView::LayerToggle(target, label)
                &&& target == or_else(c.layer_toggle, Seq::empty())
                &&& label == or_else(c.text, Seq::empty())
            }
            &&& c.text is None ==> {
                &&& calls_for(c, "Battery") || calls_for(c, "battery") ==> match hw.battery {
                    Some(device) => image is Battery && image->Battery_0 == device@,
                    None => image == ImageView::Text("Battery N/A"@),
                }
                &&& calls_for(c, "CpuUsage") || calls_for(c, "CPU") || calls_for(c, "cpu") ==> image is CpuUsage
                    && image->CpuUsage_1 == c.colorize
                &&& calls_for(c, "MemoryUsage") || calls_for(c, "Memory") || calls_for(c, "memory")
                    ==> image is MemoryUsage
                    && image->MemoryUsage_1 == c.colorize
                &&& calls_for(c, "ActiveWindow") || calls_for(c, "active_window") ==> image is ActiveWindow
                    && image->ActiveWindow_1 == c.colorize
                &&& calls_for(c, "ActiveWorkspace") || calls_for(c, "active_workspace") ==> image is ActiveWorkspace
                    && image->ActiveWorkspace_1 == c.colorize
            }
            &&& c.text is Some && (c.button is None || calls_for(c, "Battery") || calls_for(
                c,
                "battery",
            ) || calls_for(c, "CpuUsage") || calls_for(c, "CPU") || calls_for(c, "cpu")
                || calls_for(c, "MemoryUsage") || calls_for(c, "Memory") || calls_for(c, "memory")
                || calls_for(c, "ActiveWindow") || calls_for(c, "active_window") || calls_for(
                c,
                "ActiveWorkspace",
            ) || calls_for(c, "active_workspace")) ==> image == ImageView::Text(c.text->0)
            &&& c.button is None && c.text is None ==> {
                &&& c.icon is Some ==> image is Svg || image is Bitmap
                &&& c.icon is None && c.layer_toggle is Some ==> image == ImageView::LayerToggle(
                    c.layer_toggle->0,
                    c.layer_toggle->0,
                )
                &&& c.icon is None && c.layer_toggle is None ==> image is Spacer
            }
        }),
{
    lemma_names_differ();
}

/// A button built from a description that is a text, a picture, a time, a battery,
/// a figure, the active window or the active workspace sends exactly the keys of
/// the description, in their order: a press puts each of them down, ends the
/// group, and a release lifts them again. Any other button sends none.
pub proof fn keys_are_those_described(
    c: ButtonConfigView,
    images: Images,
    hw: Hardware,
    env: crate::command::Environment,
)
    requires
        problem_of(c, images, hw) is None,
    ensures
        ({
            let b = built(c, images, hw);
            let down = b.press(true, env).events;
            let up = b.with_active(true).press(false, env).events;
            if b.image is Text || b.image is Svg || b.image is Bitmap || b.image is Time
                || b.image is Battery || b.image is CpuUsage || b.image is MemoryUsage
                || b.image is ActiveWindow || b.image is ActiveWorkspace {
                &&& b.action == c.action
                &&& c.action.len() == 0 ==> down.len() == 0 && up.len() == 0
                &&& c.action.len() > 0 ==> {
                    &&& b.interactive()
                    &&& down.len() == c.action.len() + 1
                    &&& up.len() == c.action.len() + 1
                    &&& forall|i: int|
                        0 <= i < c.action.len() ==> {
                            &&& (#[trigger] down[i]).kind == 1
                            &&& down[i].code == c.action[i]
                            &&& down[i].value == 1
                        }
                    &&& forall|i: int|
                        0 <= i < c.action.len() ==> {
                            &&& (#[trigger] up[i]).kind == 1
                            &&& up[i].code == c.action[i]
                            &&& up[i].value == 0
                        }
                    &&& down.last().kind == 0 && down.last().code == 0 && down.last().value == 0
                    &&& up.last().kind == 0 && up.last().code == 0 && up.last().value == 0
                }
            } else {
                &&& b.action.len() == 0
                &&& down.len() == 0
                &&& up.len() == 0
            }
        }),
{
}

/// A time, a battery, a figure and the active workspace run the command of their
/// description when they are pressed, and not when they are released; no other
/// button has one.
pub proof fn commands_are_those_described(
    c: ButtonConfigView,
    images: Images,
    hw: Hardware,
    env: crate::command::Environment,
)
    requires
        problem_of(c, images, hw) is None,
    ensures
        ({
            let b = built(c, images, hw);
            let run = b.press(true, env).command;
            &&& b.image is Time || b.image is Battery || b.image is CpuUsage || b.image is MemoryUsage
                || b.image is ActiveWorkspace ==> match c.command {
                Some(line) => b.interactive() && run is Some && (run->0).args.last() == line,
                None => run is None,
            }
            &&& b.image is Text || b.image is Svg || b.image is Bitmap || b.image is ActiveWindow
                || b.image is Notification || b.image is Slider || b.image is WeatherCurrent
                || b.image is WeatherForecast || b.image is LayerToggle || b.image is Spacer
                ==> run is None
            &&& b.with_active(true).press(false, env).command is None
        }),
{
}

/// What all descriptions can set is kept, whatever the button shows, and a new
/// button is neither pressed nor held.
pub proof fn shared_settings_are_kept(c: ButtonConfigView, images: Images, hw: Hardware)
    ensures
        built(c, images, hw).stacked == c.stacked,
        built(c, images, hw).font_size == c.font_size,
        built(c, images, hw).max_title_length == c.max_title_length,
        built(c, images, hw).toggle_target == c.layer_toggle,
        !built(c, images, hw).active,
        built(c, images, hw).hold_started is None,
{
}

/// A number, or the default side of an icon.
pub open spec fn side_or_default(n: Option<i32>) -> i32 {
    match n {
        Some(n) => n,
        None => 48,
    }
}

/// The picture of a description is the one that was loaded for it, under its
/// theme and in its size: a drawing or a bitmap as its own button, and beside a
/// figure a drawing only.
pub proof fn picture_is_the_one_loaded(c: ButtonConfigView, images: Images, hw: Hardware)
    requires
        problem_of(c, images, hw) is None,
        c.icon is Some,
    ensures
        ({
            let b = built(c, images, hw);
            let w = side_or_default(c.icon_width);
            let h = side_or_default(c.icon_height);
            let loaded = images.of(
                RequestView { name: c.icon->0, theme: c.theme, width: w, height: h },
            );
            let own = match loaded {
                Loaded::Svg(id) => Some(id),
                _ => None,
            };
            &&& b.image matches ImageView::Svg(id) ==> loaded == Loaded::Svg(id) && b.icon_width == w
                && b.icon_height == h
            &&& b.image matches ImageView::Bitmap(id) ==> loaded == Loaded::Bitmap(id) && b.icon_width
                == w && b.icon_height == h
            &&& b.image matches ImageView::CpuUsage(icon, _) ==> icon == own && (own is Some ==> {
                b.icon_width == w && b.icon_height == h
            })
            &&& b.image matches ImageView::MemoryUsage(icon, _) ==> icon == own && (own is Some ==> {
                b.icon_width == w && b.icon_height == h
            })
            &&& b.image matches ImageView::ActiveWorkspace(icon, _) ==> icon == own && (own is Some
                ==> { b.icon_width == w && b.icon_height == h })
        }),
{
}

/// A figure without an icon in its description has none.
pub proof fn figure_needs_no_icon(c: ButtonConfigView, images: Images, hw: Hardware)
    requires
        c.icon is None,
    ensures
        built(c, images, hw).image matches ImageView::CpuUsage(icon, _) ==> icon is None,
        built(c, images, hw).image matches ImageView::MemoryUsage(icon, _) ==> icon is None,
        built(c, images, hw).image matches ImageView::ActiveWorkspace(icon, _) ==> icon is None,
{
}

/// The format of a time button is the option of its description, with short names
/// for the two usual ones, of which that with 24 hours stands for none; its locale
/// is the one set, if it is known.
pub proof fn time_follows_its_option(c: ButtonConfigView, images: Images, hw: Hardware)
    ensures
        built(c, images, hw).image matches ImageView::Time(format, locale) ==> {
            &&& c.option is None || c.option == Some("24hr"@) || c.option == Some("24h"@) ==> format
                == "%H:%M    %a %-e %b"@
            &&& c.option == Some("12hr"@) || c.option == Some("12h"@) ==> format
                == "%-l:%M %p    %a %-e %b"@
            &&& c.option is Some && c.option != Some("24hr"@) && c.option != Some("24h"@) && c.option
                != Some("12hr"@) && c.option != Some("12h"@) ==> c.option == Some(format)
            &&& match c.locale {
                Some(l) => locale == if is_locale(l) {
                    l
                } else {
                    "POSIX"@
                },
                None => locale == "POSIX"@,
            }
        },
{
    reveal_strlit("24hr");
    reveal_strlit("24h");
    reveal_strlit("12hr");
    reveal_strlit("12h");
    assert("24hr"@.len() == 4 && "24hr"@[0] == '2');
    assert("12hr"@.len() == 4 && "12hr"@[0] == '1');
    assert("24h"@.len() == 3 && "24h"@[0] == '2');
    assert("12h"@.len() == 3 && "12h"@[0] == '1');
}

/// A battery shows what its option says, and its charge in per cent where it has
/// none; its icons are those that were loaded under their names.
pub proof fn battery_follows_its_option(c: ButtonConfigView, images: Images, hw: Hardware)
    requires
        problem_of(c, images, hw) is None,
    ensures
        built(c, images, hw).image matches ImageView::Battery(_, mode, icons, colorize) ==> {
            &&& colorize == c.colorize
            &&& match c.option {
                Some(o) => {
                    &&& mode == BatteryIconMode::Icon <==> o == "icon"@
                    &&& mode == BatteryIconMode::Percentage <==> o == "percentage"@
                    &&& mode == BatteryIconMode::Both <==> o == "both"@
                },
                None => mode == BatteryIconMode::Percentage,
            }
            &&& icons.plain.len() == 8
            &&& images.icon("battery_0_bar"@, c.theme) == Some(icons.plain[0])
            &&& images.icon("battery_1_bar"@, c.theme) == Some(icons.plain[1])
            &&& images.icon("battery_2_bar"@, c.theme) == Some(icons.plain[2])
            &&& images.icon("battery_3_bar"@, c.theme) == Some(icons.plain[3])
            &&& images.icon("battery_4_bar"@, c.theme) == Some(icons.plain[4])
            &&& images.icon("battery_5_bar"@, c.theme) == Some(icons.plain[5])
            &&& images.icon("battery_6_bar"@, c.theme) == Some(icons.plain[6])
            &&& images.icon("battery_full"@, c.theme) == Some(icons.plain[7])
            &&& icons.charging.len() == 7
            &&& images.icon("battery_charging_20"@, c.theme) == Some(icons.charging[0])
            &&& images.icon("battery_charging_30"@, c.theme) == Some(icons.charging[1])
            &&& images.icon("battery_charging_50"@, c.theme) == Some(icons.charging[2])
            &&& images.icon("battery_charging_60"@, c.theme) == Some(icons.charging[3])
            &&& images.icon("battery_charging_80"@, c.theme) == Some(icons.charging[4])
            &&& images.icon("battery_charging_90"@, c.theme) == Some(icons.charging[5])
            &&& images.icon("battery_charging_full"@, c.theme) == Some(icons.charging[6])
            &&& images.icon("bolt"@, c.theme) == Some(icons.bolt)
        },
{
    reveal_strlit("icon");
    reveal_strlit("percentage");
    reveal_strlit("both");
    assert("icon"@.len() == 4 && "icon"@[0] == 'i');
    assert("both"@.len() == 4 && "both"@[0] == 'b');
    assert("percentage"@.len() == 10);
    lemma_drawings_at(plain_names(), c.theme, images);
    lemma_drawings_at(charging_names(), c.theme, images);
    let plain = plain_names();
    let charging = charging_names();
    assert(images.icon(plain[0], c.theme) == images.icon("battery_0_bar"@, c.theme));
    assert(images.icon(plain[1], c.theme) == images.icon("battery_1_bar"@, c.theme));
    assert(images.icon(plain[2], c.theme) == images.icon("battery_2_bar"@, c.theme));
    assert(images.icon(plain[3], c.theme) == images.icon("battery_3_bar"@, c.theme));
    assert(images.icon(plain[4], c.theme) == images.icon("battery_4_bar"@, c.theme));
    assert(images.icon(plain[5], c.theme) == images.icon("battery_5_bar"@, c.theme));
    assert(images.icon(plain[6], c.theme) == images.icon("battery_6_bar"@, c.theme));
    assert(images.icon(plain[7], c.theme) == images.icon("battery_full"@, c.theme));
    assert(images.icon(charging[0], c.theme) == images.icon("battery_charging_20"@, c.theme));
    assert(images.icon(charging[1], c.theme) == images.icon("battery_charging_30"@, c.theme));
    assert(images.icon(charging[2], c.theme) == images.icon("battery_charging_50"@, c.theme));
    assert(images.icon(charging[3], c.theme) == images.icon("battery_charging_60"@, c.theme));
    assert(images.icon(charging[4], c.theme) == images.icon("battery_charging_80"@, c.theme));
    assert(images.icon(charging[5], c.theme) == images.icon("battery_charging_90"@, c.theme));
    assert(images.icon(charging[6], c.theme) == images.icon("battery_charging_full"@, c.theme));
}

proof fn lemma_drawings_at(names: Seq<Seq<char>>, theme: Option<Seq<char>>, images: Images)
    ensures
        drawings(names, theme, images) matches Some(ids) ==> {
            &&& ids.len() == names.len()
            &&& forall|i: int|
                0 <= i < names.len() ==> images.icon(#[trigger] names[i], theme) == Some(ids[i])
        },
    decreases names.len(),
{
    if names.len() > 0 {
        lemma_drawings_at(names.drop_last(), theme, images);
        if drawings(names, theme, images) is Some {
            let ids = drawings(names, theme, images)->0;
            assert forall|i: int| 0 <= i < names.len() implies images.icon(#[trigger] names[i], theme)
                == Some(ids[i]) by {
                if i < names.len() - 1 {
                    assert(names.drop_last()[i] == names[i]);
                }
            }
        }
    }
}

/// A slider is of the kind that its option names, coloured as its description
/// says, with the icon that was loaded for that kind; only the volume has an icon
/// for when it is muted. An option that names no kind gives no slider.
pub proof fn slider_follows_its_option(c: ButtonConfigView, images: Images, hw: Hardware)
    requires
        calls_for(c, "Slider") || calls_for(c, "slider"),
    ensures
        ({
            let image = built(c, images, hw).image;
            let kind = match c.option {
                Some(o) => slider_kind_named(o),
                None => None,
            };
            match kind {
                Some(k) => {
                    &&& image matches ImageView::Slider { state, icon, muted_icon, colorize }
                    &&& state.kind == k
                    &&& colorize == c.colorize
                    &&& k == SliderKind::DisplayBrightness ==> icon == images.icon(
                        "brightness_low"@,
                        c.theme,
                    ) && muted_icon is None && match hw.display {
                        Some(d) => state.path == Some(d.path),
                        None => state.path is None,
                    }
                    &&& k == SliderKind::KeyboardBacklight ==> icon == images.icon(
                        "backlight_low"@,
                        c.theme,
                    ) && muted_icon is None && match hw.keyboard {
                        Some(d) => state.path == Some(d.path),
                        None => state.path is None,
                    }
                    &&& k == SliderKind::Volume ==> icon == images.icon("volume_down"@, c.theme)
                        && muted_icon == images.icon("volume_off"@, c.theme) && state.path is None
                        && match hw.volume {
                        Some(v) => state.muted == v.1 && (0 <= v.0 <= 1_000_000_000 ==> state.value
                            == v.0),
                        None => true,
                    }
                },
                None => image is Spacer,
            }
        }),
{
    lemma_names_differ();
}

/// A weather button is for now unless its option says that it is for a day of the
/// forecast, today where no day is set.
pub proof fn weather_follows_its_option(c: ButtonConfigView, images: Images, hw: Hardware)
    requires
        calls_for(c, "Weather") || calls_for(c, "weather"),
    ensures
        ({
            let image = built(c, images, hw).image;
            &&& c.option is None || c.option == Some("current"@) <==> image is WeatherCurrent
            &&& c.option == Some("forecast"@) <==> image is WeatherForecast
            &&& image matches ImageView::WeatherForecast(day, _, colorize) ==> colorize == c.colorize
                && match c.weather_day {
                Some(d) => day == d,
                None => day == 0,
            }
            &&& image matches ImageView::WeatherCurrent(_, colorize) ==> colorize == c.colorize
        }),
{
    lemma_names_differ();
    reveal_strlit("current");
    reveal_strlit("forecast");
}

/// A notification button has the icons of its description; one that counts has a
/// letter where it has none, and one for not being disturbed has a bell.
pub proof fn notification_icons_have_defaults(c: ButtonConfigView, images: Images, hw: Hardware)
    ensures
        built(c, images, hw).image matches ImageView::Notification(kind, icon, active) ==> {
            &&& c.icon matches Some(n) ==> icon == images.icon(n, c.theme)
            &&& c.icon_active matches Some(n) ==> active == images.icon(n, c.theme)
            &&& c.icon is None ==> match kind {
                NotificationButton::Count => icon == images.icon("mail"@, c.theme),
                NotificationButton::Dnd => icon == images.icon("bell-ring"@, c.theme),
                _ => icon is None,
            }
            &&& c.icon_active is None ==> match kind {
                NotificationButton::Dnd => active == images.icon("bell-off"@, c.theme),
                _ => active is None,
            }
        },
{
}

/// A button cannot be built for one of these reasons, and for no other one: the
/// format of a time is not valid, the picture of a button that shows nothing else
/// was not loaded, the active window's icon or one of a battery's was not loaded as
/// a drawing, or a battery's option is none of those that there are. A battery that
/// there is not needs neither.
pub proof fn what_cannot_be_built(c: ButtonConfigView, images: Images, hw: Hardware)
    ensures
        ({
            let p = problem_of(c, images, hw);
            let request = RequestView {
                name: c.icon->0,
                theme: c.theme,
                width: side_or_default(c.icon_width),
                height: side_or_default(c.icon_height),
            };
            let drawn = images.icon("bolt"@, c.theme) is Some && images.icon(
                "battery_0_bar"@,
                c.theme,
            ) is Some && images.icon("battery_full"@, c.theme) is Some && images.icon(
                "battery_charging_20"@,
                c.theme,
            ) is Some && images.icon("battery_charging_full"@, c.theme) is Some;
            match kind_of(c) {
                ButtonKind::Time => p is Some <==> strftime_items(built(c, images, hw).image->Time_0)
                    is None,
                ButtonKind::Icon => p is Some <==> images.of(request) == Loaded::Failed,
                ButtonKind::ActiveWindow => p is Some <==> images.icon("play"@, c.theme) is None,
                ButtonKind::Battery => {
                    &&& hw.battery is None ==> p is None
                    &&& hw.battery is Some && !drawn ==> p == Some(BuildProblem::BatteryIcon)
                    &&& p == Some(BuildProblem::BatteryMode) ==> c.option is Some && c.option
                        != Some("icon"@) && c.option != Some("percentage"@) && c.option != Some(
                        "both"@,
                    )
                    &&& p is None && hw.battery is Some && c.option is Some ==> c.option == Some(
                        "icon"@,
                    ) || c.option == Some("percentage"@) || c.option == Some("both"@)
                },
                _ => p is None,
            }
        }),
{
    lemma_drawings_at(plain_names(), c.theme, images);
    lemma_drawings_at(charging_names(), c.theme, images);
    let plain = plain_names();
    let charging = charging_names();
    assert(images.icon(plain[0], c.theme) == images.icon("battery_0_bar"@, c.theme));
    assert(images.icon(plain[7], c.theme) == images.icon("battery_full"@, c.theme));
    assert(images.icon(charging[0], c.theme) == images.icon("battery_charging_20"@, c.theme));
    assert(images.icon(charging[6], c.theme) == images.icon("battery_charging_full"@, c.theme));
}

/// A slider starts where its device stands: it knows the largest brightness of the
/// backlight that was found for its kind, and shows the present one as a part of
/// it, to the nearest billionth.
pub proof fn slider_starts_where_its_device_stands(
    kind: SliderKind,
    theme: Option<Seq<char>>,
    colorize: bool,
    images: Images,
    hw: Hardware,
    max: u32,
    now: u32,
)
    requires
        kind != SliderKind::Volume,
        0 < max,
        now <= max,
        ({
            let found = if kind == SliderKind::DisplayBrightness {
                hw.display
            } else {
                hw.keyboard
            };
            &&& found matches Some(b)
            &&& b.max_brightness matches Some(m)
            &&& b.brightness matches Some(n)
            &&& m@ == decimal(max as nat) + "\n"@
            &&& n@ == decimal(now as nat) + "\n"@
        }),
    ensures
        ({
            let state = slider_button(kind, theme, colorize, images, hw).image->Slider_state;
            &&& state.max == max
            &&& -(max as int) <= 2 * (state.value * max - now * 1_000_000_000) <= max
        }),
{
    decimal_is_read_back(max as nat);
    decimal_is_read_back(now as nat);
    line_of_digits_is_trimmed(decimal(max as nat));
    line_of_digits_is_trimmed(decimal(now as nat));
    let found = if kind == SliderKind::DisplayBrightness {
        hw.display
    } else {
        hw.keyboard
    };
    let b = found->0;
    let unread = Slider::unread(kind, Some(b.path), text_opt(b.max_brightness));
    assert(number_in(text_opt(b.brightness)) == Some(now));
    assert(unread.max == max && unread.path is Some);
    brightness_is_read_as_its_part(unread, now, max, hw.now);
}

} // verus!
