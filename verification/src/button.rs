//! Buttons: what they are, how they are coloured, and what a touch does to them.

use vstd::prelude::*;
use vstd::string::*;

use crate::clock::{shows_seconds, strftime_items, ticks, time_items, TimeItem};
use crate::command::{
    press_command, pressed_command, text_opt, CommandPlan, CommandView, Environment,
};
use crate::image::Images;
use crate::input::{key_events, toggle_keys, InputEvent};
use crate::notification_manager::NotificationManager;
use crate::number::{Color, ONE};
use crate::slider::{slider_effect_opt, Reading, Slider, SliderEffect, SliderKind};
use crate::sysinfo_manager::SystemInfoManager;
use crate::text::{from_utf8, same, text_of, to_uppercase, trim, trimmed, uppercase, utf8_text};

verus! {

/// How long a finger rests on a button for a long press, in nanoseconds.
pub const LONG_PRESS_TIMEOUT: u64 = 600_000_000;

/// How long the power profile is kept before it is asked for again, in
/// nanoseconds.
pub const POWER_PROFILE_TTL: u64 = 5_000_000_000;

/// Colours that mean something.
pub const WHITE: Color = (10_000, 10_000, 10_000);

pub const YELLOW: Color = (10_000, 8_500, 0);

pub const ORANGE: Color = (10_000, 4_500, 0);

pub const PURPLE: Color = (5_500, 2_500, 10_000);

pub const RED: Color = (10_000, 0, 0);

pub const BLUE: Color = (0, 4_500, 10_000);

pub const GREEN: Color = (0, 8_000, 0);

/// What a battery is doing.
#[derive(Clone, Copy, PartialEq, Eq, Structural, Debug)]
pub enum BatteryState {
    NotCharging,
    Charging,
    Low,
}

/// The icons of a battery: empty to full, the same while charging, and the sign
/// for charging.
pub struct BatteryImages {
    pub plain: Vec<u32>,
    pub charging: Vec<u32>,
    pub bolt: u32,
}

/// The icons of the weather, by name.
pub struct WeatherIcons {
    pub icons: Vec<(String, u32)>,
}

/// The names of the weather icons.
pub open spec fn weather_icon_names() -> Seq<Seq<char>> {
    seq![
        "weather_sunny"@,
        "weather_cloudy"@,
        "weather_rainy"@,
        "weather_snowy"@,
        "weather_moon"@,
    ]
}

/// The values of named icons.
pub open spec fn icon_entries(v: Seq<(String, u32)>) -> Seq<(Seq<char>, u32)> {
    Seq::new(v.len(), |i: int| (v[i].0@, v[i].1))
}

/// The icon of that name.
pub open spec fn icon_named(v: Seq<(Seq<char>, u32)>, name: Seq<char>) -> Option<(Seq<char>, u32)>
    decreases v.len(),
{
    if v.len() == 0 {
        None
    } else if v[0].0 == name {
        Some(v[0])
    } else {
        icon_named(v.subrange(1, v.len() as int), name)
    }
}

/// The icon of that name, or the one for clouds where there is none.
pub open spec fn icon_picked(v: Seq<(Seq<char>, u32)>, name: Seq<char>) -> Option<(Seq<char>, u32)> {
    match icon_named(v, name) {
        Some(e) => Some(e),
        None => icon_named(v, "weather_cloudy"@),
    }
}

/// Those of the named icons that were loaded as drawings.
pub open spec fn icons_loaded(
    names: Seq<Seq<char>>,
    theme: Option<Seq<char>>,
    images: Images,
) -> Seq<(Seq<char>, u32)>
    decreases names.len(),
{
    if names.len() == 0 {
        Seq::empty()
    } else {
        let earlier = icons_loaded(names.drop_last(), theme, images);
        match images.icon(names.last(), theme) {
            Some(id) => earlier.push((names.last(), id)),
            None => earlier,
        }
    }
}

impl WeatherIcons {
    /// Adds an icon if it was loaded as a drawing.
    fn load_one(&mut self, name: &str, theme: &Option<String>, images: &Images)
        ensures
            icon_entries(final(self).icons@) == match images.icon(name@, text_opt(*theme)) {
                Some(id) => icon_entries(old(self).icons@).push((name@, id)),
                None => icon_entries(old(self).icons@),
            },
    {
        let ghost was = icon_entries(self.icons@);
        match images.find_icon(name, theme) {
            Some(id) => {
                self.icons.push((name.to_owned(), id));
                assert(icon_entries(self.icons@) =~= was.push((name@, id)));
            },
            None => {},
        }
    }

    /// The weather icons that were loaded as drawings.
    pub fn load(theme: &Option<String>, images: &Images) -> (r: WeatherIcons)
        ensures
            icon_entries(r.icons@) == icons_loaded(
                weather_icon_names(),
                text_opt(*theme),
                *images,
            ),
    {
        let mut r = WeatherIcons { icons: Vec::new() };
        assert(icon_entries(r.icons@) =~= Seq::empty());
        proof {
            let n = weather_icon_names();
            reveal_with_fuel(icons_loaded, 6);
            assert(n.drop_last() =~= seq![n[0], n[1], n[2], n[3]]);
            assert(n.drop_last().drop_last() =~= seq![n[0], n[1], n[2]]);
            assert(n.drop_last().drop_last().drop_last() =~= seq![n[0], n[1]]);
            assert(n.drop_last().drop_last().drop_last().drop_last() =~= seq![n[0]]);
            assert(n.drop_last().drop_last().drop_last().drop_last().drop_last()
                =~= Seq::<Seq<char>>::empty());
        }
        r.load_one("weather_sunny", theme, images);
        r.load_one("weather_cloudy", theme, images);
        r.load_one("weather_rainy", theme, images);
        r.load_one("weather_snowy", theme, images);
        r.load_one("weather_moon", theme, images);
        r
    }

    /// Finds the icon of that name.
    fn find(&self, name: &str) -> (r: Option<(String, u32)>)
        ensures
            match r {
                Some(e) => icon_named(icon_entries(self.icons@), name@) == Some((e.0@, e.1)),
                None => icon_named(icon_entries(self.icons@), name@) is None,
            },
    {
        let ghost all = icon_entries(self.icons@);
        let n = self.icons.len();
        let mut i: usize = 0;
        assert(all.subrange(0, n as int) =~= all);
        while i < n
            invariant
                i <= n,
                n == self.icons@.len(),
                all == icon_entries(self.icons@),
                icon_named(all.subrange(i as int, n as int), name@) == icon_named(all, name@),
            decreases n - i,
        {
            let ghost rest = all.subrange(i as int, n as int);
            assert(rest[0] == all[i as int]);
            assert(rest.subrange(1, rest.len() as int) =~= all.subrange(i + 1, n as int));
            if same(self.icons[i].0.as_str(), name) {
                return Some((self.icons[i].0.clone(), self.icons[i].1));
            }
            i += 1;
        }
        None
    }

    /// The icon of that name, or the one for clouds, with its own name.
    pub fn pick(&self, name: &str) -> (r: Option<(String, u32)>)
        ensures
            match r {
                Some(e) => icon_picked(icon_entries(self.icons@), name@) == Some((e.0@, e.1)),
                None => icon_picked(icon_entries(self.icons@), name@) is None,
            },
    {
        match self.find(name) {
            Some(e) => Some(e),
            None => self.find("weather_cloudy"),
        }
    }
}

/// What a battery button shows.
#[derive(Clone, Copy, PartialEq, Eq, Structural, Debug)]
pub enum BatteryIconMode {
    Percentage,
    Icon,
    Both,
}

impl BatteryIconMode {
    /// Whether the battery's icon is shown.
    pub fn should_draw_icon(self) -> (r: bool)
        ensures
            r == (self != BatteryIconMode::Percentage),
    {
        self != BatteryIconMode::Percentage
    }

    /// Whether the charge is shown as text.
    pub fn should_draw_text(self) -> (r: bool)
        ensures
            r == (self != BatteryIconMode::Icon),
    {
        self != BatteryIconMode::Icon
    }
}

/// What a notification button is for.
#[derive(Clone, Copy, PartialEq, Eq, Structural, Debug)]
pub enum NotificationButton {
    Count,
    Back,
    Previous,
    Text,
    Next,
    Dnd,
}

/// What a button shows. Icons and bitmaps are numbers of loaded images.
pub enum ButtonImage {
    Text(String),
    Svg(u32),
    Bitmap(u32),
    /// The time, in a format and a locale.
    Time(String, String),
    /// A battery's charge: its device, what to show, its icons, whether to
    /// colour it.
    Battery(String, BatteryIconMode, BatteryImages, bool),
    /// A toggle to another layer: its name and a label.
    LayerToggle(String, String),
    CpuUsage(Option<u32>, bool),
    MemoryUsage(Option<u32>, bool),
    ActiveWindow(Option<u32>, bool),
    ActiveWorkspace(Option<u32>, bool),
    Slider { state: Slider, icon: Option<u32>, muted_icon: Option<u32>, colorize: bool },
    WeatherCurrent(WeatherIcons, bool),
    WeatherForecast(usize, WeatherIcons, bool),
    Notification(NotificationButton, Option<u32>, Option<u32>),
    Spacer,
}

/// The mathematical counterpart of [`BatteryImages`].
#[verifier::ext_equal]
pub struct BatteryImagesView {
    pub plain: Seq<u32>,
    pub charging: Seq<u32>,
    pub bolt: u32,
}

/// The mathematical counterpart of [`ButtonImage`].
#[verifier::ext_equal]
pub enum ImageView {
    Text(Seq<char>),
    Svg(u32),
    Bitmap(u32),
    Time(Seq<char>, Seq<char>),
    Battery(Seq<char>, BatteryIconMode, BatteryImagesView, bool),
    LayerToggle(Seq<char>, Seq<char>),
    CpuUsage(Option<u32>, bool),
    MemoryUsage(Option<u32>, bool),
    ActiveWindow(Option<u32>, bool),
    ActiveWorkspace(Option<u32>, bool),
    Slider { state: Slider, icon: Option<u32>, muted_icon: Option<u32>, colorize: bool },
    WeatherCurrent(Seq<(Seq<char>, u32)>, bool),
    WeatherForecast(usize, Seq<(Seq<char>, u32)>, bool),
    Notification(NotificationButton, Option<u32>, Option<u32>),
    Spacer,
}

impl View for BatteryImages {
    type V = BatteryImagesView;

    open spec fn view(&self) -> BatteryImagesView {
        BatteryImagesView { plain: self.plain@, charging: self.charging@, bolt: self.bolt }
    }
}

impl View for ButtonImage {
    type V = ImageView;

    open spec fn view(&self) -> ImageView {
        match self {
            ButtonImage::Text(t) => ImageView::Text(t@),
            ButtonImage::Svg(id) => ImageView::Svg(*id),
            ButtonImage::Bitmap(id) => ImageView::Bitmap(*id),
            ButtonImage::Time(f, l) => ImageView::Time(f@, l@),
            ButtonImage::Battery(d, m, i, c) => ImageView::Battery(d@, *m, i@, *c),
            ButtonImage::LayerToggle(t, l) => ImageView::LayerToggle(t@, l@),
            ButtonImage::CpuUsage(i, c) => ImageView::CpuUsage(*i, *c),
            ButtonImage::MemoryUsage(i, c) => ImageView::MemoryUsage(*i, *c),
            ButtonImage::ActiveWindow(i, c) => ImageView::ActiveWindow(*i, *c),
            ButtonImage::ActiveWorkspace(i, c) => ImageView::ActiveWorkspace(*i, *c),
            ButtonImage::Slider { state, icon, muted_icon, colorize } => ImageView::Slider {
                state: *state,
                icon: *icon,
                muted_icon: *muted_icon,
                colorize: *colorize,
            },
            ButtonImage::WeatherCurrent(i, c) => ImageView::WeatherCurrent(
                icon_entries(i.icons@),
                *c,
            ),
            ButtonImage::WeatherForecast(d, i, c) => ImageView::WeatherForecast(
                *d,
                icon_entries(i.icons@),
                *c,
            ),
            ButtonImage::Notification(k, i, a) => ImageView::Notification(*k, *i, *a),
            ButtonImage::Spacer => ImageView::Spacer,
        }
    }
}

/// The notification button that a name stands for.
pub open spec fn notification_named(name: Seq<char>) -> Option<NotificationButton> {
    if name == "notifications"@ || name == "noticiations"@ {
        Some(NotificationButton::Count)
    } else if name == "PreviousLayer"@ {
        Some(NotificationButton::Back)
    } else if name == "PreviousNotification"@ {
        Some(NotificationButton::Previous)
    } else if name == "NotificationContent"@ {
        Some(NotificationButton::Text)
    } else if name == "NextNotification"@ {
        Some(NotificationButton::Next)
    } else if name == "DnDNotification"@ {
        Some(NotificationButton::Dnd)
    } else {
        None
    }
}

/// Reads the name of a notification button.
pub fn notification_button_alias(name: &str) -> (r: Option<NotificationButton>)
    ensures
        r == notification_named(name@),
{
    if same(name, "notifications") || same(name, "noticiations") {
        Some(NotificationButton::Count)
    } else if same(name, "PreviousLayer") {
        Some(NotificationButton::Back)
    } else if same(name, "PreviousNotification") {
        Some(NotificationButton::Previous)
    } else if same(name, "NotificationContent") {
        Some(NotificationButton::Text)
    } else if same(name, "NextNotification") {
        Some(NotificationButton::Next)
    } else if same(name, "DnDNotification") {
        Some(NotificationButton::Dnd)
    } else {
        None
    }
}

/// The time option that another spelling stands for.
pub open spec fn normal_time_option(option: Seq<char>) -> Seq<char> {
    if option == "24h"@ {
        "24hr"@
    } else if option == "12h"@ {
        "12hr"@
    } else {
        option
    }
}

/// Brings a time option to its usual spelling.
pub fn normalize_time_option(option: String) -> (r: String)
    ensures
        r@ == normal_time_option(option@),
{
    if same(option.as_str(), "24h") {
        "24hr".to_owned()
    } else if same(option.as_str(), "12h") {
        "12hr".to_owned()
    } else {
        option
    }
}

/// The colour for a usage in per cent, rounded up.
pub fn usage_color(percent: u64) -> (r: Color)
    ensures
        r == usage_tint(percent as nat),
{
    if percent <= 10 {
        WHITE
    } else if percent <= 25 {
        YELLOW
    } else if percent <= 55 {
        ORANGE
    } else if percent <= 75 {
        PURPLE
    } else {
        RED
    }
}

/// The colour for a usage in per cent, rounded up.
pub open spec fn usage_tint(percent: nat) -> Color {
    if percent <= 10 {
        WHITE
    } else if percent <= 25 {
        YELLOW
    } else if percent <= 55 {
        ORANGE
    } else if percent <= 75 {
        PURPLE
    } else {
        RED
    }
}

/// The colour for a charge in per cent.
pub open spec fn battery_tint(percent: u32) -> Color {
    if percent <= 10 {
        RED
    } else if percent <= 25 {
        PURPLE
    } else if percent <= 50 {
        ORANGE
    } else if percent <= 75 {
        BLUE
    } else {
        GREEN
    }
}

/// The colour for a charge in per cent.
pub fn battery_color(percent: u32) -> (r: Color)
    ensures
        r == battery_tint(percent),
{
    if percent <= 10 {
        RED
    } else if percent <= 25 {
        PURPLE
    } else if percent <= 50 {
        ORANGE
    } else if percent <= 75 {
        BLUE
    } else {
        GREEN
    }
}

/// Whether a battery is so low that its button is to warn of it.
pub open spec fn warns(capacity: u32, state: BatteryState, colorize: bool) -> bool {
    colorize && state != BatteryState::Charging && capacity <= 10
}

/// Whether a battery is so low that its button is to warn of it.
pub fn battery_warning(capacity: u32, state: BatteryState, colorize: bool) -> (r: bool)
    ensures
        r == warns(capacity, state, colorize),
{
    colorize && state != BatteryState::Charging && capacity <= 10
}

/// The colour of the icon beside the music.
pub fn now_playing_icon_color(colorize: bool) -> (r: Option<Color>)
    ensures
        r == if colorize {
            Some(GREEN)
        } else {
            None
        },
{
    if colorize {
        Some(GREEN)
    } else {
        None
    }
}

/// The colour of the icon of the workspace.
pub fn workspace_icon_color(colorize: bool) -> (r: Option<Color>)
    ensures
        r == if colorize {
            Some(PURPLE)
        } else {
            None
        },
{
    if colorize {
        Some(PURPLE)
    } else {
        None
    }
}

/// The colour of a weather icon: the sun and the moon have one.
pub open spec fn weather_tint(icon: Seq<char>) -> Option<Color> {
    if icon == "weather_sunny"@ || icon == "weather_moon"@ {
        Some(YELLOW)
    } else {
        None
    }
}

/// The colour of a weather icon.
pub fn weather_icon_color(icon: &str) -> (r: Option<Color>)
    ensures
        r == weather_tint(icon@),
{
    if same(icon, "weather_sunny") || same(icon, "weather_moon") {
        Some(YELLOW)
    } else {
        None
    }
}

/// The colour of a slider's icon: from white to orange with the brightness, and
/// none for the volume.
pub open spec fn slider_tint(kind: SliderKind, percent: u32) -> Option<Color> {
    if kind == SliderKind::Volume {
        None
    } else {
        let p = if percent < 100 {
            percent
        } else {
            100
        };
        Some((10_000, (10_000 - 55 * p) as u32, (10_000 - 100 * p) as u32))
    }
}

/// The colour of a slider's icon.
pub fn slider_icon_color(kind: SliderKind, percent: u32) -> (r: Option<Color>)
    ensures
        r == slider_tint(kind, percent),
{
    if kind == SliderKind::Volume {
        return None;
    }
    let p: u32 = if percent < 100 {
        percent
    } else {
        100
    };
    Some((10_000, 10_000 - 55 * p, 10_000 - 100 * p))
}

/// What a battery is doing, from the contents of its `status` file and its
/// charge in per cent.
pub open spec fn battery_doing(status: Seq<char>, capacity: u32) -> BatteryState {
    let s = trimmed(status);
    if s == "Charging"@ || s == "Full"@ {
        BatteryState::Charging
    } else if s == "Discharging"@ && capacity < 10 {
        BatteryState::Low
    } else {
        BatteryState::NotCharging
    }
}

/// Tells what a battery is doing. The status is absent where it could not be
/// read, and the charge where it is not known.
pub fn get_battery_state(status: &Option<String>, charge: Option<u32>) -> (r: (u32, BatteryState))
    ensures
        r.0 == match charge {
            Some(c) => c,
            None => 100,
        },
        r.1 == match *status {
            Some(s) => battery_doing(s@, r.0),
            None => battery_doing("Unknown"@, r.0),
        },
        charge matches Some(c) ==> r.0 == c,
        charge is None ==> r.0 == 100 && r.1 != BatteryState::Low,
{
    let capacity: u32 = match charge {
        Some(c) => c,
        None => 100,
    };
    let s = match status {
        Some(s) => trim(s.as_str()),
        None => trim("Unknown"),
    };
    let state = if same(s.as_str(), "Charging") || same(s.as_str(), "Full") {
        BatteryState::Charging
    } else if same(s.as_str(), "Discharging") && capacity < 10 {
        BatteryState::Low
    } else {
        BatteryState::NotCharging
    };
    (capacity, state)
}

/// One entry of the power supplies: its name, if it is text, and the contents of
/// its `type` file, if it could be read.
pub struct PowerSupply {
    pub name: Option<String>,
    pub kind: Option<String>,
}

/// Whether a power supply is a battery with a name.
pub open spec fn is_battery(p: PowerSupply) -> bool {
    p.name is Some && match p.kind {
        Some(k) => trimmed(k@) == "Battery"@,
        None => false,
    }
}

/// The first battery.
pub open spec fn first_battery(v: Seq<PowerSupply>) -> Option<Seq<char>>
    decreases v.len(),
{
    if v.len() == 0 {
        None
    } else if is_battery(v[0]) {
        text_opt(v[0].name)
    } else {
        first_battery(v.subrange(1, v.len() as int))
    }
}

/// Finds the battery among the power supplies.
pub fn find_battery_device(v: &Vec<PowerSupply>) -> (r: Option<String>)
    ensures
        text_opt(r) == first_battery(v@),
{
    let n = v.len();
    let mut i: usize = 0;
    assert(v@.subrange(0, n as int) =~= v@);
    while i < n
        invariant
            i <= n,
            n == v@.len(),
            first_battery(v@.subrange(i as int, n as int)) == first_battery(v@),
        decreases n - i,
    {
        let ghost rest = v@.subrange(i as int, n as int);
        assert(rest[0] == v@[i as int]);
        assert(rest.subrange(1, rest.len() as int) =~= v@.subrange(i + 1, n as int));
        let battery = match &v[i].kind {
            Some(k) => {
                let t = trim(k.as_str());
                same(t.as_str(), "Battery")
            },
            None => false,
        };
        if battery && v[i].name.is_some() {
            return v[i].name.clone();
        }
        i += 1;
    }
    None
}

/// The short form of a power profile: three letters.
pub open spec fn profile_short(name: Seq<char>) -> Seq<char> {
    let t = trimmed(name);
    if t == "power-saver"@ {
        "SAV"@
    } else if t == "balanced"@ {
        "BAL"@
    } else if t == "performance"@ {
        "PRF"@
    } else {
        uppercase(t.subrange(0, if t.len() < 3 { t.len() as int } else { 3 }))
    }
}

/// The short form of the profile that a command wrote, if it succeeded and wrote
/// text.
pub open spec fn profile_written(output: Option<Vec<u8>>) -> Option<Seq<char>> {
    match output {
        Some(bytes) => match utf8_text(bytes@) {
            Some(t) => Some(profile_short(t)),
            None => None,
        },
        None => None,
    }
}

/// Shortens the name of a power profile.
pub fn abbreviate_profile(name: &str) -> (r: String)
    ensures
        r@ == profile_short(name@),
{
    let t = trim(name);
    if same(t.as_str(), "power-saver") {
        "SAV".to_owned()
    } else if same(t.as_str(), "balanced") {
        "BAL".to_owned()
    } else if same(t.as_str(), "performance") {
        "PRF".to_owned()
    } else {
        let v = crate::text::chars(t.as_str());
        let n: usize = if v.len() < 3 {
            v.len()
        } else {
            3
        };
        let head = text_of(&v, 0, n);
        to_uppercase(head.as_str())
    }
}

/// The power profile, and when it was asked for, in nanoseconds.
pub struct PowerProfile {
    pub cache: Option<(u64, Option<String>)>,
}

impl PowerProfile {
    /// Not asked for yet.
    pub fn new() -> (r: PowerProfile)
        ensures
            r.cache is None,
    {
        PowerProfile { cache: None }
    }

    /// Whether what is kept is still good.
    pub open spec fn fresh(&self, now: u64) -> bool {
        match self.cache {
            Some(c) => now - c.0 < POWER_PROFILE_TTL,
            None => false,
        }
    }

    /// Whether the profile is to be asked for.
    pub fn fetch_due(&self, now: u64) -> (r: bool)
        ensures
            r == !self.fresh(now),
    {
        match &self.cache {
            Some(c) => now.saturating_sub(c.0) >= POWER_PROFILE_TTL,
            None => true,
        }
    }

    /// The short form of the profile: what is kept while that is good, else that
    /// of what the command wrote, which is kept from now on.
    pub fn get_power_profile(&mut self, now: u64, output: Option<Vec<u8>>) -> (r: Option<String>)
        ensures
            old(self).fresh(now) ==> *final(self) == *old(self) && text_opt(r) == text_opt(
                (old(self).cache->0).1,
            ),
            !old(self).fresh(now) ==> {
                &&& text_opt(r) == profile_written(output)
                &&& final(self).cache matches Some(c)
                &&& c.0 == now
                &&& text_opt(c.1) == profile_written(output)
            },
    {
        if !self.fetch_due(now) {
            match &self.cache {
                Some(c) => {
                    return c.1.clone();
                },
                None => {},
            }
        }
        let fresh: Option<String> = match output {
            Some(bytes) => match from_utf8(bytes.as_slice()) {
                Some(t) => Some(abbreviate_profile(t.as_str())),
                None => None,
            },
            None => None,
        };
        self.cache = Some((now, fresh.clone()));
        fresh
    }
}

/// A button. Times are in nanoseconds, font sizes in billionths.
pub struct Button {
    pub image: ButtonImage,
    pub changed: bool,
    pub active: bool,
    pub action: Vec<u16>,
    pub command: Option<String>,
    pub icon_width: i32,
    pub icon_height: i32,
    pub stacked: bool,
    pub font_size: Option<i64>,
    pub max_title_length: Option<usize>,
    pub toggle_target: Option<String>,
    pub hold_started: Option<u64>,
}

/// The mathematical counterpart of [`Button`].
#[verifier::ext_equal]
pub struct ButtonView {
    pub image: ImageView,
    pub changed: bool,
    pub active: bool,
    pub action: Seq<u16>,
    pub command: Option<Seq<char>>,
    pub icon_width: i32,
    pub icon_height: i32,
    pub stacked: bool,
    pub font_size: Option<i64>,
    pub max_title_length: Option<usize>,
    pub toggle_target: Option<Seq<char>>,
    pub hold_started: Option<u64>,
}

impl View for Button {
    type V = ButtonView;

    open spec fn view(&self) -> ButtonView {
        ButtonView {
            image: self.image@,
            changed: self.changed,
            active: self.active,
            action: self.action@,
            command: text_opt(self.command),
            icon_width: self.icon_width,
            icon_height: self.icon_height,
            stacked: self.stacked,
            font_size: self.font_size,
            max_title_length: self.max_title_length,
            toggle_target: text_opt(self.toggle_target),
            hold_started: self.hold_started,
        }
    }
}

/// What a change of a button asks to be done: key events to send, and a command
/// to run.
pub struct Press {
    pub events: Vec<InputEvent>,
    pub command: Option<CommandPlan>,
}

/// The mathematical counterpart of [`Press`].
#[verifier::ext_equal]
pub struct PressView {
    pub events: Seq<InputEvent>,
    pub command: Option<CommandView>,
}

impl View for Press {
    type V = PressView;

    open spec fn view(&self) -> PressView {
        PressView {
            events: self.events@,
            command: match self.command {
                Some(c) => Some(c@),
                None => None,
            },
        }
    }
}

/// Nothing to be done.
pub open spec fn no_press() -> PressView {
    PressView { events: Seq::empty(), command: None }
}

impl Press {
    /// Nothing to be done.
    pub fn none() -> (r: Press)
        ensures
            r@ == no_press(),
    {
        let r = Press { events: Vec::new(), command: None };
        assert(r@.events =~= Seq::empty());
        r
    }
}

impl ButtonView {
    /// The battery has all its icons, and the slider a valid value.
    pub open spec fn wf(self) -> bool {
        match self.image {
            ImageView::Battery(_, _, icons, _) => icons.plain.len() == 8 && icons.charging.len()
                == 7,
            ImageView::Slider { state, .. } => state.wf(),
            _ => true,
        }
    }

    /// The notification button that this is.
    pub open spec fn notification(self) -> Option<NotificationButton> {
        match self.image {
            ImageView::Notification(kind, _, _) => Some(kind),
            _ => None,
        }
    }

    /// The slider that this is.
    pub open spec fn slider(self) -> Option<Slider> {
        match self.image {
            ImageView::Slider { state, .. } => Some(state),
            _ => None,
        }
    }

    /// The button with its slider in another state.
    pub open spec fn with_slider(self, state: Slider) -> ButtonView {
        match self.image {
            ImageView::Slider { icon, muted_icon, colorize, .. } => ButtonView {
                image: ImageView::Slider { state, icon, muted_icon, colorize },
                ..self
            },
            _ => self,
        }
    }

    /// The layer that the button toggles to.
    pub open spec fn target(self) -> Option<Seq<char>> {
        match self.image {
            ImageView::LayerToggle(t, _) => Some(t),
            _ => self.toggle_target,
        }
    }

    /// Whether a touch does anything.
    pub open spec fn interactive(self) -> bool {
        self.image is Slider || self.image is Notification || self.image is ActiveWindow
            || self.action.len() > 0 || self.command is Some || self.target() is Some
    }

    /// Whether the button is drawn. `desktop` says whether the desktop answers,
    /// and `navigable` whether there are several notifications, each as far as
    /// it is known.
    pub open spec fn visible(self, desktop: Option<bool>, navigable: Option<bool>) -> bool {
        match self.image {
            ImageView::ActiveWindow(_, _) => desktop == Some(true),
            ImageView::ActiveWorkspace(_, _) => desktop == Some(true),
            ImageView::Notification(NotificationButton::Previous, _, _) => navigable == Some(true),
            ImageView::Notification(NotificationButton::Next, _, _) => navigable == Some(true),
            ImageView::Spacer => false,
            _ => true,
        }
    }

    /// The button pressed or released.
    pub open spec fn with_active(self, active: bool) -> ButtonView {
        if self.active == active {
            self
        } else {
            ButtonView { active, changed: true, ..self }
        }
    }

    /// What pressing or releasing the button asks to be done: its keys go down or
    /// up, and a press runs its command. A toggle to another layer has neither.
    pub open spec fn press(self, active: bool, env: Environment) -> PressView {
        if self.active == active || self.image is LayerToggle {
            no_press()
        } else {
            PressView {
                events: key_events(
                    self.action,
                    if active {
                        1
                    } else {
                        0
                    },
                ),
                command: match self.command {
                    Some(line) => if active {
                        Some(pressed_command(line, env))
                    } else {
                        None
                    },
                    None => None,
                },
            }
        }
    }

    /// The button with a finger resting on it from now on, if it minds.
    pub open spec fn held(self, now: u64) -> ButtonView {
        if self.notification() == Some(NotificationButton::Text) {
            ButtonView { hold_started: Some(now), changed: true, ..self }
        } else {
            self
        }
    }

    /// The button with no finger resting on it.
    pub open spec fn unheld(self) -> ButtonView {
        if self.hold_started is Some {
            ButtonView { hold_started: None, changed: true, ..self }
        } else {
            self
        }
    }

    /// How far a long press has come.
    pub open spec fn hold(self, now: u64) -> Option<int> {
        match self.hold_started {
            Some(t) => Some(
                if now <= t {
                    0
                } else if now - t >= LONG_PRESS_TIMEOUT {
                    ONE as int
                } else {
                    (now - t) * ONE / LONG_PRESS_TIMEOUT as int
                },
            ),
            None => None,
        }
    }

    /// The background for a brightness. `charge` is the state of the battery.
    pub open spec fn background(self, level: u32, charge: (u32, BatteryState)) -> Color {
        match self.image {
            ImageView::Battery(_, _, _, colorize) => if warns(charge.0, charge.1, colorize) {
                (level, 0, 0)
            } else if charge.1 == BatteryState::Charging {
                (0, level, 0)
            } else {
                (level, level, level)
            },
            ImageView::LayerToggle(_, _) => (
                0,
                if level >= 6_500 {
                    10_000
                } else {
                    (level + 3_500) as u32
                },
                if level >= 4_500 {
                    10_000
                } else {
                    (level + 5_500) as u32
                },
            ),
            _ => (level, level, level),
        }
    }

    /// The background for a brightness, where do-not-disturb may be on.
    pub open spec fn background_with(
        self,
        level: u32,
        charge: (u32, BatteryState),
        dnd: bool,
    ) -> Color {
        if self.notification() == Some(NotificationButton::Dnd) && dnd {
            (level, 0, 0)
        } else {
            self.background(level, charge)
        }
    }

    /// Whether the button shows something that changes every second.
    pub open spec fn hurried(self) -> bool {
        match self.image {
            ImageView::Time(format, _) => match strftime_items(format) {
                Some(items) => ticks(items),
                None => false,
            },
            ImageView::CpuUsage(_, _) => true,
            ImageView::MemoryUsage(_, _) => true,
            ImageView::ActiveWindow(_, _) => true,
            ImageView::ActiveWorkspace(_, _) => true,
            ImageView::Notification(_, _, _) => true,
            _ => false,
        }
    }
}

/// Whether notifications can be browsed, as far as it is known.
pub open spec fn browsable(mgr: Option<&NotificationManager>) -> Option<bool> {
    match mgr {
        Some(m) => Some(m.navigable()),
        None => None,
    }
}

/// Whether the desktop answers, as far as it is known.
pub open spec fn desktop_answers(mgr: Option<&SystemInfoManager>) -> Option<bool> {
    match mgr {
        Some(m) => Some(m.info@.desktop_info_available),
        None => None,
    }
}

/// Whether do-not-disturb is known to be on.
pub open spec fn dnd_known(mgr: Option<&NotificationManager>) -> bool {
    match mgr {
        Some(m) => m.dnd(),
        None => false,
    }
}

impl Button {
    /// Whether the button shows something that changes every second.
    pub fn needs_faster_refresh(&self) -> (r: bool)
        ensures
            r == self@.hurried(),
    {
        match &self.image {
            ButtonImage::Time(format, _) => match time_items(format.as_str()) {
                Some(items) => shows_seconds(&items),
                None => false,
            },
            ButtonImage::CpuUsage(_, _) => true,
            ButtonImage::MemoryUsage(_, _) => true,
            ButtonImage::ActiveWindow(_, _) => true,
            ButtonImage::ActiveWorkspace(_, _) => true,
            ButtonImage::Notification(_, _, _) => true,
            _ => false,
        }
    }

    /// Presses or releases the button. What comes back is to be done; nothing
    /// where the button was so already.
    pub fn set_active(&mut self, active: bool, env: &Environment) -> (r: Press)
        ensures
            final(self)@ == old(self)@.with_active(active),
            r@ == old(self)@.press(active, *env),
    {
        let mut press = Press { events: Vec::new(), command: None };
        assert(press@ =~= no_press());
        if self.active != active {
            self.active = active;
            self.changed = true;
            let toggle = match &self.image {
                ButtonImage::LayerToggle(_, _) => true,
                _ => false,
            };
            if !toggle {
                press.events = toggle_keys(
                    &self.action,
                    if active {
                        1
                    } else {
                        0
                    },
                );
                if active {
                    match &self.command {
                        Some(line) => {
                            press.command = Some(press_command(line.as_str(), env));
                        },
                        None => {},
                    }
                }
            }
        }
        press
    }

    /// What the button's slider controls, if it is one.
    pub fn slider_kind(&self) -> (r: Option<SliderKind>)
        ensures
            r == match self@.slider() {
                Some(s) => Some(s.kind),
                None => None,
            },
    {
        match &self.image {
            ButtonImage::Slider { state, .. } => Some(state.kind()),
            _ => None,
        }
    }

    /// Takes over a reading of the hardware, where the button is a slider.
    pub fn slider_refresh(&mut self, now: u64, reading: Reading)
        requires
            old(self)@.wf(),
        ensures
            final(self)@.wf(),
            final(self)@ == match old(self)@.slider() {
                Some(s) => ButtonView {
                    changed: old(self)@.changed || s.shifts(now, reading),
                    ..old(self)@.with_slider(s.refreshed(now, reading))
                },
                None => old(self)@,
            },
    {
        match &mut self.image {
            ButtonImage::Slider { state, .. } => {
                if state.refresh(now, reading) {
                    self.changed = true;
                }
            },
            _ => {},
        }
    }

    /// Drags the button's slider to a fraction, where it is one. What comes back
    /// is to be done.
    pub fn set_slider_fraction(&mut self, fraction: i64, now: u64) -> (r: Option<SliderEffect>)
        requires
            old(self)@.wf(),
        ensures
            final(self)@.wf(),
            final(self)@ == match old(self)@.slider() {
                Some(s) => ButtonView {
                    changed: true,
                    ..old(self)@.with_slider(s.dragged(fraction as int, now))
                },
                None => old(self)@,
            },
            slider_effect_opt(r) == match old(self)@.slider() {
                Some(s) => s.drag_effect(fraction as int, now),
                None => None,
            },
    {
        match &mut self.image {
            ButtonImage::Slider { state, .. } => {
                let effect = state.set_fraction(fraction, now);
                self.changed = true;
                effect
            },
            _ => None,
        }
    }

    /// Ends a drag of the button's slider, where it is one.
    pub fn slider_commit(&mut self, now: u64) -> (r: Option<SliderEffect>)
        requires
            old(self)@.wf(),
        ensures
            final(self)@.wf(),
            final(self)@ == match old(self)@.slider() {
                Some(s) => old(self)@.with_slider(s.committed(now)),
                None => old(self)@,
            },
            slider_effect_opt(r) == match old(self)@.slider() {
                Some(s) => s.commit_effect(),
                None => None,
            },
    {
        match &mut self.image {
            ButtonImage::Slider { state, .. } => state.commit(now),
            _ => None,
        }
    }

    /// Mutes or unmutes the button's slider, where it is one.
    pub fn slider_toggle_mute(&mut self, now: u64) -> (r: Option<SliderEffect>)
        requires
            old(self)@.wf(),
        ensures
            final(self)@.wf(),
            final(self)@ == match old(self)@.slider() {
                Some(s) => ButtonView {
                    changed: true,
                    ..old(self)@.with_slider(s.mute_toggled(now))
                },
                None => old(self)@,
            },
            slider_effect_opt(r) == match old(self)@.slider() {
                Some(s) => s.mute_effect(),
                None => None,
            },
    {
        match &mut self.image {
            ButtonImage::Slider { state, .. } => {
                let effect = state.toggle_mute(now);
                self.changed = true;
                effect
            },
            _ => None,
        }
    }

    /// The layer that the button toggles to.
    pub fn layer_toggle_target(&self) -> (r: Option<&str>)
        ensures
            match r {
                Some(t) => self@.target() == Some(t@),
                None => self@.target() is None,
            },
    {
        match &self.image {
            ButtonImage::LayerToggle(target, _) => Some(target.as_str()),
            _ => match &self.toggle_target {
                Some(t) => Some(t.as_str()),
                None => None,
            },
        }
    }

    /// What the button is for, if it is a notification button.
    pub fn notification_kind(&self) -> (r: Option<NotificationButton>)
        ensures
            r == self@.notification(),
    {
        match &self.image {
            ButtonImage::Notification(kind, _, _) => Some(*kind),
            _ => None,
        }
    }

    /// Whether the button shows the active window.
    pub fn is_active_window(&self) -> (r: bool)
        ensures
            r == self@.image is ActiveWindow,
    {
        match &self.image {
            ButtonImage::ActiveWindow(_, _) => true,
            _ => false,
        }
    }

    /// Whether the button shows the active workspace.
    pub fn is_active_workspace(&self) -> (r: bool)
        ensures
            r == self@.image is ActiveWorkspace,
    {
        match &self.image {
            ButtonImage::ActiveWorkspace(_, _) => true,
            _ => false,
        }
    }

    /// Whether a long press means something to the button.
    pub fn supports_hold(&self) -> (r: bool)
        ensures
            r == (self@.notification() == Some(NotificationButton::Text)),
    {
        match self.notification_kind() {
            Some(kind) => kind == NotificationButton::Text,
            None => false,
        }
    }

    /// Notes that a finger rests on the button from now on.
    pub fn start_hold(&mut self, now: u64)
        ensures
            final(self)@ == old(self)@.held(now),
    {
        if self.supports_hold() {
            self.hold_started = Some(now);
            self.changed = true;
        }
    }

    /// Notes that no finger rests on the button.
    pub fn clear_hold(&mut self)
        ensures
            final(self)@ == old(self)@.unheld(),
    {
        if self.hold_started.is_some() {
            self.hold_started = None;
            self.changed = true;
        }
    }

    /// How far a long press has come, as a fraction.
    pub fn hold_progress(&self, now: u64) -> (r: Option<i64>)
        ensures
            match r {
                Some(p) => self@.hold(now) == Some(p as int) && 0 <= p <= ONE,
                None => self@.hold(now) is None,
            },
    {
        match self.hold_started {
            Some(t) => {
                let elapsed: u64 = now.saturating_sub(t);
                if elapsed >= LONG_PRESS_TIMEOUT {
                    Some(ONE)
                } else {
                    Some((elapsed as i64) * ONE / (LONG_PRESS_TIMEOUT as i64))
                }
            },
            None => None,
        }
    }

    /// Whether a touch does anything: sends keys, runs a command, switches layers
    /// or drags a slider.
    pub fn is_interactive(&self) -> (r: bool)
        ensures
            r == self@.interactive(),
    {
        match &self.image {
            ButtonImage::Slider { .. } => {
                return true;
            },
            ButtonImage::Notification(_, _, _) => {
                return true;
            },
            ButtonImage::ActiveWindow(_, _) => {
                return true;
            },
            _ => {},
        }
        self.action.len() > 0 || self.command.is_some() || self.layer_toggle_target().is_some()
    }

    /// Whether the button is drawn.
    pub fn is_visible(
        &self,
        sysinfo_mgr: Option<&SystemInfoManager>,
        notification_mgr: Option<&NotificationManager>,
    ) -> (r: bool)
        ensures
            r == self@.visible(desktop_answers(sysinfo_mgr), browsable(notification_mgr)),
    {
        let desktop = match sysinfo_mgr {
            Some(mgr) => mgr.desktop_info_available(),
            None => false,
        };
        let several = match notification_mgr {
            Some(mgr) => mgr.can_navigate(),
            None => false,
        };
        match &self.image {
            ButtonImage::ActiveWindow(_, _) => desktop,
            ButtonImage::ActiveWorkspace(_, _) => desktop,
            ButtonImage::Notification(kind, _, _) => match kind {
                NotificationButton::Previous => several,
                NotificationButton::Next => several,
                _ => true,
            },
            ButtonImage::Spacer => false,
            _ => true,
        }
    }

    /// The background for a brightness. `charge` is the state of the battery.
    pub fn background_color(&self, level: u32, charge: (u32, BatteryState)) -> (r: Color)
        ensures
            r == self@.background(level, charge),
    {
        match &self.image {
            ButtonImage::Battery(_, _, _, colorize) => {
                if battery_warning(charge.0, charge.1, *colorize) {
                    (level, 0, 0)
                } else if charge.1 == BatteryState::Charging {
                    (0, level, 0)
                } else {
                    (level, level, level)
                }
            },
            ButtonImage::LayerToggle(_, _) => (
                0,
                if level >= 6_500 {
                    10_000
                } else {
                    level + 3_500
                },
                if level >= 4_500 {
                    10_000
                } else {
                    level + 5_500
                },
            ),
            _ => (level, level, level),
        }
    }

    /// The background for a brightness; red for the do-not-disturb button while
    /// that is on.
    pub fn background_color_with_notifications(
        &self,
        level: u32,
        charge: (u32, BatteryState),
        notification_mgr: Option<&NotificationManager>,
    ) -> (r: Color)
        ensures
            r == self@.background_with(level, charge, dnd_known(notification_mgr)),
    {
        let dnd = match notification_mgr {
            Some(mgr) => mgr.dnd_enabled(),
            None => false,
        };
        let is_dnd = match self.notification_kind() {
            Some(kind) => kind == NotificationButton::Dnd,
            None => false,
        };
        if is_dnd && dnd {
            (level, 0, 0)
        } else {
            self.background_color(level, charge)
        }
    }
}

/// Pressing or releasing twice does nothing the second time.
pub proof fn set_active_twice_is_once(b: ButtonView, active: bool, env: Environment)
    ensures
        b.with_active(active).with_active(active) == b.with_active(active),
        b.with_active(active).press(active, env) == no_press(),
{
}

/// A release lifts the keys that the press put down, and only the press runs the
/// command.
pub proof fn release_lifts_what_press_put_down(b: ButtonView, env: Environment)
    requires
        !b.active,
        !(b.image is LayerToggle),
    ensures
        b.press(true, env).events == key_events(b.action, 1),
        b.with_active(true).press(false, env).events == key_events(b.action, 0),
        b.press(true, env).command is Some <==> b.command is Some,
        b.with_active(true).press(false, env).command is None,
{
}

/// Pressing keeps everything of a button but whether it is pressed, and that it
/// is to be drawn again.
pub proof fn press_and_release_restore(b: ButtonView)
    requires
        !b.active,
    ensures
        b.with_active(true).with_active(false) == (ButtonView { changed: true, ..b }),
{
}

/// Only the button with a notification's text minds a resting finger, and
/// lifting the finger ends it.
pub proof fn hold_begins_and_ends(b: ButtonView, now: u64)
    requires
        b.hold_started is None,
    ensures
        b.held(now).hold_started is Some <==> b.notification() == Some(NotificationButton::Text),
        b.held(now).unheld().hold_started is None,
{
}

/// A long press begins at nothing, comes no further back, and is complete once
/// its time has passed.
pub proof fn hold_grows(b: ButtonView, start: u64, earlier: u64, later: u64)
    requires
        b.hold_started == Some(start),
        start <= earlier <= later,
    ensures
        b.hold(start) == Some(0int),
        b.hold(earlier)->0 <= b.hold(later)->0,
        later - start >= LONG_PRESS_TIMEOUT ==> b.hold(later) == Some(ONE as int),
{
    let a = (earlier - start) * ONE;
    let c = (later - start) * ONE;
    assert(a / LONG_PRESS_TIMEOUT as int <= c / LONG_PRESS_TIMEOUT as int);
    if earlier - start < LONG_PRESS_TIMEOUT {
        assert(a / LONG_PRESS_TIMEOUT as int <= ONE);
    }
}

proof fn lemma_icon_added(v: Seq<(Seq<char>, u32)>, e: (Seq<char>, u32), name: Seq<char>)
    ensures
        icon_named(v.push(e), name) == if icon_named(v, name) is Some {
            icon_named(v, name)
        } else if e.0 == name {
            Some(e)
        } else {
            None
        },
    decreases v.len(),
{
    let all = v.push(e);
    if v.len() > 0 {
        let rest = v.subrange(1, v.len() as int);
        lemma_icon_added(rest, e, name);
        assert(all.subrange(1, all.len() as int) =~= rest.push(e));
    } else {
        let rest = all.subrange(1, all.len() as int);
        assert(rest.len() == 0);
        assert(icon_named(rest, name) is None);
    }
}

proof fn lemma_icon_loaded(
    names: Seq<Seq<char>>,
    theme: Option<Seq<char>>,
    images: Images,
    name: Seq<char>,
)
    ensures
        icon_named(icons_loaded(names, theme, images), name) == match images.icon(name, theme) {
            Some(id) => if names.contains(name) {
                Some((name, id))
            } else {
                None
            },
            None => None,
        },
    decreases names.len(),
{
    if names.len() > 0 {
        let before = names.drop_last();
        lemma_icon_loaded(before, theme, images, name);
        if names.contains(name) && !before.contains(name) {
            let i = choose|i: int| 0 <= i < names.len() && names[i] == name;
            if i < before.len() {
                assert(before[i] == name);
            }
        }
        if before.contains(name) {
            let i = choose|i: int| 0 <= i < before.len() && before[i] == name;
            assert(names[i] == name);
        }
        assert(names[names.len() - 1] == names.last());
        match images.icon(names.last(), theme) {
            Some(id) => {
                lemma_icon_added(
                    icons_loaded(before, theme, images),
                    (names.last(), id),
                    name,
                );
            },
            None => {},
        }
    }
}

/// Each of the five weather icons that was loaded as a drawing is found under its
/// name, and no other one is.
pub proof fn weather_icons_are_found(theme: Option<Seq<char>>, images: Images, name: Seq<char>)
    ensures
        icon_named(icons_loaded(weather_icon_names(), theme, images), name) == match images.icon(
            name,
            theme,
        ) {
            Some(id) => if name == "weather_sunny"@ || name == "weather_cloudy"@ || name
                == "weather_rainy"@ || name == "weather_snowy"@ || name == "weather_moon"@ {
                Some((name, id))
            } else {
                None
            },
            None => None,
        },
{
    let names = weather_icon_names();
    lemma_icon_loaded(names, theme, images, name);
    assert(names[0] == "weather_sunny"@ && names[1] == "weather_cloudy"@ && names[2]
        == "weather_rainy"@ && names[3] == "weather_snowy"@ && names[4] == "weather_moon"@);
}

/// The box of a button tells its state: that of a battery is red while it warns of
/// a low charge and green while it charges, that of the button for not being
/// disturbed is red while that is on, and that of a toggle is blue. Any other one
/// is grey, as bright as it is asked for.
pub proof fn box_colour_tells_state(
    b: ButtonView,
    level: u32,
    charge: (u32, BatteryState),
    dnd: bool,
)
    requires
        level <= 10_000,
    ensures
        ({
            let c = b.background_with(level, charge, dnd);
            let charging = charge.1 == BatteryState::Charging;
            match b.image {
                ImageView::Battery(_, _, _, colorize) => if colorize && !charging && charge.0
                    <= 10 {
                    c == (level, 0u32, 0u32)
                } else if charging {
                    c == (0u32, level, 0u32)
                } else {
                    c == (level, level, level)
                },
                ImageView::LayerToggle(_, _) => {
                    &&& c.0 == 0
                    &&& level <= 6_500 ==> c.1 == level + 3_500
                    &&& level > 6_500 ==> c.1 == 10_000
                    &&& level <= 4_500 ==> c.2 == level + 5_500
                    &&& level > 4_500 ==> c.2 == 10_000
                },
                ImageView::Notification(NotificationButton::Dnd, _, _) => if dnd {
                    c == (level, 0u32, 0u32)
                } else {
                    c == (level, level, level)
                },
                _ => c == (level, level, level),
            }
        }),
{
}

/// A long press takes six tenths of a second, and keeps its pace; a button that no
/// finger rests on has none.
pub proof fn long_press_keeps_its_pace(b: ButtonView, now: u64)
    ensures
        b.hold_started is None <==> b.hold(now) is None,
        b.hold_started matches Some(t) ==> {
            let h = b.hold(now)->0;
            &&& now - t >= 600_000_000 ==> h == 1_000_000_000
            &&& now <= t ==> h == 0
            &&& 0 <= now - t < 600_000_000 ==> h * 600_000_000 <= (now - t) * 1_000_000_000 < (h + 1)
                * 600_000_000
        },
{
}

/// The title and the workspace are in view only while the desktop answers, the
/// buttons to browse only while there are several notifications, and a spacer
/// never; anything else always is.
pub proof fn some_buttons_come_and_go(
    b: ButtonView,
    desktop: Option<bool>,
    navigable: Option<bool>,
)
    ensures
        b.visible(desktop, navigable) == match b.image {
            ImageView::ActiveWindow(_, _) | ImageView::ActiveWorkspace(_, _) => desktop == Some(true),
            ImageView::Notification(kind, _, _) => if kind == NotificationButton::Previous || kind
                == NotificationButton::Next {
                navigable == Some(true)
            } else {
                true
            },
            ImageView::Spacer => false,
            _ => true,
        },
{
}

/// A button answers to touches exactly if a touch can do something: it has keys, a
/// command or a layer to toggle to, or it is a slider, the active window's title or
/// one of the notifications' buttons.
pub proof fn what_does_something_answers(b: ButtonView)
    ensures
        !b.interactive() <==> {
            &&& b.action.len() == 0
            &&& b.command is None
            &&& b.toggle_target is None
            &&& !(b.image is LayerToggle)
            &&& !(b.image is Slider)
            &&& !(b.image is Notification)
            &&& !(b.image is ActiveWindow)
        },
{
    if b.image is LayerToggle {
        assert(b.target() is Some);
    }
}

/// A battery charges if its file says so or says that it is full, and is low if it
/// discharges with less than a tenth left; in any other case it does neither.
pub proof fn battery_state_is_read(status: Seq<char>, capacity: u32)
    ensures
        ({
            let state = battery_doing(status, capacity);
            let s = trimmed(status);
            &&& s == "Charging"@ ==> state == BatteryState::Charging
            &&& s == "Full"@ ==> state == BatteryState::Charging
            &&& s == "Discharging"@ && capacity < 10 ==> state == BatteryState::Low
            &&& s == "Discharging"@ && capacity >= 10 ==> state == BatteryState::NotCharging
            &&& s != "Charging"@ && s != "Full"@ && s != "Discharging"@ ==> state
                == BatteryState::NotCharging
        }),
{
    reveal_strlit("Charging");
    reveal_strlit("Full");
    reveal_strlit("Discharging");
    assert("Charging"@.len() == 8 && "Full"@.len() == 4 && "Discharging"@.len() == 11);
}

/// The battery that is found is the first power supply that has a name and says
/// that it is one.
pub proof fn first_battery_is_found(v: Seq<PowerSupply>)
    ensures
        match first_battery(v) {
            Some(name) => exists|i: int|
                {
                    &&& 0 <= i < v.len()
                    &&& text_opt((#[trigger] v[i]).name) == Some(name)
                    &&& v[i].kind matches Some(k) && trimmed(k@) == "Battery"@
                    &&& forall|j: int|
                        0 <= j < i ==> (#[trigger] v[j]).name is None || v[j].kind is None
                            || trimmed(v[j].kind->0@) != "Battery"@
                },
            None => forall|j: int|
                0 <= j < v.len() ==> (#[trigger] v[j]).name is None || v[j].kind is None || trimmed(
                    v[j].kind->0@,
                ) != "Battery"@,
        },
    decreases v.len(),
{
    if v.len() > 0 {
        let rest = v.subrange(1, v.len() as int);
        if is_battery(v[0]) {
            assert(text_opt(v[0].name) == first_battery(v));
        } else {
            first_battery_is_found(rest);
            match first_battery(v) {
                Some(name) => {
                    let i = choose|i: int|
                        {
                            &&& 0 <= i < rest.len()
                            &&& text_opt((#[trigger] rest[i]).name) == Some(name)
                            &&& rest[i].kind matches Some(k) && trimmed(k@) == "Battery"@
                            &&& forall|j: int|
                                0 <= j < i ==> (#[trigger] rest[j]).name is None || rest[j].kind
                                    is None || trimmed(rest[j].kind->0@) != "Battery"@
                        };
                    assert(v[i + 1] == rest[i]);
                    assert forall|j: int| 0 <= j < i + 1 implies (#[trigger] v[j]).name is None
                        || v[j].kind is None || trimmed(v[j].kind->0@) != "Battery"@ by {
                        if j > 0 {
                            assert(v[j] == rest[j - 1]);
                        }
                    }
                },
                None => {
                    assert forall|j: int| 0 <= j < v.len() implies (#[trigger] v[j]).name is None
                        || v[j].kind is None || trimmed(v[j].kind->0@) != "Battery"@ by {
                        if j > 0 {
                            assert(v[j] == rest[j - 1]);
                        }
                    }
                },
            }
        }
    }
}

/// The three usual power profiles have short forms of their own, and any other one
/// its first three letters as capitals; white space around a name does not count.
pub proof fn profiles_have_short_forms(name: Seq<char>)
    ensures
        ({
            let t = trimmed(name);
            let short = profile_short(name);
            &&& t == "power-saver"@ ==> short == "SAV"@
            &&& t == "balanced"@ ==> short == "BAL"@
            &&& t == "performance"@ ==> short == "PRF"@
            &&& t != "power-saver"@ && t != "balanced"@ && t != "performance"@ ==> {
                &&& t.len() >= 3 ==> short == uppercase(seq![t[0], t[1], t[2]])
                &&& t.len() < 3 ==> short == uppercase(t)
            }
        }),
{
    reveal_strlit("power-saver");
    reveal_strlit("balanced");
    reveal_strlit("performance");
    assert("power-saver"@.len() == 11 && "power-saver"@[1] == 'o');
    assert("performance"@.len() == 11 && "performance"@[1] == 'e');
    assert("balanced"@.len() == 8);
    let t = trimmed(name);
    if t.len() >= 3 {
        assert(t.subrange(0, 3) =~= seq![t[0], t[1], t[2]]);
    } else {
        assert(t.subrange(0, t.len() as int) =~= t);
    }
}

/// The figures, the desktop and the notifications change every second, and so does
/// a time whose format shows seconds or less; nothing else does.
pub proof fn what_changes_every_second(b: ButtonView)
    ensures
        b.image is CpuUsage || b.image is MemoryUsage || b.image is ActiveWindow || b.image
            is ActiveWorkspace || b.image is Notification ==> b.hurried(),
        b.image matches ImageView::Time(format, _) ==> {
            b.hurried() <==> (strftime_items(format) is Some && exists|i: int|
                0 <= i < (strftime_items(format)->0).len() && {
                    let item = #[trigger] (strftime_items(format)->0)[i];
                    item == TimeItem::Second || item == TimeItem::Nanosecond || item
                        == TimeItem::Timestamp
                })
        },
        b.image is Text || b.image is Svg || b.image is Bitmap || b.image is Battery || b.image
            is LayerToggle || b.image is Slider || b.image is WeatherCurrent || b.image
            is WeatherForecast || b.image is Spacer ==> !b.hurried(),
{
}

/// A power profile is good for five seconds from when it was asked for.
pub proof fn profile_is_good_for_a_while(p: PowerProfile, now: u64)
    ensures
        p.cache is None ==> !p.fresh(now),
        p.cache matches Some(c) ==> (p.fresh(now) <==> now - c.0 < 5_000_000_000),
{
}

/// A button that does nothing but toggle to a layer sends no keys and runs nothing,
/// pressed or released.
pub proof fn toggle_sends_nothing(b: ButtonView, active: bool, env: Environment)
    requires
        b.image is LayerToggle,
    ensures
        b.press(active, env).events.len() == 0,
        b.press(active, env).command is None,
{
}

/// A button that is pressed waits to be drawn again, and so does one that is
/// released; one that is so already stays as it is.
pub proof fn press_is_to_be_seen(b: ButtonView, active: bool)
    ensures
        b.with_active(active).active == active,
        b.active != active ==> b.with_active(active).changed,
        b.active == active ==> b.with_active(active) == b,
        b.with_active(active).image == b.image,
        b.with_active(active).action == b.action,
        b.with_active(active).command == b.command,
{
}

/// A slider that moves stays the same button: its icons, its colouring and all that
/// is not its state are kept.
pub proof fn moving_a_slider_keeps_its_button(b: ButtonView, state: Slider)
    requires
        b.image is Slider,
    ensures
        ({
            let after = b.with_slider(state);
            &&& after.image is Slider
            &&& after.image->Slider_state == state
            &&& after.image->Slider_icon == b.image->Slider_icon
            &&& after.image->Slider_muted_icon == b.image->Slider_muted_icon
            &&& after.image->Slider_colorize == b.image->Slider_colorize
            &&& after == (ButtonView { image: after.image, ..b })
            &&& b.slider() == Some(b.image->Slider_state)
        }),
{
}

/// Resting a finger on a button changes nothing of it but when that began, and
/// lifting it only ends that.
pub proof fn holding_keeps_the_button(b: ButtonView, now: u64)
    ensures
        b.held(now) == (ButtonView {
            hold_started: b.held(now).hold_started,
            changed: b.held(now).changed,
            ..b
        }),
        b.unheld() == (ButtonView { hold_started: None, changed: b.unheld().changed, ..b }),
        b.held(now).hold_started == if b.image is Notification && b.image->Notification_0
            == NotificationButton::Text {
            Some(now)
        } else {
            b.hold_started
        },
        b.hold_started is Some ==> b.unheld().changed,
{
}

/// The more of something is used, the warmer its colour: white, yellow, orange,
/// purple and red. The fuller a battery is, the cooler: red, purple, orange, blue
/// and green.
pub proof fn colours_warn(used: nat, charge: u32)
    ensures
        ({
            let c = usage_tint(used);
            &&& used <= 10 ==> c == (10_000u32, 10_000u32, 10_000u32)
            &&& 10 < used <= 25 ==> c == (10_000u32, 8_500u32, 0u32)
            &&& 25 < used <= 55 ==> c == (10_000u32, 4_500u32, 0u32)
            &&& 55 < used <= 75 ==> c == (5_500u32, 2_500u32, 10_000u32)
            &&& used > 75 ==> c == (10_000u32, 0u32, 0u32)
        }),
        ({
            let c = battery_tint(charge);
            &&& charge <= 10 ==> c == (10_000u32, 0u32, 0u32)
            &&& 10 < charge <= 25 ==> c == (5_500u32, 2_500u32, 10_000u32)
            &&& 25 < charge <= 50 ==> c == (10_000u32, 4_500u32, 0u32)
            &&& 50 < charge <= 75 ==> c == (0u32, 4_500u32, 10_000u32)
            &&& charge > 75 ==> c == (0u32, 8_000u32, 0u32)
        }),
{
}

} // verus!
