//! Sliders for the display brightness, the keyboard backlight and the volume.

use vstd::prelude::*;
use vstd::string::*;

use crate::command::{
    session_vars, shell_argv, shell_plan, text_opt, CommandPlan, CommandView, Environment,
};
use crate::number::{divide_half_up, half_up, ONE};
use crate::text::{
    contains, decimal, decimal_is_read_back, decimal_text, join_path, line_of_digits_is_trimmed,
    lower, number_up_to, occurs_in, parse_up_to, path_joined, same, to_ascii_lowercase, trim,
    trimmed, words,
};

verus! {

/// How often the volume is read while a slider is on show, in nanoseconds.
pub const VOLUME_POLL_INTERVAL: u64 = 700_000_000;

/// How far apart volume writes are while a slider is dragged, in nanoseconds.
pub const VOLUME_SET_INTERVAL: u64 = 60_000_000;

/// The slider never darkens the display further than this.
pub const DISPLAY_MIN_FRACTION: i64 = 20_000_000;

/// What a slider controls.
#[derive(Clone, Copy, PartialEq, Eq, Structural, Debug)]
pub enum SliderKind {
    DisplayBrightness,
    KeyboardBacklight,
    Volume,
}

/// The kind that a name stands for, whatever the case of its ASCII letters.
pub open spec fn slider_kind_named(s: Seq<char>) -> Option<SliderKind> {
    let l = lower(s);
    if l == "display_brightness"@ || l == "brightness"@ || l == "display"@ {
        Some(SliderKind::DisplayBrightness)
    } else if l == "keyboard_backlight"@ || l == "backlight"@ || l == "keyboard"@ || l == "illum"@ {
        Some(SliderKind::KeyboardBacklight)
    } else if l == "volume"@ || l == "audio"@ || l == "sound"@ {
        Some(SliderKind::Volume)
    } else {
        None
    }
}

impl SliderKind {
    /// Reads the name of a kind.
    pub fn parse(s: &str) -> (r: Option<SliderKind>)
        ensures
            r == slider_kind_named(s@),
    {
        let l = to_ascii_lowercase(s);
        let l = l.as_str();
        if same(l, "display_brightness") || same(l, "brightness") || same(l, "display") {
            Some(SliderKind::DisplayBrightness)
        } else if same(l, "keyboard_backlight") || same(l, "backlight") || same(l, "keyboard")
            || same(l, "illum") {
            Some(SliderKind::KeyboardBacklight)
        } else if same(l, "volume") || same(l, "audio") || same(l, "sound") {
            Some(SliderKind::Volume)
        } else {
            None
        }
    }
}

/// What the hardware was found at.
#[derive(Clone, Copy, Debug)]
pub enum Reading {
    /// The volume as a fraction and whether it is muted, if it could be read.
    Volume(Option<(i64, bool)>),
    /// The number in a `brightness` file, if it holds one.
    Brightness(Option<u32>),
}

/// What a slider asks to be done.
pub enum SliderEffect {
    /// Write this into this file.
    Write { path: String, contents: String },
    /// Run this command line as the user.
    Run { line: String },
}

/// The mathematical counterpart of [`SliderEffect`].
pub enum SliderEffectView {
    Write { path: Seq<char>, contents: Seq<char> },
    Run { line: Seq<char> },
}

impl View for SliderEffect {
    type V = SliderEffectView;

    open spec fn view(&self) -> SliderEffectView {
        match self {
            SliderEffect::Write { path, contents } => SliderEffectView::Write {
                path: path@,
                contents: contents@,
            },
            SliderEffect::Run { line } => SliderEffectView::Run { line: line@ },
        }
    }
}

/// The view of an optional effect.
pub open spec fn slider_effect_opt(e: Option<SliderEffect>) -> Option<SliderEffectView> {
    match e {
        Some(e) => Some(e@),
        None => None,
    }
}

/// A fraction brought into the range from nothing to one whole.
pub open spec fn clamped(f: int) -> int {
    if f < 0 {
        0
    } else if f > ONE {
        ONE as int
    } else {
        f
    }
}

/// A fraction in per cent, to the nearest whole.
pub open spec fn percent_of(f: int) -> nat {
    half_up((f * 100) as nat, ONE as nat)
}

/// What part of the largest brightness this one is.
pub open spec fn brightness_fraction(current: u32, max: u32) -> int {
    if max == 0 {
        0
    } else {
        half_up(current as nat * ONE as nat, max as nat) as int
    }
}

/// The command line that sets the volume.
pub open spec fn volume_line(f: int) -> Seq<char> {
    "wpctl set-volume @DEFAULT_AUDIO_SINK@ "@ + decimal(percent_of(f)) + "%"@
}

/// The state of a slider. Times are in nanoseconds.
pub struct Slider {
    pub kind: SliderKind,
    pub path: Option<String>,
    pub max: u32,
    pub value: i64,
    pub muted: bool,
    pub last_poll: Option<u64>,
    pub last_set: Option<u64>,
}

/// Brings a fraction into the range from nothing to one whole.
pub fn clamp_fraction(f: i64) -> (r: i64)
    ensures
        r == clamped(f as int),
{
    if f < 0 {
        0
    } else if f > ONE {
        ONE
    } else {
        f
    }
}

proof fn lemma_percent(f: int)
    requires
        0 <= f <= ONE,
    ensures
        percent_of(f) <= 100,
{
    let d = ONE as nat;
    let n = (f * 100) as nat;
    assert(d == 1_000_000_000);
    assert(n / d <= 100) by (nonlinear_arith)
        requires
            d == 1_000_000_000,
            n <= 100 * d,
    ;
    if n / d == 100 {
        assert(n % d == 0) by (nonlinear_arith)
            requires
                d == 1_000_000_000,
                n <= 100 * d,
                n / d == 100,
        ;
    }
}

proof fn lemma_brightness(current: u32, max: u32)
    requires
        max > 0,
    ensures
        half_up(current as nat * ONE as nat, max as nat) <= current * ONE + 1,
        current * ONE <= u32::MAX * ONE,
{
    let n = current as nat * ONE as nat;
    let d = max as nat;
    assert(n / d <= n) by (nonlinear_arith)
        requires
            d >= 1,
    ;
}

proof fn lemma_scaled(f: int, max: u32)
    requires
        0 <= f <= ONE,
    ensures
        half_up((f * max) as nat, ONE as nat) <= max,
        0 <= f * max <= ONE * max,
{
    let d = ONE as nat;
    let m = max as nat;
    assert(0 <= f * max <= d * m) by (nonlinear_arith)
        requires
            0 <= f <= d,
            max == m,
            m >= 0,
    ;
    let n = (f * max) as nat;
    assert(n / d <= m) by (nonlinear_arith)
        requires
            d == 1_000_000_000,
            n <= d * m,
    ;
    if n / d == m {
        assert(n % d == 0) by (nonlinear_arith)
            requires
                d == 1_000_000_000,
                n <= d * m,
                n / d == m,
        ;
    }
}

/// A number in a file of one line, if it is there and fits.
pub open spec fn number_in(text: Option<Seq<char>>) -> Option<u32> {
    match text {
        Some(t) => match number_up_to(trimmed(t), u32::MAX as nat) {
            Some(n) => Some(n as u32),
            None => None,
        },
        None => None,
    }
}

/// Reads the number in a file, given its contents where it could be read.
pub fn read_u32(text: &Option<String>) -> (r: Option<u32>)
    ensures
        r == number_in(text_opt(*text)),
{
    match text {
        Some(t) => {
            let t = trim(t.as_str());
            match parse_up_to(t.as_str(), u32::MAX as u64) {
                Some(n) => Some(n as u32),
                None => None,
            }
        },
        None => None,
    }
}

/// The first of several numbers that is there.
pub open spec fn first_number(v: Seq<Option<i64>>) -> Option<i64>
    decreases v.len(),
{
    if v.len() == 0 {
        None
    } else if v[0] is Some {
        v[0]
    } else {
        first_number(v.subrange(1, v.len() as int))
    }
}

/// What `wpctl get-volume` wrote says: the first number among its words, at most
/// one whole, and whether the sink is muted. `numbers` holds, for each of the
/// words, the number that it stands for, if it does.
pub fn query_volume(written: &str, numbers: &Vec<Option<i64>>) -> (r: Option<(i64, bool)>)
    requires
        numbers@.len() == words(written@).len(),
    ensures
        r == match first_number(numbers@) {
            Some(f) => Some((if f > ONE { ONE } else { f }, occurs_in("[MUTED]"@, written@))),
            None => None,
        },
{
    let muted = contains(written, "[MUTED]");
    let n = numbers.len();
    let mut i: usize = 0;
    assert(numbers@.subrange(0, n as int) =~= numbers@);
    while i < n
        invariant
            i <= n,
            n == numbers@.len(),
            first_number(numbers@.subrange(i as int, n as int)) == first_number(numbers@),
            muted == occurs_in("[MUTED]"@, written@),
        decreases n - i,
    {
        let ghost rest = numbers@.subrange(i as int, n as int);
        assert(rest[0] == numbers@[i as int]);
        assert(rest.subrange(1, rest.len() as int) =~= numbers@.subrange(i + 1, n as int));
        match numbers[i] {
            Some(f) => {
                return Some((if f > ONE { ONE } else { f }, muted));
            },
            None => {},
        }
        i += 1;
    }
    None
}

impl Slider {
    /// The value is a fraction of one whole.
    pub open spec fn wf(&self) -> bool {
        0 <= self.value <= ONE
    }

    /// What a reading says of the value and the muting, before the value is
    /// brought into range. Nothing where there is nothing to read.
    pub open spec fn read_as(&self, reading: Reading) -> Option<(int, bool)> {
        if self.kind == SliderKind::Volume {
            match reading {
                Reading::Volume(Some(v)) => Some((v.0 as int, v.1)),
                _ => None,
            }
        } else if self.path is None {
            None
        } else {
            match reading {
                Reading::Brightness(Some(n)) => Some((brightness_fraction(n, self.max), false)),
                _ => Some((0, false)),
            }
        }
    }

    /// Whether it is too early to read the volume again.
    pub open spec fn poll_waits(&self, now: u64) -> bool {
        self.kind == SliderKind::Volume && match self.last_poll {
            Some(t) => now - t < VOLUME_POLL_INTERVAL,
            None => false,
        }
    }

    /// The slider after a reading.
    pub open spec fn refreshed(self, now: u64, reading: Reading) -> Slider {
        if self.poll_waits(now) {
            self
        } else {
            let polled = if self.kind == SliderKind::Volume {
                Slider { last_poll: Some(now), ..self }
            } else {
                self
            };
            match self.read_as(reading) {
                Some(v) => Slider { value: clamped(v.0) as i64, muted: v.1, ..polled },
                None => polled,
            }
        }
    }

    /// Whether a reading is worth redrawing the slider for: what is on show moves
    /// by more than a thousandth, or is muted or no longer muted.
    pub open spec fn shifts(self, now: u64, reading: Reading) -> bool {
        !self.poll_waits(now) && match self.read_as(reading) {
            Some(v) => clamped(v.0) - self.value > ONE / 1000 || self.value - clamped(v.0) > ONE
                / 1000 || v.1 != self.muted,
            None => false,
        }
    }

    /// Where a drag to this fraction leaves the value.
    pub open spec fn dragged_to(self, f: int) -> int {
        if self.kind == SliderKind::DisplayBrightness && clamped(f) < DISPLAY_MIN_FRACTION {
            DISPLAY_MIN_FRACTION as int
        } else {
            clamped(f)
        }
    }

    /// The brightness that stands for a fraction, to the nearest. That of a display
    /// is never zero, if it can be set at all.
    pub open spec fn level(self, v: int) -> nat {
        let n = half_up((v * self.max) as nat, ONE as nat);
        if self.kind == SliderKind::DisplayBrightness && self.max > 0 && n == 0 {
            1
        } else {
            n
        }
    }

    /// Whether a volume write is due.
    pub open spec fn set_due(self, now: u64) -> bool {
        match self.last_set {
            Some(t) => now - t >= VOLUME_SET_INTERVAL,
            None => true,
        }
    }

    /// The slider after a drag.
    pub open spec fn dragged(self, f: int, now: u64) -> Slider {
        let v = self.dragged_to(f);
        if self.kind == SliderKind::Volume {
            Slider {
                value: v as i64,
                muted: self.muted && v == 0,
                last_set: if self.set_due(now) {
                    Some(now)
                } else {
                    self.last_set
                },
                ..self
            }
        } else {
            Slider { value: v as i64, ..self }
        }
    }

    /// What a drag asks to be done.
    pub open spec fn drag_effect(self, f: int, now: u64) -> Option<SliderEffectView> {
        let v = self.dragged_to(f);
        if self.kind == SliderKind::Volume {
            if self.set_due(now) {
                Some(SliderEffectView::Run { line: volume_line(v) })
            } else {
                None
            }
        } else {
            match self.path {
                Some(p) => Some(
                    SliderEffectView::Write {
                        path: path_joined(p@, "brightness"@),
                        contents: decimal(self.level(v)) + "\n"@,
                    },
                ),
                None => None,
            }
        }
    }

    /// The slider after a drag has ended.
    pub open spec fn committed(self, now: u64) -> Slider {
        if self.kind == SliderKind::Volume {
            Slider { last_set: Some(now), ..self }
        } else {
            self
        }
    }

    /// What the end of a drag asks to be done.
    pub open spec fn commit_effect(self) -> Option<SliderEffectView> {
        if self.kind == SliderKind::Volume {
            Some(SliderEffectView::Run { line: volume_line(self.value as int) })
        } else {
            None
        }
    }

    /// The slider after its muting was toggled.
    pub open spec fn mute_toggled(self, now: u64) -> Slider {
        if self.kind == SliderKind::Volume {
            Slider { muted: !self.muted, last_poll: Some(now), ..self }
        } else {
            self
        }
    }

    /// What toggling the muting asks to be done.
    pub open spec fn mute_effect(self) -> Option<SliderEffectView> {
        if self.kind == SliderKind::Volume {
            Some(SliderEffectView::Run { line: "wpctl set-mute @DEFAULT_AUDIO_SINK@ toggle"@ })
        } else {
            None
        }
    }

    /// A slider of which nothing was read yet, for the device at this path, if
    /// there is one, whose largest brightness is in the contents of its
    /// `max_brightness` file.
    pub open spec fn unread(
        kind: SliderKind,
        device: Option<String>,
        max_text: Option<Seq<char>>,
    ) -> Slider {
        Slider {
            kind,
            path: if kind == SliderKind::Volume {
                None
            } else {
                device
            },
            max: if kind == SliderKind::Volume || device is None {
                0
            } else {
                match number_in(max_text) {
                    Some(n) => n,
                    None => 0,
                }
            },
            value: 0,
            muted: false,
            last_poll: None,
            last_set: None,
        }
    }

    /// A slider for the device at this path, if there is one, whose largest
    /// brightness is in the contents of its `max_brightness` file, at the value
    /// of a first reading.
    pub fn new(
        kind: SliderKind,
        device: Option<String>,
        max_text: Option<String>,
        now: u64,
        reading: Reading,
    ) -> (r: Slider)
        ensures
            r.wf(),
            r == Slider::unread(kind, device, text_opt(max_text)).refreshed(now, reading),
    {
        let (path, max): (Option<String>, u32) = if kind == SliderKind::Volume {
            (None, 0)
        } else if device.is_some() {
            let max: u32 = match read_u32(&max_text) {
                Some(n) => n,
                None => 0,
            };
            (device, max)
        } else {
            (None, 0)
        };
        let mut slider = Slider {
            kind,
            path,
            max,
            value: 0,
            muted: false,
            last_poll: None,
            last_set: None,
        };
        slider.refresh(now, reading);
        slider
    }

    /// What the slider controls.
    pub fn kind(&self) -> (r: SliderKind)
        ensures
            r == self.kind,
    {
        self.kind
    }

    /// The value as a fraction of one whole.
    pub fn value(&self) -> (r: i64)
        ensures
            r == self.value,
    {
        self.value
    }

    /// Whether the volume is muted.
    pub fn muted(&self) -> (r: bool)
        ensures
            r == self.muted,
    {
        self.muted
    }

    /// The value in per cent.
    pub fn percent(&self) -> (r: u32)
        requires
            self.wf(),
        ensures
            r == percent_of(self.value as int),
            r <= 100,
    {
        proof {
            lemma_percent(self.value as int);
        }
        divide_half_up(self.value as u128 * 100, ONE as u128) as u32
    }

    /// Whether the next reading would be taken. The volume is not read again
    /// before its poll interval has passed; a brightness can be read when there
    /// is a device.
    pub fn poll_due(&self, now: u64) -> (r: bool)
        ensures
            r == (!self.poll_waits(now) && (self.kind == SliderKind::Volume || self.path is Some)),
    {
        if self.kind == SliderKind::Volume {
            match self.last_poll {
                Some(t) => now.saturating_sub(t) >= VOLUME_POLL_INTERVAL,
                None => true,
            }
        } else {
            self.path.is_some()
        }
    }

    /// Takes over a reading of the hardware. Tells whether the slider should be
    /// drawn again.
    pub fn refresh(&mut self, now: u64, reading: Reading) -> (r: bool)
        requires
            old(self).wf(),
        ensures
            final(self).wf(),
            *final(self) == old(self).refreshed(now, reading),
            r == old(self).shifts(now, reading),
    {
        let (value, muted): (i64, bool) = if self.kind == SliderKind::Volume {
            if !self.poll_due(now) {
                return false;
            }
            self.last_poll = Some(now);
            match reading {
                Reading::Volume(Some(v)) => v,
                _ => {
                    return false;
                },
            }
        } else {
            if self.path.is_none() {
                return false;
            }
            let current: u32 = match reading {
                Reading::Brightness(Some(n)) => n,
                _ => 0,
            };
            let f: i64 = if self.max > 0 {
                proof {
                    lemma_brightness(current, self.max);
                }
                divide_half_up(current as u128 * ONE as u128, self.max as u128) as i64
            } else {
                0
            };
            proof {
                if self.max > 0 {
                    assert(half_up(0, self.max as nat) == 0) by (nonlinear_arith)
                        requires
                            self.max > 0,
                    ;
                    assert(0nat * ONE as nat == 0);
                }
            }
            (f, false)
        };
        let value = clamp_fraction(value);
        let off: i64 = value - self.value;
        let step: i64 = ONE / 1000;
        let changed = off > step || -off > step || muted != self.muted;
        self.value = value;
        self.muted = muted;
        changed
    }

    /// The command line that brings the volume to the slider's value.
    fn apply_volume(&self) -> (r: SliderEffect)
        requires
            self.wf(),
        ensures
            r@ == (SliderEffectView::Run { line: volume_line(self.value as int) }),
    {
        let mut line = "wpctl set-volume @DEFAULT_AUDIO_SINK@ ".to_owned();
        line.append(decimal_text(self.percent() as u64).as_str());
        line.append("%");
        SliderEffect::Run { line }
    }

    /// Drags the slider to a fraction. What comes back is to be done.
    pub fn set_fraction(&mut self, f: i64, now: u64) -> (r: Option<SliderEffect>)
        requires
            old(self).wf(),
        ensures
            final(self).wf(),
            *final(self) == old(self).dragged(f as int, now),
            slider_effect_opt(r) == old(self).drag_effect(f as int, now),
    {
        let f = clamp_fraction(f);
        if self.kind == SliderKind::Volume {
            self.value = f;
            if f > 0 {
                self.muted = false;
            }
            let due = match self.last_set {
                Some(t) => now.saturating_sub(t) >= VOLUME_SET_INTERVAL,
                None => true,
            };
            if due {
                let effect = self.apply_volume();
                self.last_set = Some(now);
                Some(effect)
            } else {
                None
            }
        } else {
            let f: i64 = if self.kind == SliderKind::DisplayBrightness && f < DISPLAY_MIN_FRACTION {
                DISPLAY_MIN_FRACTION
            } else {
                f
            };
            self.value = f;
            match &self.path {
                Some(p) => {
                    proof {
                        lemma_scaled(f as int, self.max);
                    }
                    let nearest: u128 = divide_half_up(f as u128 * self.max as u128, ONE as u128);
                    let level: u128 = if self.kind == SliderKind::DisplayBrightness && self.max > 0
                        && nearest == 0 {
                        1
                    } else {
                        nearest
                    };
                    let mut contents = decimal_text(level as u64);
                    contents.append("\n");
                    Some(SliderEffect::Write { path: join_path(p.as_str(), "brightness"), contents })
                },
                None => None,
            }
        }
    }

    /// Ends a drag: the last position of a volume slider is written whatever
    /// was written before.
    pub fn commit(&mut self, now: u64) -> (r: Option<SliderEffect>)
        requires
            old(self).wf(),
        ensures
            final(self).wf(),
            *final(self) == old(self).committed(now),
            slider_effect_opt(r) == old(self).commit_effect(),
    {
        if self.kind == SliderKind::Volume {
            let effect = self.apply_volume();
            self.last_set = Some(now);
            Some(effect)
        } else {
            None
        }
    }

    /// Mutes a volume slider, or unmutes it. Other sliders stay as they are.
    pub fn toggle_mute(&mut self, now: u64) -> (r: Option<SliderEffect>)
        ensures
            old(self).wf() ==> final(self).wf(),
            *final(self) == old(self).mute_toggled(now),
            slider_effect_opt(r) == old(self).mute_effect(),
    {
        if self.kind != SliderKind::Volume {
            return None;
        }
        self.muted = !self.muted;
        self.last_poll = Some(now);
        Some(SliderEffect::Run { line: "wpctl set-mute @DEFAULT_AUDIO_SINK@ toggle".to_owned() })
    }
}

/// A drag never turns the display off: wherever it goes, the brightness that is
/// written is at least one, and at most the largest.
pub proof fn display_stays_lit(s: Slider, f: int, now: u64)
    requires
        s.kind == SliderKind::DisplayBrightness,
        s.max > 0,
    ensures
        s.dragged(f, now).value >= DISPLAY_MIN_FRACTION > 0,
        match s.drag_effect(f, now) {
            Some(e) => exists|n: nat|
                1 <= n <= s.max && e == (SliderEffectView::Write {
                    path: path_joined(s.path->0@, "brightness"@),
                    contents: #[trigger] decimal(n) + "\n"@,
                }),
            None => s.path is None,
        },
{
    let v = s.dragged_to(f);
    lemma_scaled(v, s.max);
    assert(1 <= s.level(v) <= s.max);
    assert(decimal(s.level(v)) == decimal(s.level(v)));
}

/// A reading that would show what is on show already is not worth a redraw.
pub proof fn unchanged_reading_is_quiet(s: Slider, first: u64, now: u64, reading: Reading)
    requires
        !s.poll_waits(first),
    ensures
        !s.refreshed(first, reading).shifts(now, reading),
{
}

/// However volume writes are spaced out during a drag, its end writes the
/// position that the drag came to.
pub proof fn last_position_is_written(s: Slider, f: int, now: u64)
    requires
        s.kind == SliderKind::Volume,
    ensures
        s.dragged(f, now).commit_effect() == Some(
            SliderEffectView::Run { line: volume_line(clamped(f)) },
        ),
{
}

/// A volume write that comes too soon behind another is left out, and a drag to
/// silence keeps the muting while any other ends it.
pub proof fn volume_writes_are_spaced(s: Slider, f: int, now: u64)
    requires
        s.kind == SliderKind::Volume,
    ensures
        s.drag_effect(f, now) is None <==> (s.last_set is Some && now - s.last_set->0
            < VOLUME_SET_INTERVAL),
        s.dragged(f, now).muted <==> s.muted && clamped(f) == 0,
{
}

/// Toggling the muting twice restores it.
pub proof fn mute_twice_restores(s: Slider, first: u64, second: u64)
    ensures
        s.mute_toggled(first).mute_toggled(second).muted == s.muted,
{
}

/// A command line run as the logged-in user, with their session variables. The
/// runtime directory is derived from the user's id where it is not set.
pub open spec fn user_command_view(line: Seq<char>, env: Environment) -> CommandView {
    let argv = shell_argv(text_opt(env.sudo_user), line);
    let uid = match text_opt(env.sudo_uid) {
        Some(u) => u,
        None => decimal(env.euid as nat),
    };
    CommandView {
        program: argv.0,
        args: argv.1,
        vars: if env.xdg_runtime_dir_set {
            session_vars(env)
        } else {
            session_vars(env).push(("XDG_RUNTIME_DIR"@, "/run/user/"@ + uid))
        },
    }
}

/// Plans a command line that is run as the logged-in user.
pub fn user_command(line: &str, env: &Environment) -> (r: CommandPlan)
    ensures
        r@ == user_command_view(line@, *env),
{
    let mut plan = shell_plan(&env.sudo_user, line, env);
    if !env.xdg_runtime_dir_set {
        let uid = match &env.sudo_uid {
            Some(u) => u.clone(),
            None => decimal_text(env.euid as u64),
        };
        let mut dir = "/run/user/".to_owned();
        dir.append(uid.as_str());
        let ghost earlier = plan@.vars;
        plan.vars.push(("XDG_RUNTIME_DIR".to_owned(), dir));
        assert(plan@.vars =~= earlier.push(("XDG_RUNTIME_DIR"@, dir@)));
    }
    plan
}

/// The whole number that is nearest to a share of another one.
pub open spec fn is_nearest(n: int, share: int, whole: int) -> bool {
    -1_000_000_000 <= 2 * (n * 1_000_000_000 - share * whole) <= 1_000_000_000
}

proof fn lemma_nearest(n: nat, d: nat)
    requires
        d > 0,
    ensures
        -(d as int) <= 2 * (half_up(n, d) * d - n) <= d,
{
    let q = n / d;
    let r = n % d;
    assert(n == d * q + r && r < d) by (nonlinear_arith)
        requires
            q == n / d,
            r == n % d,
            d > 0,
    ;
    assert(q * d == d * q && (q + 1) * d == d * q + d) by (nonlinear_arith);
}

/// The place that a drag comes to: within the slider, and on a display at least a
/// fiftieth of it.
pub open spec fn drag_end(s: Slider, f: int) -> int {
    let least = if s.kind == SliderKind::DisplayBrightness {
        20_000_000int
    } else {
        0
    };
    if f < least {
        least
    } else if f > 1_000_000_000 {
        1_000_000_000
    } else {
        f
    }
}

/// A drag of a slider with a device writes into that device's `brightness` file
/// the whole number that is nearest to the fraction of the largest brightness, on
/// a display at least one. A drag to one whole writes the largest brightness, the
/// slider then stands where it was dragged to, and the number that was written is
/// read back as that fraction to within half a step.
pub proof fn drag_writes_the_nearest_brightness(s: Slider, f: int, now: u64, later: u64)
    requires
        s.kind != SliderKind::Volume,
        s.path is Some,
        s.max > 0,
    ensures
        s.dragged(f, now).value == drag_end(s, f),
        exists|n: int|
            {
                &&& 0 <= n <= s.max
                &&& s.drag_effect(f, now) == Some(
                    SliderEffectView::Write {
                        path: path_joined(s.path->0@, "brightness"@),
                        contents: #[trigger] decimal(n as nat) + "\n"@,
                    },
                )
                &&& number_in(Some(decimal(n as nat) + "\n"@)) == Some(n as u32)
                &&& is_nearest(n, drag_end(s, f), s.max as int) || (s.kind
                    == SliderKind::DisplayBrightness && n == 1 && is_nearest(
                    0,
                    drag_end(s, f),
                    s.max as int,
                ))
                &&& f >= 1_000_000_000 ==> n == s.max
                &&& is_nearest(n, drag_end(s, f), s.max as int) ==> {
                    let read = s.dragged(f, now).refreshed(
                        later,
                        Reading::Brightness(Some(n as u32)),
                    );
                    -(s.max + 1_000_000_000) <= 2 * (read.value - drag_end(s, f)) * s.max <= s.max
                        + 1_000_000_000
                }
            },
{
    let v = drag_end(s, f);
    let m = s.max as int;
    assert(s.dragged_to(f) == v);
    lemma_scaled(v, s.max);
    let n = s.level(v);
    lemma_nearest((v * m) as nat, ONE as nat);
    decimal_is_read_back(n);
    line_of_digits_is_trimmed(decimal(n));
    assert(s.drag_effect(f, now)->0->Write_contents == decimal(n) + "\n"@);
    if f >= 1_000_000_000 {
        assert(half_up((ONE * m) as nat, ONE as nat) == m);
    }
    assert(n <= m);
    let read = s.dragged(f, now).refreshed(later, Reading::Brightness(Some(n as u32)));
    let got = half_up(n * ONE as nat, s.max as nat);
    lemma_nearest(n * ONE as nat, s.max as nat);
    lemma_reading(n as u32, s.max);
    assert(read.value == got);
    assert(2 * (got - v) * m == 2 * (got * m - n * ONE) + 2 * (n * ONE - v * m)) by (nonlinear_arith);
}

proof fn lemma_reading(n: u32, max: u32)
    requires
        n <= max,
        max > 0,
    ensures
        0 <= half_up(n as nat * ONE as nat, max as nat) <= ONE,
{
    let a = n as nat * ONE as nat;
    let d = max as nat;
    let q = a / d;
    let r = a % d;
    assert(a <= d * ONE) by (nonlinear_arith)
        requires
            a == n as nat * ONE as nat,
            n <= d,
    ;
    assert(a == d * q + r && 0 <= r < d) by (nonlinear_arith)
        requires
            q == a / d,
            r == a % d,
            d > 0,
    ;
    assert(q <= ONE && (q == ONE ==> r == 0)) by (nonlinear_arith)
        requires
            a == d * q + r,
            0 <= r,
            d > 0,
            a <= d * ONE,
    ;
}

/// A slider reads its brightness as the part that it is of the largest one, to
/// the nearest billionth: none of it as nothing, all of it as one whole, and more
/// as more.
pub proof fn brightness_is_read_as_its_part(s: Slider, low: u32, high: u32, now: u64)
    requires
        s.kind != SliderKind::Volume,
        s.path is Some,
        low <= high <= s.max,
        s.max > 0,
    ensures
        ({
            let at_low = s.refreshed(now, Reading::Brightness(Some(low))).value;
            let at_high = s.refreshed(now, Reading::Brightness(Some(high))).value;
            &&& -(s.max as int) <= 2 * (at_low * s.max - low * 1_000_000_000) <= s.max
            &&& low == 0 ==> at_low == 0
            &&& high == s.max ==> at_high == 1_000_000_000
            &&& at_low <= at_high
            &&& !s.refreshed(now, Reading::Brightness(Some(low))).muted
        }),
{
    let d = s.max as nat;
    lemma_reading(low, s.max);
    lemma_reading(high, s.max);
    lemma_nearest(low as nat * ONE as nat, d);
    let a = half_up(low as nat * ONE as nat, d);
    let b = half_up(high as nat * ONE as nat, d);
    lemma_half_up_grows(low as nat * ONE as nat, high as nat * ONE as nat, d);
    if low == 0 {
        assert(0nat / d == 0 && 0nat % d == 0) by (nonlinear_arith)
            requires
                d > 0,
        ;
    }
    if high == s.max {
        assert((d * ONE) as int / d as int == ONE && (d * ONE) as int % d as int == 0)
            by (nonlinear_arith)
            requires
                d > 0,
        ;
        assert(high as nat * ONE as nat == d * ONE);
    }
}

proof fn lemma_half_up_grows(a: nat, b: nat, d: nat)
    requires
        a <= b,
        d > 0,
    ensures
        half_up(a, d) <= half_up(b, d),
{
    let qa = a / d;
    let qb = b / d;
    assert(a == d * qa + a % d && a % d < d && b == d * qb + b % d && b % d < d)
        by (nonlinear_arith)
        requires
            qa == a / d,
            qb == b / d,
            d > 0,
    ;
    assert(qa <= qb && (qa == qb ==> a % d <= b % d)) by (nonlinear_arith)
        requires
            a == d * qa + a % d,
            b == d * qb + b % d,
            a % d < d,
            b % d < d,
            a <= b,
            d > 0,
    ;
}

/// A drag of the volume that is due, and the end of any drag of it, run `wpctl`
/// with the whole number of per cent that is nearest to where the slider stands.
pub proof fn volume_is_set_in_per_cent(s: Slider, f: int, now: u64)
    requires
        s.kind == SliderKind::Volume,
    ensures
        s.dragged(f, now).value == drag_end(s, f),
        exists|n: int|
            {
                let run = SliderEffectView::Run {
                    line: "wpctl set-volume @DEFAULT_AUDIO_SINK@ "@ + #[trigger] decimal(n as nat)
                        + "%"@,
                };
                &&& 0 <= n <= 100
                &&& is_nearest(n, drag_end(s, f), 100)
                &&& s.drag_effect(f, now) is Some ==> s.drag_effect(f, now) == Some(run)
                &&& s.dragged(f, now).commit_effect() == Some(run)
                &&& f <= 0 ==> n == 0
                &&& f >= 1_000_000_000 ==> n == 100
            },
        s.last_set is None || now - s.last_set->0 >= 60_000_000 <==> s.drag_effect(f, now) is Some,
{
    let v = drag_end(s, f);
    let n = percent_of(v);
    lemma_percent(v);
    lemma_nearest((v * 100) as nat, ONE as nat);
    let k = n as int;
    let run = SliderEffectView::Run {
        line: "wpctl set-volume @DEFAULT_AUDIO_SINK@ "@ + decimal(k as nat) + "%"@,
    };
    assert(s.dragged_to(f) == v);
    assert(s.dragged(f, now).commit_effect() == Some(run));
    assert(is_nearest(k, v, 100));
    if f >= 1_000_000_000 {
        assert(k == 100);
    }
}

/// The volume is read as it was reported, within the slider, at most every seven
/// tenths of a second; a reading too soon, or one that failed, changes neither the
/// value nor the muting.
pub proof fn volume_is_read_as_reported(s: Slider, now: u64, f: i64, muted: bool)
    requires
        s.kind == SliderKind::Volume,
    ensures
        ({
            let read = s.refreshed(now, Reading::Volume(Some((f, muted))));
            let soon = s.last_poll is Some && now - s.last_poll->0 < 700_000_000;
            &&& soon ==> read == s
            &&& !soon ==> {
                &&& read.muted == muted
                &&& read.last_poll == Some(now)
                &&& 0 <= f <= 1_000_000_000 ==> read.value == f
                &&& f < 0 ==> read.value == 0
                &&& f > 1_000_000_000 ==> read.value == 1_000_000_000
            }
            &&& s.refreshed(now, Reading::Volume(None)).value == s.value
            &&& s.refreshed(now, Reading::Volume(None)).muted == s.muted
        }),
{
}

/// Only the volume can be muted: toggling it asks `wpctl` to, and shows the other
/// state at once, at the same place.
pub proof fn only_the_volume_is_muted(s: Slider, now: u64)
    ensures
        s.kind == SliderKind::Volume ==> {
            &&& s.mute_toggled(now).muted != s.muted
            &&& s.mute_toggled(now).value == s.value
            &&& s.mute_effect() == Some(
                SliderEffectView::Run { line: "wpctl set-mute @DEFAULT_AUDIO_SINK@ toggle"@ },
            )
        },
        s.kind != SliderKind::Volume ==> s.mute_toggled(now) == s && s.mute_effect() is None
            && s.commit_effect() is None && s.committed(now) == s,
{
}

/// A reading is worth a redraw exactly if what is on show changes by it: by more
/// than a thousandth of the slider, or by being muted or no longer.
pub proof fn shift_is_seen(s: Slider, now: u64, reading: Reading)
    requires
        s.wf(),
    ensures
        ({
            let read = s.refreshed(now, reading);
            s.shifts(now, reading) <==> read.muted != s.muted || read.value - s.value > 1_000_000
                || s.value - read.value > 1_000_000
        }),
{
}

/// A slider that was just made knows the largest brightness of its device, and
/// none where there is no device or no number.
pub proof fn new_slider_knows_its_range(
    kind: SliderKind,
    device: Option<String>,
    max: u32,
    now: u64,
    reading: Reading,
)
    ensures
        ({
            let s = Slider::unread(kind, device, Some(decimal(max as nat) + "\n"@)).refreshed(
                now,
                reading,
            );
            &&& s.kind == kind
            &&& kind == SliderKind::Volume ==> s.path is None && s.max == 0
            &&& kind != SliderKind::Volume && device is Some ==> s.path == device && s.max == max
            &&& kind != SliderKind::Volume && device is None ==> s.path is None && s.max == 0
            &&& s.last_set is None
        }),
{
    decimal_is_read_back(max as nat);
    line_of_digits_is_trimmed(decimal(max as nat));
}

/// A command that is run as the logged-in user goes to the shell as it is, as the
/// last argument, and under that user's name where it is known; the runtime
/// directory is that of their id where it is not set.
pub proof fn user_command_goes_to_the_shell(line: Seq<char>, env: Environment)
    ensures
        ({
            let c = user_command_view(line, env);
            &&& c.args.last() == line
            &&& env.sudo_user matches Some(u) ==> c.program == "sudo"@ && c.args == seq![
                "-u"@,
                u@,
                "sh"@,
                "-c"@,
                line,
            ]
            &&& env.sudo_user is None ==> c.program == "sh"@ && c.args == seq!["-c"@, line]
            &&& env.xdg_runtime_dir_set ==> c.vars == session_vars(env)
            &&& !env.xdg_runtime_dir_set ==> {
                &&& c.vars.len() == session_vars(env).len() + 1
                &&& c.vars.last().0 == "XDG_RUNTIME_DIR"@
                &&& env.sudo_uid matches Some(u) ==> c.vars.last().1 == "/run/user/"@ + u@
                &&& env.sudo_uid is None ==> c.vars.last().1 == "/run/user/"@ + decimal(
                    env.euid as nat,
                )
            }
        }),
{
}

/// A kind of slider goes by any of its names, whatever the case of their letters,
/// and by no other one.
pub proof fn sliders_go_by_their_names(s: Seq<char>)
    ensures
        ({
            let l = lower(s);
            let kind = slider_kind_named(s);
            &&& kind == Some(SliderKind::DisplayBrightness) <==> l == "display_brightness"@ || l
                == "brightness"@ || l == "display"@
            &&& kind == Some(SliderKind::KeyboardBacklight) <==> l == "keyboard_backlight"@ || l
                == "backlight"@ || l == "keyboard"@ || l == "illum"@
            &&& kind == Some(SliderKind::Volume) <==> l == "volume"@ || l == "audio"@ || l
                == "sound"@
        }),
{
    reveal_strlit("display_brightness");
    reveal_strlit("brightness");
    reveal_strlit("display");
    reveal_strlit("keyboard_backlight");
    reveal_strlit("backlight");
    reveal_strlit("keyboard");
    reveal_strlit("illum");
    reveal_strlit("volume");
    reveal_strlit("audio");
    reveal_strlit("sound");
    assert("display_brightness"@.len() == 18 && "display_brightness"@[0] == 'd');
    assert("brightness"@.len() == 10);
    assert("display"@.len() == 7);
    assert("keyboard_backlight"@.len() == 18 && "keyboard_backlight"@[0] == 'k');
    assert("backlight"@.len() == 9);
    assert("keyboard"@.len() == 8);
    assert("illum"@.len() == 5 && "illum"@[0] == 'i');
    assert("volume"@.len() == 6);
    assert("audio"@.len() == 5 && "audio"@[0] == 'a');
    assert("sound"@.len() == 5 && "sound"@[0] == 's');
}

/// A brightness that cannot be read shows as nothing, and a slider without a device
/// stays as it is.
pub proof fn unreadable_brightness_shows_as_nothing(s: Slider, now: u64, reading: Reading)
    requires
        s.kind != SliderKind::Volume,
    ensures
        s.path is Some ==> s.refreshed(now, Reading::Brightness(None)).value == 0,
        s.path is None ==> s.refreshed(now, reading) == s,
        s.path is None ==> s.drag_effect(0, now) is None,
{
}

/// A volume that was just muted or unmuted is not read again at once, so that what
/// is shown does not flicker.
pub proof fn muting_waits_for_the_next_reading(s: Slider, now: u64, later: u64, reading: Reading)
    requires
        s.kind == SliderKind::Volume,
        now <= later,
        later - now < 700_000_000,
    ensures
        s.mute_toggled(now).refreshed(later, reading) == s.mute_toggled(now),
{
}

/// A drag changes nothing of a slider but where it stands, its muting and when the
/// volume was last set.
pub proof fn drag_keeps_the_device(s: Slider, f: int, now: u64)
    ensures
        ({
            let after = s.dragged(f, now);
            &&& after.kind == s.kind
            &&& after.path == s.path
            &&& after.max == s.max
            &&& after.last_poll == s.last_poll
            &&& s.kind != SliderKind::Volume ==> after.muted == s.muted && after.last_set
                == s.last_set
        }),
{
}

} // verus!
