//! The daemon: which layer is on, and what keys, touches and the passing of time
//! do to it.

use std::collections::HashMap;

use vstd::prelude::*;
use vstd::string::*;

use crate::button::{
    browsable, Button, ButtonImage, ButtonView, ImageView, NotificationButton, Press, PressView,
    LONG_PRESS_TIMEOUT,
};
use crate::command::{text_opt, Environment};
use crate::config::Config;
use crate::content::{Ambient, ContentView};
use crate::draw::{
    actions_are_drawn_as_their_labels, after_draw, drawn_as, drawn_buttons_are_up_to_date, due, item_drawn,
    places_are_drawn_where_they_are_touched, stands_still, with_button, ClipRect, DrawPlan, ItemView,
    Scene,
};
use crate::input::InputEvent;
use crate::layer::{
    action_count, begin_layer_switch, button_edge, fits, fraction_at, hits, layer_at,
    layer_at_is_first, layer_index, layers_of, layout, layout_is_bounded, parent_at, parent_index,
    places_are_counted, room, switch_of, touch_inside_a_place_hits_it, FunctionLayer, LayerView,
    PlaceKind, PulloutAnim, PULLOUT_ANIM,
};
use crate::notification_manager::NotificationManager;
use crate::number::ONE;
use crate::slider::{slider_effect_opt, Reading, SliderEffect, SliderEffectView, SliderKind};
use crate::sysinfo_manager::SystemInfoManager;
use crate::text::{decimal, texts};
use crate::weather::WeatherManager;

verus! {

broadcast use vstd::std_specs::hash::group_hash_axioms;

/// The longest time between two looks at everything, and that while sliders or
/// notifications are on show, a finger rests on a button, or a panel slides; in
/// milliseconds.
pub const TIMEOUT_MS: i32 = 10_000;

pub const SLIDER_REFRESH_MS: i32 = 1_000;

pub const NOTIFICATION_REFRESH_MS: i32 = 1_000;

pub const HOLD_REFRESH_MS: i32 = 50;

pub const SLIDE_REFRESH_MS: i32 = 16;

/// How soon a second tap follows the first for a double tap, in nanoseconds.
pub const DOUBLE_TAP_TIMEOUT: u64 = 300_000_000;

/// The code of the key that brings up the function keys.
pub const KEY_FN: u32 = 464;

/// A finger on the bar: the layer and the place that it came down on, and when,
/// in nanoseconds.
#[derive(Clone, Copy, PartialEq, Eq, Structural, Debug)]
pub struct Touch {
    pub layer: usize,
    pub button: usize,
    pub down_at: u64,
}

/// The state of the daemon. Times are in nanoseconds.
pub struct Daemon {
    pub layers: Vec<FunctionLayer>,
    pub cfg: Config,
    pub width: u16,
    pub height: u16,
    /// The layer that is on while no key overrides it.
    pub normal_layer: usize,
    /// The layer that the notifications lead back to.
    pub notification_return_layer: usize,
    pub active_layer: usize,
    pub needs_complete_redraw: bool,
    pub touches: HashMap<u32, Touch>,
    pub last_volume_tap: Option<u64>,
    pub pullout_anim: Option<PulloutAnim>,
    /// The second or minute that the time was last drawn in.
    pub last_redraw_ts: u32,
    /// When the key for the function keys was last pressed.
    pub last_fn_press: u64,
}

/// The mathematical counterpart of [`Daemon`].
#[verifier::ext_equal]
pub struct DaemonView {
    pub layers: Seq<LayerView>,
    pub cfg: Config,
    pub width: u16,
    pub height: u16,
    pub normal: int,
    pub back: int,
    pub active: int,
    pub redraw: bool,
    pub touches: Map<u32, Touch>,
    pub tap: Option<u64>,
    pub anim: Option<PulloutAnim>,
    pub stamp: u32,
    pub fn_press: u64,
}

impl View for Daemon {
    type V = DaemonView;

    open spec fn view(&self) -> DaemonView {
        DaemonView {
            layers: layers_of(self.layers@),
            cfg: self.cfg,
            width: self.width,
            height: self.height,
            normal: self.normal_layer as int,
            back: self.notification_return_layer as int,
            active: self.active_layer as int,
            redraw: self.needs_complete_redraw,
            touches: self.touches@,
            tap: self.last_volume_tap,
            anim: self.pullout_anim,
            stamp: self.last_redraw_ts,
            fn_press: self.last_fn_press,
        }
    }
}

/// What the backlights and the volume were found at.
pub struct SliderReadings {
    pub display: Option<u32>,
    pub keyboard: Option<u32>,
    pub volume: Option<(i64, bool)>,
}

/// The reading for a kind of slider.
pub open spec fn reading_for(kind: SliderKind, r: SliderReadings) -> Reading {
    match kind {
        SliderKind::DisplayBrightness => Reading::Brightness(r.display),
        SliderKind::KeyboardBacklight => Reading::Brightness(r.keyboard),
        SliderKind::Volume => Reading::Volume(r.volume),
    }
}

/// Whether a button shows something that may have changed since it was drawn.
pub open spec fn may_have_changed(l: LayerView, b: ButtonView) -> bool {
    ||| l.displays_battery && b.image is Battery
    ||| l.displays_sysinfo && (b.image is CpuUsage || b.image is MemoryUsage || b.image
        is ActiveWindow || b.image is ActiveWorkspace)
    ||| l.displays_weather && (b.image is WeatherCurrent || b.image is WeatherForecast)
    ||| b.hold_started is Some
}

/// A button after its slider was read, where sliders are on show, and after it
/// was found to be due.
pub open spec fn refreshed_button(
    b: ButtonView,
    sliders: bool,
    due: bool,
    now: u64,
    r: SliderReadings,
) -> ButtonView {
    let next = match b.slider() {
        Some(s) => if sliders {
            ButtonView {
                changed: b.changed || s.shifts(now, reading_for(s.kind, r)),
                ..b.with_slider(s.refreshed(now, reading_for(s.kind, r)))
            }
        } else {
            b
        },
        None => b,
    };
    ButtonView { changed: next.changed || due, ..next }
}

/// A button after a look at everything.
pub open spec fn looked_at(l: LayerView, b: ButtonView, now: u64, r: SliderReadings) -> ButtonView {
    refreshed_button(b, l.displays_slider, may_have_changed(l, b), now, r)
}

/// A layer after a look at everything.
pub open spec fn layer_looked_at(l: LayerView, now: u64, r: SliderReadings) -> LayerView {
    LayerView {
        buttons: Seq::new(
            l.buttons.len(),
            |i: int| (l.buttons[i].0, looked_at(l, l.buttons[i].1, now, r)),
        ),
        ..l
    }
}

/// Whether a finger rests on a button of a layer.
pub open spec fn any_hold(l: LayerView) -> bool {
    exists|i: int| 0 <= i < l.buttons.len() && (#[trigger] l.buttons[i]).1.hold_started is Some
}

/// Whether a button of a layer is to be drawn again.
pub open spec fn any_changed(l: LayerView) -> bool {
    exists|i: int| 0 <= i < l.buttons.len() && (#[trigger] l.buttons[i]).1.changed
}

/// The smaller of two numbers.
pub open spec fn least(a: int, b: int) -> int {
    if b < a {
        b
    } else {
        a
    }
}

/// The notifications, for a layer that shows them.
pub open spec fn notes_for<'a>(l: LayerView, mgr: &'a NotificationManager) -> Option<
    &'a NotificationManager,
> {
    if l.displays_notifications {
        Some(mgr)
    } else {
        None
    }
}

/// The layer and the place that a finger comes down on: of the layer that is on,
/// or of the one under it where that is a panel.
pub open spec fn struck_at(
    layers: Seq<LayerView>,
    active: int,
    width: u16,
    height: u16,
    x: i64,
    y: i64,
    mgr: &NotificationManager,
) -> Option<(int, int)> {
    match hits(layers[active], width, height, x, y, None, notes_for(layers[active], mgr)) {
        Some(b) => Some((active, b)),
        None => match parent_at(layers, active) {
            Some(p) => match hits(
                layers[p as int],
                width,
                height,
                x,
                y,
                None,
                notes_for(layers[p as int], mgr),
            ) {
                Some(b) => Some((p as int, b)),
                None => None,
            },
            None => None,
        },
    }
}

impl DaemonView {
    /// The layers are valid, and those that are on are among them.
    pub open spec fn sound(self) -> bool {
        &&& 0 <= self.normal < self.layers.len()
        &&& 0 <= self.active < self.layers.len()
        &&& forall|i: int| 0 <= i < self.layers.len() ==> (#[trigger] self.layers[i]).wf()
    }

    /// The layer that is on.
    pub open spec fn on(self) -> LayerView {
        self.layers[self.active]
    }

    /// The layers of a slide are there.
    pub open spec fn slide_sound(self) -> bool {
        self.anim matches Some(a) ==> a.panel < self.layers.len() && a.parent < self.layers.len()
    }

    /// The layer that a finger came down on is there.
    pub open spec fn touch_sound(self, slot: u32) -> bool {
        self.touches.contains_key(slot) ==> self.touches[slot].layer < self.layers.len()
    }

    /// The state with a layer in another state.
    pub open spec fn with_layer(self, i: int, l: LayerView) -> DaemonView {
        DaemonView { layers: self.layers.update(i, l), ..self }
    }

    /// The state with a button in another state.
    pub open spec fn with_button(self, layer: int, button: int, b: ButtonView) -> DaemonView {
        self.with_layer(layer, with_button(self.layers[layer], button, b))
    }

    /// The state with a new configuration, and the layer that it starts with on.
    pub open spec fn reloaded(self, cfg: Config, layers: Seq<LayerView>) -> DaemonView {
        let start = match layer_at(layers, cfg.default_layer@) {
            Some(i) => i as int,
            None => 0,
        };
        DaemonView { cfg, layers, normal: start, active: start, redraw: true, ..self }
    }

    /// The number that shows when the time is to be drawn again.
    pub open spec fn time_stamp(self, second: u32, minute: u32) -> u32 {
        if self.on().faster_refresh {
            second
        } else {
            minute
        }
    }

    /// The state with the slide that is under way brought to the present.
    pub open spec fn slid(self, now: u64) -> DaemonView {
        match self.anim {
            Some(a) => {
                let panel = self.layers[a.panel as int];
                if a.over(now) {
                    let settled = DaemonView {
                        anim: None,
                        redraw: true,
                        ..self.with_layer(
                            a.panel as int,
                            LayerView { overlay_reveal: ONE, ..panel },
                        )
                    };
                    if a.collapsing {
                        DaemonView { normal: a.parent as int, active: a.parent as int, ..settled }
                    } else {
                        settled
                    }
                } else {
                    DaemonView {
                        redraw: true,
                        ..self.with_layer(
                            a.panel as int,
                            LayerView { overlay_reveal: a.revealed(now) as i64, ..panel },
                        )
                    }
                }
            },
            None => self,
        }
    }

    /// The state after a look at everything. `shifted` says whether the picture
    /// was shifted, and `news` whether the notifications have changed.
    pub open spec fn ticked(
        self,
        second: u32,
        minute: u32,
        shifted: bool,
        news: bool,
        now: u64,
        r: SliderReadings,
    ) -> DaemonView {
        let l = self.on();
        let time_moved = l.displays_time && self.time_stamp(second, minute) != self.stamp;
        DaemonView {
            redraw: self.redraw || (self.cfg.enable_pixel_shift && shifted) || time_moved || (
            l.displays_notifications && news),
            stamp: if time_moved {
                self.time_stamp(second, minute)
            } else {
                self.stamp
            },
            ..self.with_layer(self.active, layer_looked_at(l, now, r))
        }.slid(now)
    }

    /// How long to wait for the next look at everything, in milliseconds.
    pub open spec fn timeout(self, second: u32, shift_timeout: i32, now: u64) -> int {
        let l = self.on();
        let t = least((60 - second) * 1000, TIMEOUT_MS as int);
        let t = if self.cfg.enable_pixel_shift {
            least(t, shift_timeout as int)
        } else {
            t
        };
        let t = if l.displays_slider {
            least(t, SLIDER_REFRESH_MS as int)
        } else {
            t
        };
        let t = if l.displays_notifications {
            least(t, NOTIFICATION_REFRESH_MS as int)
        } else {
            t
        };
        let t = if any_hold(l) {
            least(t, HOLD_REFRESH_MS as int)
        } else {
            t
        };
        if self.anim matches Some(a) && !a.over(now) {
            least(t, SLIDE_REFRESH_MS as int)
        } else {
            t
        }
    }

    /// The state after the key for the function keys went down or up.
    pub open spec fn keyed(self, pressed: bool, now: u64) -> DaemonView {
        let swaps = self.cfg.double_press_switch_layers > 0 && self.layers.len() == 2 && pressed;
        let twice = swaps && now - self.fn_press < self.cfg.double_press_switch_layers * 1_000_000;
        let layers = if twice {
            seq![self.layers[1], self.layers[0]]
        } else {
            self.layers
        };
        let next = if pressed {
            match layer_at(layers, "FKeys"@) {
                Some(i) => i as int,
                None => self.normal,
            }
        } else {
            self.normal
        };
        DaemonView {
            layers,
            fn_press: if swaps {
                now
            } else {
                self.fn_press
            },
            active: next,
            redraw: self.redraw || self.active != next,
            ..self
        }
    }

    /// The layer and the place that a finger comes down on.
    pub open spec fn struck(self, x: i64, y: i64, mgr: &NotificationManager) -> Option<(int, int)> {
        struck_at(self.layers, self.active, self.width, self.height, x, y, mgr)
    }

    /// Whether a tap on the volume slider is the second of a double tap.
    pub open spec fn double_tap(self, kind: SliderKind, now: u64) -> bool {
        kind == SliderKind::Volume && match self.tap {
            Some(t) => now - t < DOUBLE_TAP_TIMEOUT,
            None => false,
        }
    }

    /// The state after a finger came down. New fingers do not count while a panel
    /// slides.
    pub open spec fn touched(
        self,
        slot: u32,
        x: i64,
        y: i64,
        now: u64,
        mgr: &NotificationManager,
    ) -> DaemonView {
        if self.anim is Some {
            self
        } else {
            match self.struck(x, y, mgr) {
                Some((layer, place)) => {
                    let noted = DaemonView {
                        touches: self.touches.insert(
                            slot,
                            Touch { layer: layer as usize, button: place as usize, down_at: now },
                        ),
                        ..self
                    };
                    if place >= self.layers[layer].buttons.len() {
                        DaemonView { redraw: true, ..noted }
                    } else {
                        let b = self.layers[layer].buttons[place].1;
                        match b.slider() {
                            Some(s) => if self.double_tap(s.kind, now) {
                                DaemonView {
                                    tap: None,
                                    ..noted.with_button(
                                        layer,
                                        place,
                                        ButtonView {
                                            changed: true,
                                            ..b.with_slider(s.mute_toggled(now))
                                        },
                                    )
                                }
                            } else {
                                DaemonView {
                                    tap: if s.kind == SliderKind::Volume {
                                        Some(now)
                                    } else {
                                        self.tap
                                    },
                                    ..noted.with_button(
                                        layer,
                                        place,
                                        dragged_button(self.layers[layer], self.width, place, x, now),
                                    )
                                }
                            },
                            None => noted.with_button(layer, place, b.with_active(true).held(now)),
                        }
                    }
                },
                None => self,
            }
        }
    }

    /// What a finger that came down asks to be done.
    pub open spec fn touch_effect(
        self,
        x: i64,
        y: i64,
        now: u64,
        mgr: &NotificationManager,
        env: Environment,
    ) -> TouchEffectView {
        if self.anim is Some {
            no_effect()
        } else {
            match self.struck(x, y, mgr) {
                Some((layer, place)) => if place >= self.layers[layer].buttons.len() {
                    no_effect()
                } else {
                    let b = self.layers[layer].buttons[place].1;
                    match b.slider() {
                        Some(s) => TouchEffectView {
                            slider: if self.double_tap(s.kind, now) {
                                s.mute_effect()
                            } else {
                                s.drag_effect(
                                    fraction_at(self.layers[layer], self.width, place, x),
                                    now,
                                )
                            },
                            ..no_effect()
                        },
                        None => TouchEffectView { press: b.press(true, env), ..no_effect() },
                    }
                },
                None => no_effect(),
            }
        }
    }

    /// Whether a finger is still on the place that it came down on.
    pub open spec fn stays_on(self, t: Touch, x: i64, y: i64, mgr: &NotificationManager) -> bool {
        let l = self.layers[t.layer as int];
        hits(l, self.width, self.height, x, y, Some(t.button), notes_for(l, mgr)) is Some
    }

    /// The state after a finger moved: a slider follows it, and another button is
    /// pressed while the finger is on it.
    pub open spec fn moved(
        self,
        slot: u32,
        x: i64,
        y: i64,
        now: u64,
        mgr: &NotificationManager,
    ) -> DaemonView {
        if !self.touches.contains_key(slot) {
            self
        } else {
            let t = self.touches[slot];
            let l = self.layers[t.layer as int];
            if t.button >= l.buttons.len() {
                self
            } else {
                let b = l.buttons[t.button as int].1;
                if b.slider() is Some {
                    DaemonView {
                        tap: None,
                        ..self.with_button(
                            t.layer as int,
                            t.button as int,
                            dragged_button(l, self.width, t.button as int, x, now),
                        )
                    }
                } else if self.stays_on(t, x, y, mgr) {
                    self.with_button(t.layer as int, t.button as int, b.with_active(true))
                } else {
                    self.with_button(t.layer as int, t.button as int, b.with_active(false).unheld())
                }
            }
        }
    }

    /// What a finger that moved asks to be done.
    pub open spec fn move_effect(
        self,
        slot: u32,
        x: i64,
        y: i64,
        now: u64,
        mgr: &NotificationManager,
        env: Environment,
    ) -> TouchEffectView {
        if !self.touches.contains_key(slot) {
            no_effect()
        } else {
            let t = self.touches[slot];
            let l = self.layers[t.layer as int];
            if t.button >= l.buttons.len() {
                no_effect()
            } else {
                let b = l.buttons[t.button as int].1;
                match b.slider() {
                    Some(s) => TouchEffectView {
                        slider: s.drag_effect(fraction_at(l, self.width, t.button as int, x), now),
                        ..no_effect()
                    },
                    None => TouchEffectView {
                        press: b.press(self.stays_on(t, x, y, mgr), env),
                        ..no_effect()
                    },
                }
            }
        }
    }
}

/// A slider button dragged to where a finger is.
pub open spec fn dragged_button(l: LayerView, width: u16, i: int, x: i64, now: u64) -> ButtonView {
    let b = l.buttons[i].1;
    match b.slider() {
        Some(s) => ButtonView {
            changed: true,
            ..b.with_slider(s.dragged(fraction_at(l, width, i, x), now))
        },
        None => b,
    }
}

/// What a finger asks to be done: keys and a command, or something of a slider.
pub struct TouchEffect {
    pub press: Press,
    pub slider: Option<SliderEffect>,
}

/// The mathematical counterpart of [`TouchEffect`].
#[verifier::ext_equal]
pub struct TouchEffectView {
    pub press: PressView,
    pub slider: Option<SliderEffectView>,
}

impl View for TouchEffect {
    type V = TouchEffectView;

    open spec fn view(&self) -> TouchEffectView {
        TouchEffectView { press: self.press@, slider: slider_effect_opt(self.slider) }
    }
}

/// Nothing to be done.
pub open spec fn no_effect() -> TouchEffectView {
    TouchEffectView { press: crate::button::no_press(), slider: None }
}

/// What lifting a finger asks to be done, besides that of [`TouchEffect`]: to
/// run `makoctl` with arguments, to read the notifications again once it is
/// done, and to report that there is no layer of a name.
pub struct LiftEffect {
    pub touch: TouchEffect,
    pub makoctl: Option<Vec<String>>,
    pub reload: bool,
    pub missing_layer: Option<String>,
}

/// The mathematical counterpart of [`LiftEffect`].
#[verifier::ext_equal]
pub struct LiftEffectView {
    pub touch: TouchEffectView,
    pub makoctl: Option<Seq<Seq<char>>>,
    pub reload: bool,
    pub missing_layer: Option<Seq<char>>,
}

impl View for LiftEffect {
    type V = LiftEffectView;

    open spec fn view(&self) -> LiftEffectView {
        LiftEffectView {
            touch: self.touch@,
            makoctl: match self.makoctl {
                Some(args) => Some(texts(args@)),
                None => None,
            },
            reload: self.reload,
            missing_layer: text_opt(self.missing_layer),
        }
    }
}

/// Nothing to be done.
pub open spec fn no_lift() -> LiftEffectView {
    LiftEffectView { touch: no_effect(), makoctl: None, reload: false, missing_layer: None }
}

/// The `makoctl` arguments that carry out an action of the notification on show.
pub open spec fn action_args(mgr: &NotificationManager, action: int) -> Option<Seq<Seq<char>>> {
    match mgr.current() {
        Some(n) => if action < mgr.offered().len() {
            Some(seq!["invoke"@, "-n"@, decimal(n.id as nat), mgr.offered()[action].key])
        } else {
            None
        },
        None => None,
    }
}

/// The `makoctl` arguments for a notification button: a long press of the text
/// dismisses the notification on show, a short one carries out its default
/// action if it offers any.
pub open spec fn notification_args(
    kind: Option<NotificationButton>,
    long: bool,
    mgr: &NotificationManager,
) -> Option<Seq<Seq<char>>> {
    match kind {
        Some(NotificationButton::Text) => match mgr.current() {
            Some(n) => if long {
                Some(seq!["dismiss"@, "-n"@, decimal(n.id as nat)])
            } else if mgr.offered().len() > 0 {
                Some(seq!["invoke"@, "-n"@, decimal(n.id as nat)])
            } else {
                None
            },
            None => None,
        },
        Some(NotificationButton::Dnd) => Some(seq!["mode"@, "-t"@, "do-not-disturb"@]),
        _ => None,
    }
}

/// How a notification button browses: only the position changes.
pub open spec fn browsed(
    kind: Option<NotificationButton>,
    before: &NotificationManager,
    after: &NotificationManager,
) -> bool {
    &&& after.list() == before.list()
    &&& after.dnd() == before.dnd()
    &&& after.read_at() == before.read_at()
    &&& after.position() == match kind {
        Some(NotificationButton::Previous) => if before.position() == 0 {
            0
        } else {
            (before.position() - 1) as nat
        },
        Some(NotificationButton::Next) => if before.position() + 1 < before.list().len() {
            before.position() + 1
        } else {
            before.position()
        },
        _ => before.position(),
    }
}

/// Where the slide of a panel begins: at a button, if it has any width.
pub open spec fn slide_from(l: LayerView, width: u16, button: usize) -> Option<i128> {
    match button_edge(l, width, button, None) {
        Some(x) => Some(x as i128),
        None => None,
    }
}

/// A panel where its slide begins. One that expands does so from a button.
pub open spec fn panel_at_start(d: DaemonView, a: PulloutAnim, t: Touch, now: u64) -> LayerView {
    let panel = d.layers[a.panel as int];
    LayerView {
        overlay_reveal: a.revealed(now) as i64,
        overlay_slide_start_x: if a.collapsing {
            panel.overlay_slide_start_x
        } else {
            slide_from(d.layers[t.layer as int], d.width, t.button)
        },
        ..panel
    }
}

impl DaemonView {
    /// The button that a finger came down on, if it is one.
    pub open spec fn button_under(self, slot: u32) -> Option<ButtonView> {
        if self.touches.contains_key(slot) {
            let t = self.touches[slot];
            let l = self.layers[t.layer as int];
            if t.button < l.buttons.len() {
                Some(l.buttons[t.button as int].1)
            } else {
                None
            }
        } else {
            None
        }
    }

    /// The layer that a finger came down on is there, and so is the one that its
    /// button leads back to.
    pub open spec fn lift_sound(self, slot: u32) -> bool {
        &&& self.touch_sound(slot)
        &&& match self.button_under(slot) {
            Some(b) => b.notification() == Some(NotificationButton::Back) ==> self.back
                < self.layers.len(),
            None => true,
        }
    }

    /// Whether lifting a finger switches the title bar between the music and the
    /// window. It then does nothing else.
    pub open spec fn switches_title(self, slot: u32, music: bool) -> bool {
        match self.button_under(slot) {
            Some(b) => b.image is ActiveWindow && music,
            None => false,
        }
    }

    /// The notification button that lifting a finger sets off.
    pub open spec fn notification_under(self, slot: u32, music: bool) -> Option<NotificationButton> {
        if self.switches_title(slot, music) {
            None
        } else {
            match self.button_under(slot) {
                Some(b) => b.notification(),
                None => None,
            }
        }
    }

    /// The state after a notification button was set off.
    pub open spec fn notified(self, kind: Option<NotificationButton>) -> DaemonView {
        match kind {
            Some(NotificationButton::Back) => DaemonView {
                normal: self.back,
                active: self.back,
                redraw: true,
                ..self
            },
            Some(NotificationButton::Count) => self,
            Some(_) => DaemonView { redraw: true, ..self },
            None => self,
        }
    }

    /// The state after a switch to a layer was set off by a button. One with
    /// notifications leads back to where it was called from.
    pub open spec fn switched(self, t: Touch, target: int, now: u64) -> DaemonView {
        let (active, anim) = switch_of(self.layers, self.active, target, now);
        let layers = match anim {
            Some(a) => self.layers.update(a.panel as int, panel_at_start(self, a, t, now)),
            None => self.layers,
        };
        DaemonView {
            layers,
            back: if self.layers[target].displays_notifications {
                self.normal
            } else {
                self.back
            },
            normal: match anim {
                Some(a) => if a.collapsing {
                    self.normal
                } else {
                    target
                },
                None => target,
            },
            active: active as int,
            anim,
            redraw: true,
            ..self
        }
    }

    /// The state after a switch to a layer of a name was set off.
    pub open spec fn switched_to(self, t: Touch, name: Option<Seq<char>>, now: u64) -> DaemonView {
        match name {
            Some(n) => match layer_at(self.layers, n) {
                Some(target) => self.switched(t, target as int, now),
                None => self,
            },
            None => self,
        }
    }

    /// The state after a button was released.
    pub open spec fn released(self, slot: u32, b: ButtonView) -> DaemonView {
        let t = self.touches[slot];
        DaemonView { touches: self.touches.remove(slot), ..self }.with_button(
            t.layer as int,
            t.button as int,
            b.with_active(false).unheld(),
        )
    }

    /// The state after a finger was lifted. `music` says whether music plays.
    pub open spec fn lifted(self, slot: u32, now: u64, music: bool) -> DaemonView {
        if !self.touches.contains_key(slot) {
            self
        } else {
            let t = self.touches[slot];
            let gone = DaemonView { touches: self.touches.remove(slot), ..self };
            match self.button_under(slot) {
                None => DaemonView { redraw: true, ..gone },
                Some(b) => match b.slider() {
                    Some(s) => gone.with_button(
                        t.layer as int,
                        t.button as int,
                        b.with_slider(s.committed(now)),
                    ),
                    None => if self.switches_title(slot, music) {
                        DaemonView { redraw: true, ..self.released(slot, b) }
                    } else {
                        self.released(slot, b).notified(b.notification()).switched_to(
                            t,
                            b.target(),
                            now,
                        )
                    },
                },
            }
        }
    }

    /// What lifting a finger asks to be done.
    pub open spec fn lift_effect(
        self,
        slot: u32,
        now: u64,
        music: bool,
        mgr: &NotificationManager,
        env: Environment,
    ) -> LiftEffectView {
        if !self.touches.contains_key(slot) {
            no_lift()
        } else {
            let t = self.touches[slot];
            match self.button_under(slot) {
                None => LiftEffectView {
                    makoctl: action_args(
                        mgr,
                        t.button - self.layers[t.layer as int].buttons.len(),
                    ),
                    ..no_lift()
                },
                Some(b) => match b.slider() {
                    Some(s) => LiftEffectView {
                        touch: TouchEffectView { slider: s.commit_effect(), ..no_effect() },
                        ..no_lift()
                    },
                    None => {
                        let touch = TouchEffectView { press: b.press(false, env), ..no_effect() };
                        if self.switches_title(slot, music) {
                            LiftEffectView { touch, ..no_lift() }
                        } else {
                            let long = now - t.down_at >= LONG_PRESS_TIMEOUT;
                            let args = notification_args(b.notification(), long, mgr);
                            LiftEffectView {
                                touch,
                                makoctl: args,
                                reload: args is Some && (b.notification() == Some(
                                    NotificationButton::Dnd,
                                ) || long),
                                missing_layer: match b.target() {
                                    Some(n) => if layer_at(
                                        self.released(slot, b).layers,
                                        n,
                                    ) is None {
                                        Some(n)
                                    } else {
                                        None
                                    },
                                    None => None,
                                },
                            }
                        }
                    },
                },
            }
        }
    }
}

/// A button that is valid stays so in every state that the daemon brings it to,
/// and a valid layer stays so with such a button.
pub(crate) proof fn lemma_with_button(l: LayerView, i: int, b: ButtonView)
    requires
        l.wf(),
        0 <= i < l.buttons.len(),
        b.wf(),
    ensures
        with_button(l, i, b).wf(),
{
    let next = with_button(l, i, b);
    assert forall|k: int| 0 <= k < next.buttons.len() implies 0 <= (#[trigger] next.buttons[k]).0
        <= next.virtual_button_count && next.buttons[k].1.wf() by {
        assert(l.buttons[k].1.wf());
    }
    assert forall|k: int, j: int| 0 <= k <= j < next.buttons.len() implies (
    #[trigger] next.buttons[k]).0 <= (#[trigger] next.buttons[j]).0 by {
        assert(l.buttons[k].0 <= l.buttons[j].0);
    }
}

impl Button {
    /// Reads the button's slider, where sliders are on show, and has the button
    /// drawn again where it is due.
    pub(crate) fn look(&mut self, sliders: bool, due: bool, now: u64, r: &SliderReadings)
        requires
            old(self)@.wf(),
        ensures
            final(self)@.wf(),
            final(self)@ == refreshed_button(old(self)@, sliders, due, now, *r),
    {
        if sliders {
            match self.slider_kind() {
                Some(kind) => {
                    let reading = match kind {
                        SliderKind::DisplayBrightness => Reading::Brightness(r.display),
                        SliderKind::KeyboardBacklight => Reading::Brightness(r.keyboard),
                        SliderKind::Volume => Reading::Volume(r.volume),
                    };
                    self.slider_refresh(now, reading);
                },
                None => {},
            }
        }
        if due {
            self.changed = true;
        }
    }
}

impl FunctionLayer {
    /// Presses or releases a button.
    pub(crate) fn press_button(&mut self, i: usize, active: bool, env: &Environment) -> (r: Press)
        requires
            i < old(self).buttons@.len(),
            old(self)@.wf(),
        ensures
            final(self)@ == with_button(
                old(self)@,
                i as int,
                old(self)@.buttons[i as int].1.with_active(active),
            ),
            final(self)@.wf(),
            r@ == old(self)@.buttons[i as int].1.press(active, *env),
    {
        let ghost l = self@;
        let ghost b = l.buttons[i as int].1;
        assert(b == self.buttons@[i as int].1@);
        let r = self.buttons[i].1.set_active(active, env);
        proof {
            assert(b.wf());
            lemma_with_button(l, i as int, b.with_active(active));
            assert(self@.buttons =~= l.buttons.update(
                i as int,
                (l.buttons[i as int].0, b.with_active(active)),
            ));
        }
        r
    }

    /// Notes that a finger rests on a button, or that none does.
    fn hold_button(&mut self, i: usize, started: Option<u64>)
        requires
            i < old(self).buttons@.len(),
            old(self)@.wf(),
        ensures
            final(self)@ == with_button(
                old(self)@,
                i as int,
                match started {
                    Some(now) => old(self)@.buttons[i as int].1.held(now),
                    None => old(self)@.buttons[i as int].1.unheld(),
                },
            ),
            final(self)@.wf(),
    {
        let ghost l = self@;
        let ghost b = l.buttons[i as int].1;
        assert(b == self.buttons@[i as int].1@);
        match started {
            Some(now) => {
                self.buttons[i].1.start_hold(now);
            },
            None => {
                self.buttons[i].1.clear_hold();
            },
        }
        proof {
            assert(b.wf());
            let next = match started {
                Some(now) => b.held(now),
                None => b.unheld(),
            };
            lemma_with_button(l, i as int, next);
            assert(self@.buttons =~= l.buttons.update(i as int, (l.buttons[i as int].0, next)));
        }
    }

    /// Drags a slider button to where a finger is.
    pub(crate) fn drag_button(&mut self, i: usize, width: u16, x: i64, now: u64) -> (r: Option<SliderEffect>)
        requires
            i < old(self).buttons@.len(),
            old(self)@.wf(),
        ensures
            final(self)@ == with_button(
                old(self)@,
                i as int,
                dragged_button(old(self)@, width, i as int, x, now),
            ),
            final(self)@.wf(),
            slider_effect_opt(r) == match old(self)@.buttons[i as int].1.slider() {
                Some(s) => s.drag_effect(fraction_at(old(self)@, width, i as int, x), now),
                None => None,
            },
    {
        let ghost l = self@;
        let ghost b = l.buttons[i as int].1;
        assert(b == self.buttons@[i as int].1@);
        assert(b.wf());
        let f = self.slider_fraction(width, i, x);
        let r = self.buttons[i].1.set_slider_fraction(f, now);
        proof {
            let next = dragged_button(l, width, i as int, x, now);
            assert(next == self.buttons@[i as int].1@);
            lemma_with_button(l, i as int, next);
            assert(self@.buttons =~= l.buttons.update(i as int, (l.buttons[i as int].0, next)));
        }
        r
    }

    /// Mutes or unmutes a slider button.
    fn mute_button(&mut self, i: usize, now: u64) -> (r: Option<SliderEffect>)
        requires
            i < old(self).buttons@.len(),
            old(self)@.wf(),
            old(self)@.buttons[i as int].1.slider() is Some,
        ensures
            ({
                let b = old(self)@.buttons[i as int].1;
                let s = b.slider()->0;
                &&& final(self)@ == with_button(
                    old(self)@,
                    i as int,
                    ButtonView { changed: true, ..b.with_slider(s.mute_toggled(now)) },
                )
                &&& slider_effect_opt(r) == s.mute_effect()
            }),
            final(self)@.wf(),
    {
        let ghost l = self@;
        let ghost b = l.buttons[i as int].1;
        assert(b == self.buttons@[i as int].1@);
        assert(b.wf());
        let r = self.buttons[i].1.slider_toggle_mute(now);
        proof {
            let next = self.buttons@[i as int].1@;
            lemma_with_button(l, i as int, next);
            assert(self@.buttons =~= l.buttons.update(i as int, (l.buttons[i as int].0, next)));
        }
        r
    }

    /// Ends the drag of a slider button.
    pub(crate) fn commit_button(&mut self, i: usize, now: u64) -> (r: Option<SliderEffect>)
        requires
            i < old(self).buttons@.len(),
            old(self)@.wf(),
            old(self)@.buttons[i as int].1.slider() is Some,
        ensures
            ({
                let b = old(self)@.buttons[i as int].1;
                let s = b.slider()->0;
                &&& final(self)@ == with_button(
                    old(self)@,
                    i as int,
                    b.with_slider(s.committed(now)),
                )
                &&& slider_effect_opt(r) == s.commit_effect()
            }),
            final(self)@.wf(),
    {
        let ghost l = self@;
        let ghost b = l.buttons[i as int].1;
        assert(b == self.buttons@[i as int].1@);
        assert(b.wf());
        let r = self.buttons[i].1.slider_commit(now);
        proof {
            let next = self.buttons@[i as int].1@;
            lemma_with_button(l, i as int, next);
            assert(self@.buttons =~= l.buttons.update(i as int, (l.buttons[i as int].0, next)));
        }
        r
    }

    /// Whether a button is to be drawn again.
    pub fn any_button_changed(&self) -> (r: bool)
        ensures
            r == any_changed(self@),
    {
        let n = self.buttons.len();
        let mut i: usize = 0;
        while i < n
            invariant
                i <= n,
                n == self.buttons@.len(),
                forall|k: int| 0 <= k < i ==> !(#[trigger] self@.buttons[k]).1.changed,
            decreases n - i,
        {
            assert(self@.buttons[i as int].1 == self.buttons@[i as int].1@);
            if self.buttons[i].1.changed {
                return true;
            }
            i += 1;
        }
        false
    }

    /// Whether a finger rests on a button.
    pub fn any_button_held(&self) -> (r: bool)
        ensures
            r == any_hold(self@),
    {
        let n = self.buttons.len();
        let mut i: usize = 0;
        while i < n
            invariant
                i <= n,
                n == self.buttons@.len(),
                forall|k: int| 0 <= k < i ==> (#[trigger] self@.buttons[k]).1.hold_started is None,
            decreases n - i,
        {
            assert(self@.buttons[i as int].1 == self.buttons@[i as int].1@);
            if self.buttons[i].1.hold_started.is_some() {
                return true;
            }
            i += 1;
        }
        false
    }

    /// Looks at what a button shows.
    fn look_at_button(&mut self, i: usize, now: u64, r: &SliderReadings)
        requires
            i < old(self).buttons@.len(),
            old(self)@.buttons[i as int].1.wf(),
        ensures
            final(self).buttons@.len() == old(self).buttons@.len(),
            final(self)@ == with_button(
                old(self)@,
                i as int,
                looked_at(old(self)@, old(self)@.buttons[i as int].1, now, *r),
            ),
            final(self)@.buttons[i as int].1.wf(),
    {
        let ghost l = self@;
        let ghost b = l.buttons[i as int].1;
        assert(b == self.buttons@[i as int].1@);
        let due = self.is_due(i);
        let sliders = self.displays_slider;
        self.buttons[i].1.look(sliders, due, now, r);
        proof {
            let next = looked_at(l, b, now, *r);
            assert(self@.buttons =~= l.buttons.update(i as int, (l.buttons[i as int].0, next)));
        }
    }

    /// Looks at everything that the layer's buttons show.
    fn look(&mut self, now: u64, r: &SliderReadings)
        requires
            old(self)@.wf(),
        ensures
            final(self)@ == layer_looked_at(old(self)@, now, *r),
            final(self)@.wf(),
    {
        let ghost l = self@;
        let n = self.buttons.len();
        let mut i: usize = 0;
        while i < n
            invariant
                i <= n,
                n == self.buttons@.len(),
                n == l.buttons.len(),
                l.wf(),
                self@ == (LayerView { buttons: self@.buttons, ..l }),
                forall|k: int|
                    0 <= k < i ==> (#[trigger] self@.buttons[k]) == (
                        l.buttons[k].0,
                        looked_at(l, l.buttons[k].1, now, *r),
                    ) && self@.buttons[k].1.wf(),
                forall|k: int| i <= k < n ==> (#[trigger] self@.buttons[k]) == l.buttons[k],
            decreases n - i,
        {
            let ghost before = self@;
            assert(self@.buttons[i as int] == l.buttons[i as int]);
            assert(l.buttons[i as int].1.wf());
            self.look_at_button(i, now, r);
            assert(looked_at(before, l.buttons[i as int].1, now, *r) == looked_at(
                l,
                l.buttons[i as int].1,
                now,
                *r,
            ));
            i += 1;
        }
        proof {
            let next = self@;
            assert(next.buttons =~= layer_looked_at(l, now, *r).buttons);
            assert forall|k: int, j: int| 0 <= k <= j < next.buttons.len() implies (
            #[trigger] next.buttons[k]).0 <= (#[trigger] next.buttons[j]).0 by {
                assert(l.buttons[k].0 <= l.buttons[j].0);
            }
            assert forall|k: int| 0 <= k < next.buttons.len() implies 0 <= (
            #[trigger] next.buttons[k]).0 <= next.virtual_button_count && next.buttons[k].1.wf() by {
                assert(l.buttons[k].1.wf());
            }
        }
    }

    /// Whether a button shows something that may have changed.
    fn is_due(&self, i: usize) -> (r: bool)
        requires
            i < self.buttons@.len(),
        ensures
            r == may_have_changed(self@, self@.buttons[i as int].1),
    {
        let b = &self.buttons[i].1;
        assert(self@.buttons[i as int].1 == b@);
        if b.hold_started.is_some() {
            return true;
        }
        match &b.image {
            ButtonImage::Battery(_, _, _, _) => self.displays_battery,
            ButtonImage::CpuUsage(_, _) => self.displays_sysinfo,
            ButtonImage::MemoryUsage(_, _) => self.displays_sysinfo,
            ButtonImage::ActiveWindow(_, _) => self.displays_sysinfo,
            ButtonImage::ActiveWorkspace(_, _) => self.displays_sysinfo,
            ButtonImage::WeatherCurrent(_, _) => self.displays_weather,
            ButtonImage::WeatherForecast(_, _, _) => self.displays_weather,
            _ => false,
        }
    }
}

/// A state stays sound with a valid layer in place of another.
proof fn lemma_sound(d: DaemonView, i: int, l: LayerView)
    requires
        d.sound(),
        0 <= i < d.layers.len(),
        l.wf(),
    ensures
        d.with_layer(i, l).sound(),
{
    let next = d.with_layer(i, l);
    assert forall|k: int| 0 <= k < next.layers.len() implies (#[trigger] next.layers[k]).wf() by {
        assert(d.layers[k].wf());
    }
}

/// The smaller of two times in milliseconds.
fn sooner(a: i32, b: i32) -> (r: i32)
    ensures
        r == least(a as int, b as int),
{
    if b < a {
        b
    } else {
        a
    }
}

/// The layer that a configuration starts with.
fn start_index(cfg: &Config, layers: &Vec<FunctionLayer>) -> (r: usize)
    requires
        layers@.len() > 0,
    ensures
        r < layers@.len(),
        r == match layer_at(layers_of(layers@), cfg.default_layer@) {
            Some(i) => i as int,
            None => 0,
        },
{
    match layer_index(layers.as_slice(), cfg.default_layer.as_str()) {
        Some(i) => i,
        None => 0,
    }
}

/// The layers are valid.
pub open spec fn layers_sound(layers: Seq<LayerView>) -> bool {
    layers.len() > 0 && forall|i: int| 0 <= i < layers.len() ==> (#[trigger] layers[i]).wf()
}

/// What a finger hits of a layer.
fn hit_on(
    l: &FunctionLayer,
    width: u16,
    height: u16,
    x: i64,
    y: i64,
    slot: Option<usize>,
    mgr: &NotificationManager,
) -> (r: Option<usize>)
    requires
        l@.wf(),
    ensures
        match r {
            Some(b) => hits(l@, width, height, x, y, slot, notes_for(l@, mgr)) == Some(b as int),
            None => hits(l@, width, height, x, y, slot, notes_for(l@, mgr)) is None,
        },
{
    let notes = if l.displays_notifications {
        Some(mgr)
    } else {
        None
    };
    l.hit(width, height, x, y, slot, notes)
}

/// Finds the layer and the place that a finger comes down on.
pub(crate) fn strike(
    layers: &[FunctionLayer],
    active: usize,
    width: u16,
    height: u16,
    x: i64,
    y: i64,
    mgr: &NotificationManager,
) -> (r: Option<(usize, usize)>)
    requires
        active < layers@.len(),
        layers_sound(layers_of(layers@)),
    ensures
        match r {
            Some(p) => struck_at(
                layers_of(layers@),
                active as int,
                width,
                height,
                x,
                y,
                mgr,
            ) == Some((p.0 as int, p.1 as int)) && p.0 < layers@.len(),
            None => struck_at(
                layers_of(layers@),
                active as int,
                width,
                height,
                x,
                y,
                mgr,
            ) is None,
        },
{
    let ghost all = layers_of(layers@);
    assert(all[active as int] == layers@[active as int]@);
    assert(all[active as int].wf());
    match hit_on(&layers[active], width, height, x, y, None, mgr) {
        Some(b) => Some((active, b)),
        None => match parent_index(layers, active) {
            Some(p) => {
                assert(all[p as int] == layers@[p as int]@);
                assert(all[p as int].wf());
                match hit_on(&layers[p], width, height, x, y, None, mgr) {
                    Some(b) => Some((p, b)),
                    None => None,
                }
            },
            None => None,
        },
    }
}

impl Daemon {
    /// Starts with the layer that the configuration names, or the first one, to
    /// be drawn as a whole.
    pub fn new(
        cfg: Config,
        layers: Vec<FunctionLayer>,
        width: u16,
        height: u16,
        second: u32,
        minute: u32,
        now: u64,
    ) -> (r: Daemon)
        requires
            layers_sound(layers_of(layers@)),
        ensures
            r@.sound(),
            r@.slide_sound(),
            ({
                let start = match layer_at(layers_of(layers@), cfg.default_layer@) {
                    Some(i) => i as int,
                    None => 0,
                };
                r@ == DaemonView {
                    layers: layers_of(layers@),
                    cfg,
                    width,
                    height,
                    normal: start,
                    back: start,
                    active: start,
                    redraw: true,
                    touches: Map::empty(),
                    tap: None,
                    anim: None,
                    stamp: if layers_of(layers@)[start].faster_refresh {
                        second
                    } else {
                        minute
                    },
                    fn_press: now,
                }
            }),
    {
        let start = start_index(&cfg, &layers);
        let stamp: u32 = if layers[start].faster_refresh {
            second
        } else {
            minute
        };
        let d = Daemon {
            layers,
            cfg,
            width,
            height,
            normal_layer: start,
            notification_return_layer: start,
            active_layer: start,
            needs_complete_redraw: true,
            touches: HashMap::new(),
            last_volume_tap: None,
            pullout_anim: None,
            last_redraw_ts: stamp,
            last_fn_press: now,
        };
        assert(d@.touches =~= Map::empty());
        d
    }

    /// Takes over a new configuration.
    pub fn reload(&mut self, cfg: Config, layers: Vec<FunctionLayer>)
        requires
            layers_sound(layers_of(layers@)),
        ensures
            final(self)@.sound(),
            final(self)@ == old(self)@.reloaded(cfg, layers_of(layers@)),
    {
        let start = start_index(&cfg, &layers);
        self.cfg = cfg;
        self.layers = layers;
        self.normal_layer = start;
        self.active_layer = start;
        self.needs_complete_redraw = true;
    }

    /// Whether the slide that is under way is one of layers that are there. It
    /// need not be after a new configuration was taken over.
    pub fn can_slide(&self) -> (r: bool)
        ensures
            r == self@.slide_sound(),
    {
        match self.pullout_anim {
            Some(a) => a.panel < self.layers.len() && a.parent < self.layers.len(),
            None => true,
        }
    }

    /// Whether the layer on show has notifications, so that their listing is to
    /// be read when it is due.
    pub fn shows_notifications(&self) -> (r: bool)
        requires
            self@.sound(),
        ensures
            r == self@.on().displays_notifications,
    {
        self.layers[self.active_layer].displays_notifications
    }

    /// Whether the layer on show has sliders, so that what they show is to be read.
    pub fn shows_sliders(&self) -> (r: bool)
        requires
            self@.sound(),
        ensures
            r == self@.on().displays_slider,
    {
        self.layers[self.active_layer].displays_slider
    }

    /// Brings the slide that is under way to the present. Tells whether it goes on.
    fn slide(&mut self, now: u64) -> (r: bool)
        requires
            old(self)@.sound(),
            old(self)@.slide_sound(),
        ensures
            final(self)@ == old(self)@.slid(now),
            final(self)@.sound(),
            final(self)@.slide_sound(),
            r == (old(self)@.anim matches Some(a) && !a.over(now)),
    {
        let ghost d = self@;
        match self.pullout_anim {
            Some(a) => {
                let done = a.done(now);
                let reveal: i64 = if done {
                    ONE
                } else {
                    a.reveal_at(now)
                };
                self.layers[a.panel].overlay_reveal = reveal;
                proof {
                    let next = LayerView { overlay_reveal: reveal, ..d.layers[a.panel as int] };
                    assert(self.layers@[a.panel as int]@ == next);
                    assert(layers_of(self.layers@) =~= d.layers.update(a.panel as int, next));
                    assert(d.layers[a.panel as int].wf());
                    lemma_sound(d, a.panel as int, next);
                }
                self.needs_complete_redraw = true;
                if done {
                    if a.collapsing {
                        self.normal_layer = a.parent;
                        self.active_layer = a.parent;
                    }
                    self.pullout_anim = None;
                }
                !done
            },
            None => false,
        }
    }

    /// Looks at everything that goes on by itself: the time, the shift of the
    /// picture, what the buttons of the layer on show display, and a slide. `news`
    /// says whether the notifications have changed since they were drawn. Tells
    /// how long to wait for the next look, in milliseconds.
    pub fn tick(
        &mut self,
        second: u32,
        minute: u32,
        shift: (bool, i32),
        news: bool,
        now: u64,
        r: &SliderReadings,
    ) -> (t: i32)
        requires
            old(self)@.sound(),
            old(self)@.slide_sound(),
            second < 60,
        ensures
            t == old(self)@.timeout(second, shift.1, now),
            final(self)@ == old(self)@.ticked(second, minute, shift.0, news, now, *r),
            final(self)@.sound(),
            final(self)@.slide_sound(),
    {
        let ghost d = self@;
        let a = self.active_layer;
        assert(d.layers[a as int] == self.layers@[a as int]@);
        let mut t = sooner((60 - second) as i32 * 1000, TIMEOUT_MS);
        if self.cfg.enable_pixel_shift {
            if shift.0 {
                self.needs_complete_redraw = true;
            }
            t = sooner(t, shift.1);
        }
        let stamp: u32 = if self.layers[a].faster_refresh {
            second
        } else {
            minute
        };
        if self.layers[a].displays_time && stamp != self.last_redraw_ts {
            self.needs_complete_redraw = true;
            self.last_redraw_ts = stamp;
        }
        if self.layers[a].displays_slider {
            t = sooner(t, SLIDER_REFRESH_MS);
        }
        if self.layers[a].displays_notifications {
            if news {
                self.needs_complete_redraw = true;
            }
            t = sooner(t, NOTIFICATION_REFRESH_MS);
        }
        if self.layers[a].any_button_held() {
            t = sooner(t, HOLD_REFRESH_MS);
        }
        assert(d.layers[a as int].wf());
        self.layers[a].look(now, r);
        proof {
            let next = layer_looked_at(d.on(), now, *r);
            assert(layers_of(self.layers@) =~= d.layers.update(a as int, next));
            lemma_sound(d, a as int, next);
        }
        if self.slide(now) {
            t = sooner(t, SLIDE_REFRESH_MS);
        }
        t
    }

    /// Takes note of a key. Only the key for the function keys matters: while it
    /// is down they are on, and pressed twice in a short time it swaps two layers.
    pub fn key_event(&mut self, code: u32, pressed: bool, now: u64)
        requires
            old(self)@.sound(),
        ensures
            final(self)@ == if code == KEY_FN {
                old(self)@.keyed(pressed, now)
            } else {
                old(self)@
            },
            code != 464 ==> final(self)@ == old(self)@,
            code == 464 && !pressed ==> final(self)@.active == old(self)@.normal,
            final(self)@.sound(),
            old(self)@.slide_sound() ==> final(self)@.slide_sound(),
    {
        let ghost d = self@;
        if code != KEY_FN {
            return;
        }
        if self.cfg.double_press_switch_layers > 0 && self.layers.len() == 2 && pressed {
            let limit: u64 = self.cfg.double_press_switch_layers as u64 * 1_000_000;
            if now.saturating_sub(self.last_fn_press) < limit {
                let ghost v = self.layers@;
                let second = self.layers.pop();
                match second {
                    Some(l) => {
                        self.layers.insert(0, l);
                    },
                    None => {},
                }
                proof {
                    assert(layers_of(self.layers@) =~= seq![d.layers[1], d.layers[0]]);
                    assert(d.layers[0].wf() && d.layers[1].wf());
                }
            }
            self.last_fn_press = now;
        }
        proof {
            layer_at_is_first(self@.layers, "FKeys"@);
        }
        let next: usize = if pressed {
            match layer_index(self.layers.as_slice(), "FKeys") {
                Some(i) => i,
                None => self.normal_layer,
            }
        } else {
            self.normal_layer
        };
        if self.active_layer != next {
            self.active_layer = next;
            self.needs_complete_redraw = true;
        }
    }

    /// Whether the layer that a finger came down on is there. It need not be after
    /// a new configuration was taken over.
    pub fn can_move(&self, slot: u32) -> (r: bool)
        ensures
            r == self@.touch_sound(slot),
    {
        match self.touches.get(&slot) {
            Some(t) => t.layer < self.layers.len(),
            None => true,
        }
    }

    /// Whether the layer that a finger came down on is there, and the one that its
    /// button leads back to. They need not be after a new configuration was taken
    /// over.
    pub fn can_lift(&self, slot: u32) -> (r: bool)
        ensures
            r == self@.lift_sound(slot),
    {
        match self.touches.get(&slot) {
            Some(t) => {
                if t.layer >= self.layers.len() {
                    return false;
                }
                let l = &self.layers[t.layer];
                assert(l@ == self@.layers[t.layer as int]);
                if t.button < l.buttons.len() {
                    assert(l@.buttons[t.button as int].1 == l.buttons@[t.button as int].1@);
                    match l.buttons[t.button].1.notification_kind() {
                        Some(kind) => kind != NotificationButton::Back
                            || self.notification_return_layer < self.layers.len(),
                        None => true,
                    }
                } else {
                    true
                }
            },
            None => true,
        }
    }

    /// Presses or releases a button of a layer.
    fn press_on(&mut self, t: Touch, active: bool, env: &Environment) -> (r: Press)
        requires
            old(self)@.sound(),
            t.layer < old(self).layers@.len(),
            t.button < old(self).layers@[t.layer as int].buttons@.len(),
        ensures
            ({
                let b = old(self)@.layers[t.layer as int].buttons[t.button as int].1;
                &&& final(self)@ == old(self)@.with_button(
                    t.layer as int,
                    t.button as int,
                    b.with_active(active),
                )
                &&& r@ == b.press(active, *env)
            }),
            final(self)@.sound(),
            final(self).layers@[t.layer as int].buttons@.len() == old(self).layers@[t.layer as int].buttons@.len(),
    {
        let ghost d = self@;
        assert(d.layers[t.layer as int] == self.layers@[t.layer as int]@);
        assert(d.layers[t.layer as int].wf());
        let r = self.layers[t.layer].press_button(t.button, active, env);
        proof {
            let next = self.layers@[t.layer as int]@;
            assert(next.buttons.len() == d.layers[t.layer as int].buttons.len());
            assert(layers_of(self.layers@) =~= d.layers.update(t.layer as int, next));
            lemma_sound(d, t.layer as int, next);
        }
        r
    }

    /// Notes that a finger rests on a button of a layer, or that none does.
    fn hold_on(&mut self, t: Touch, started: Option<u64>)
        requires
            old(self)@.sound(),
            t.layer < old(self).layers@.len(),
            t.button < old(self).layers@[t.layer as int].buttons@.len(),
        ensures
            ({
                let b = old(self)@.layers[t.layer as int].buttons[t.button as int].1;
                final(self)@ == old(self)@.with_button(
                    t.layer as int,
                    t.button as int,
                    match started {
                        Some(now) => b.held(now),
                        None => b.unheld(),
                    },
                )
            }),
            final(self)@.sound(),
    {
        let ghost d = self@;
        assert(d.layers[t.layer as int] == self.layers@[t.layer as int]@);
        assert(d.layers[t.layer as int].wf());
        self.layers[t.layer].hold_button(t.button, started);
        proof {
            let next = self.layers@[t.layer as int]@;
            assert(layers_of(self.layers@) =~= d.layers.update(t.layer as int, next));
            lemma_sound(d, t.layer as int, next);
        }
    }

    /// Drags a slider to where a finger is.
    fn drag_on(&mut self, t: Touch, x: i64, now: u64) -> (r: Option<SliderEffect>)
        requires
            old(self)@.sound(),
            t.layer < old(self).layers@.len(),
            t.button < old(self).layers@[t.layer as int].buttons@.len(),
        ensures
            ({
                let l = old(self)@.layers[t.layer as int];
                &&& final(self)@ == old(self)@.with_button(
                    t.layer as int,
                    t.button as int,
                    dragged_button(l, old(self).width, t.button as int, x, now),
                )
                &&& slider_effect_opt(r) == match l.buttons[t.button as int].1.slider() {
                    Some(s) => s.drag_effect(
                        fraction_at(l, old(self).width, t.button as int, x),
                        now,
                    ),
                    None => None,
                }
            }),
            final(self)@.sound(),
    {
        let ghost d = self@;
        assert(d.layers[t.layer as int] == self.layers@[t.layer as int]@);
        assert(d.layers[t.layer as int].wf());
        let width = self.width;
        let r = self.layers[t.layer].drag_button(t.button, width, x, now);
        proof {
            let next = self.layers@[t.layer as int]@;
            assert(layers_of(self.layers@) =~= d.layers.update(t.layer as int, next));
            lemma_sound(d, t.layer as int, next);
        }
        r
    }

    /// Mutes or unmutes a slider.
    fn mute_on(&mut self, t: Touch, now: u64) -> (r: Option<SliderEffect>)
        requires
            old(self)@.sound(),
            t.layer < old(self).layers@.len(),
            t.button < old(self).layers@[t.layer as int].buttons@.len(),
            old(self)@.layers[t.layer as int].buttons[t.button as int].1.slider() is Some,
        ensures
            ({
                let b = old(self)@.layers[t.layer as int].buttons[t.button as int].1;
                let s = b.slider()->0;
                &&& final(self)@ == old(self)@.with_button(
                    t.layer as int,
                    t.button as int,
                    ButtonView { changed: true, ..b.with_slider(s.mute_toggled(now)) },
                )
                &&& slider_effect_opt(r) == s.mute_effect()
            }),
            final(self)@.sound(),
    {
        let ghost d = self@;
        assert(d.layers[t.layer as int] == self.layers@[t.layer as int]@);
        assert(d.layers[t.layer as int].wf());
        let r = self.layers[t.layer].mute_button(t.button, now);
        proof {
            let next = self.layers@[t.layer as int]@;
            assert(layers_of(self.layers@) =~= d.layers.update(t.layer as int, next));
            lemma_sound(d, t.layer as int, next);
        }
        r
    }

    /// Ends the drag of a slider.
    fn commit_on(&mut self, t: Touch, now: u64) -> (r: Option<SliderEffect>)
        requires
            old(self)@.sound(),
            t.layer < old(self).layers@.len(),
            t.button < old(self).layers@[t.layer as int].buttons@.len(),
            old(self)@.layers[t.layer as int].buttons[t.button as int].1.slider() is Some,
        ensures
            ({
                let b = old(self)@.layers[t.layer as int].buttons[t.button as int].1;
                let s = b.slider()->0;
                &&& final(self)@ == old(self)@.with_button(
                    t.layer as int,
                    t.button as int,
                    b.with_slider(s.committed(now)),
                )
                &&& slider_effect_opt(r) == s.commit_effect()
            }),
            final(self)@.sound(),
    {
        let ghost d = self@;
        assert(d.layers[t.layer as int] == self.layers@[t.layer as int]@);
        assert(d.layers[t.layer as int].wf());
        let r = self.layers[t.layer].commit_button(t.button, now);
        proof {
            let next = self.layers@[t.layer as int]@;
            assert(layers_of(self.layers@) =~= d.layers.update(t.layer as int, next));
            lemma_sound(d, t.layer as int, next);
        }
        r
    }

    /// Takes note of a finger that came down. What comes back is to be done.
    pub fn touch_down(
        &mut self,
        slot: u32,
        x: i64,
        y: i64,
        now: u64,
        mgr: &NotificationManager,
        env: &Environment,
    ) -> (r: TouchEffect)
        requires
            old(self)@.sound(),
        ensures
            final(self)@ == old(self)@.touched(slot, x, y, now, mgr),
            final(self)@.sound(),
            old(self)@.slide_sound() ==> final(self)@.slide_sound(),
            r@ == old(self)@.touch_effect(x, y, now, mgr, *env),
    {
        let ghost d = self@;
        if self.pullout_anim.is_some() {
            return TouchEffect { press: Press::none(), slider: None };
        }
        let (layer, place) = match strike(
            self.layers.as_slice(),
            self.active_layer,
            self.width,
            self.height,
            x,
            y,
            mgr,
        ) {
            Some(p) => p,
            None => {
                return TouchEffect { press: Press::none(), slider: None };
            },
        };
        let t = Touch { layer, button: place, down_at: now };
        self.touches.insert(slot, t);
        assert(d.layers[layer as int] == self.layers@[layer as int]@);
        if place >= self.layers[layer].buttons.len() {
            self.needs_complete_redraw = true;
            return TouchEffect { press: Press::none(), slider: None };
        }
        assert(self@.layers[layer as int].buttons[place as int].1
            == self.layers@[layer as int].buttons@[place as int].1@);
        match self.layers[layer].buttons[place].1.slider_kind() {
            Some(kind) => {
                if kind == SliderKind::Volume {
                    let again = match self.last_volume_tap {
                        Some(tap) => now.saturating_sub(tap) < DOUBLE_TAP_TIMEOUT,
                        None => false,
                    };
                    if again {
                        let effect = self.mute_on(t, now);
                        self.last_volume_tap = None;
                        return TouchEffect { press: Press::none(), slider: effect };
                    }
                    self.last_volume_tap = Some(now);
                }
                let effect = self.drag_on(t, x, now);
                TouchEffect { press: Press::none(), slider: effect }
            },
            None => {
                let press = self.press_on(t, true, env);
                self.hold_on(t, Some(now));
                proof {
                    lemma_twice(
                        d.layers,
                        layer as int,
                        place as int,
                        d.layers[layer as int].buttons[place as int].1.with_active(true),
                    );
                }
                TouchEffect { press, slider: None }
            },
        }
    }

    /// Takes note of a finger that moved. What comes back is to be done.
    pub fn touch_motion(
        &mut self,
        slot: u32,
        x: i64,
        y: i64,
        now: u64,
        mgr: &NotificationManager,
        env: &Environment,
    ) -> (r: TouchEffect)
        requires
            old(self)@.sound(),
            old(self)@.touch_sound(slot),
        ensures
            final(self)@ == old(self)@.moved(slot, x, y, now, mgr),
            final(self)@.sound(),
            old(self)@.slide_sound() ==> final(self)@.slide_sound(),
            r@ == old(self)@.move_effect(slot, x, y, now, mgr, *env),
    {
        let ghost d = self@;
        let t = match self.touches.get(&slot) {
            Some(t) => *t,
            None => {
                return TouchEffect { press: Press::none(), slider: None };
            },
        };
        assert(d.layers[t.layer as int] == self.layers@[t.layer as int]@);
        if t.button >= self.layers[t.layer].buttons.len() {
            return TouchEffect { press: Press::none(), slider: None };
        }
        assert(self@.layers[t.layer as int].buttons[t.button as int].1
            == self.layers@[t.layer as int].buttons@[t.button as int].1@);
        if self.layers[t.layer].buttons[t.button].1.slider_kind().is_some() {
            self.last_volume_tap = None;
            let effect = self.drag_on(t, x, now);
            return TouchEffect { press: Press::none(), slider: effect };
        }
        assert(self@.layers[t.layer as int].wf());
        let hit = hit_on(
            &self.layers[t.layer],
            self.width,
            self.height,
            x,
            y,
            Some(t.button),
            mgr,
        ).is_some();
        let press = self.press_on(t, hit, env);
        if !hit {
            self.hold_on(t, None);
            proof {
                lemma_twice(
                    d.layers,
                    t.layer as int,
                    t.button as int,
                    d.layers[t.layer as int].buttons[t.button as int].1.with_active(false),
                );
            }
        }
        TouchEffect { press, slider: None }
    }
}

impl Daemon {
    /// Brings a panel to where its slide begins: at a button, for one that expands.
    fn start_slide(&mut self, a: PulloutAnim, t: Touch, now: u64)
        requires
            old(self)@.sound(),
            t.layer < old(self).layers@.len(),
            a.panel < old(self).layers@.len(),
        ensures
            final(self)@ == old(self)@.with_layer(
                a.panel as int,
                panel_at_start(old(self)@, a, t, now),
            ),
            final(self)@.sound(),
    {
        let ghost d = self@;
        let panel = a.panel;
        assert(d.layers[panel as int] == self.layers@[panel as int]@);
        assert(d.layers[t.layer as int] == self.layers@[t.layer as int]@);
        assert(d.layers[panel as int].wf() && d.layers[t.layer as int].wf());
        if !a.collapsing {
            proof {
                places_are_counted(self.layers@[t.layer as int]@, None);
            }
            let from = self.layers[t.layer].button_left_edge(self.width, t.button, None);
            self.layers[panel].overlay_slide_start_x = from;
        }
        self.layers[panel].overlay_reveal = a.reveal_at(now);
        proof {
            let next = self.layers@[panel as int]@;
            assert(next =~= panel_at_start(d, a, t, now));
            assert(layers_of(self.layers@) =~= d.layers.update(panel as int, next));
            assert(next.wf());
            lemma_sound(d, panel as int, next);
        }
    }

    /// Switches to a layer of a name, if there is one. Gives the name back if there
    /// is none.
    fn switch_to(&mut self, t: Touch, name: String, now: u64) -> (r: Option<String>)
        requires
            old(self)@.sound(),
            t.layer < old(self).layers@.len(),
        ensures
            final(self)@ == old(self)@.switched_to(t, Some(name@), now),
            final(self)@.sound(),
            old(self)@.slide_sound() ==> final(self)@.slide_sound(),
            text_opt(r) == if layer_at(old(self)@.layers, name@) is None {
                Some(name@)
            } else {
                None
            },
    {
        let ghost d = self@;
        let target = match layer_index(self.layers.as_slice(), name.as_str()) {
            Some(i) => i,
            None => {
                return Some(name);
            },
        };
        if self.layers[target].displays_notifications {
            self.notification_return_layer = self.normal_layer;
        }
        let (active, anim) = begin_layer_switch(
            self.layers.as_slice(),
            self.active_layer,
            target,
            now,
        );
        match anim {
            Some(a) => {
                if !a.collapsing {
                    self.normal_layer = target;
                }
                self.start_slide(a, t, now);
            },
            None => {
                self.normal_layer = target;
            },
        }
        self.active_layer = active;
        self.pullout_anim = anim;
        self.needs_complete_redraw = true;
        None
    }

    /// Sets off a notification button. What comes back are arguments to run
    /// `makoctl` with, and whether the notifications are to be read again once it
    /// is done.
    fn notify(
        &mut self,
        kind: Option<NotificationButton>,
        long: bool,
        mgr: &mut NotificationManager,
    ) -> (r: (Option<Vec<String>>, bool))
        requires
            old(self)@.sound(),
            kind == Some(NotificationButton::Back) ==> old(self)@.back < old(self)@.layers.len(),
        ensures
            final(self)@ == old(self)@.notified(kind),
            final(self)@.sound(),
            browsed(kind, old(mgr), final(mgr)),
            old(mgr).wf() ==> final(mgr).wf(),
            match r.0 {
                Some(args) => notification_args(kind, long, old(mgr)) == Some(texts(args@)),
                None => notification_args(kind, long, old(mgr)) is None,
            },
            r.1 == (r.0 is Some && (kind == Some(NotificationButton::Dnd) || long)),
    {
        match kind {
            Some(NotificationButton::Back) => {
                self.normal_layer = self.notification_return_layer;
                self.active_layer = self.normal_layer;
                self.needs_complete_redraw = true;
                (None, false)
            },
            Some(NotificationButton::Previous) => {
                mgr.previous();
                self.needs_complete_redraw = true;
                (None, false)
            },
            Some(NotificationButton::Text) => {
                let args = if long {
                    mgr.dismiss_current()
                } else {
                    mgr.invoke_current()
                };
                self.needs_complete_redraw = true;
                let reload = args.is_some() && long;
                (args, reload)
            },
            Some(NotificationButton::Next) => {
                mgr.next();
                self.needs_complete_redraw = true;
                (None, false)
            },
            Some(NotificationButton::Dnd) => {
                let args = mgr.toggle_dnd();
                self.needs_complete_redraw = true;
                (Some(args), true)
            },
            Some(NotificationButton::Count) => (None, false),
            None => (None, false),
        }
    }

    /// Takes note of a finger that was lifted. What comes back is to be done.
    pub fn touch_up(
        &mut self,
        slot: u32,
        now: u64,
        mgr: &mut NotificationManager,
        sysinfo: &mut SystemInfoManager,
        env: &Environment,
    ) -> (r: LiftEffect)
        requires
            old(self)@.sound(),
            old(self)@.lift_sound(slot),
        ensures
            ({
                let d = old(self)@;
                let music = old(sysinfo).info@.now_playing.len() > 0;
                &&& final(self)@ == d.lifted(slot, now, music)
                &&& r@ == d.lift_effect(slot, now, music, old(mgr), *env)
                &&& browsed(d.notification_under(slot, music), old(mgr), final(mgr))
                &&& final(sysinfo).info@ == if d.switches_title(slot, music) {
                    old(sysinfo).info@.toggled()
                } else {
                    old(sysinfo).info@
                }
                &&& final(sysinfo).last_system_refresh == old(sysinfo).last_system_refresh
                &&& d.touches.contains_key(slot) && (d.button_under(slot) matches Some(b) && b.image
                    is ActiveWindow) && music ==> final(sysinfo).info@.show_now_playing
                    != old(sysinfo).info@.show_now_playing
            }),
            final(self)@.sound(),
            old(self)@.slide_sound() ==> final(self)@.slide_sound(),
            old(mgr).wf() ==> final(mgr).wf(),
            final(mgr).list() == old(mgr).list(),
    {
        let ghost d = self@;
        let ghost music = sysinfo.info@.now_playing.len() > 0;
        let t = match self.touches.get(&slot) {
            Some(t) => *t,
            None => {
                return LiftEffect::none();
            },
        };
        self.touches.remove(&slot);
        let ghost gone = self@;
        assert(gone =~= DaemonView { touches: d.touches.remove(slot), ..d });
        assert(d.layers[t.layer as int] == self.layers@[t.layer as int]@);
        let n = self.layers[t.layer].buttons.len();
        if t.button >= n {
            self.needs_complete_redraw = true;
            let mut effect = LiftEffect::none();
            effect.makoctl = mgr.invoke_action(t.button - n);
            return effect;
        }
        assert(d.layers[t.layer as int].buttons[t.button as int].1
            == self.layers@[t.layer as int].buttons@[t.button as int].1@);
        let ghost b = d.layers[t.layer as int].buttons[t.button as int].1;
        let button = &self.layers[t.layer].buttons[t.button].1;
        if button.slider_kind().is_some() {
            let slider = self.commit_on(t, now);
            let mut effect = LiftEffect::none();
            effect.touch = TouchEffect { press: Press::none(), slider };
            return effect;
        }
        let target = match button.layer_toggle_target() {
            Some(name) => Some(name.to_owned()),
            None => None,
        };
        let kind = button.notification_kind();
        let active_window = button.is_active_window();
        let press = self.press_on(t, false, env);
        self.hold_on(t, None);
        proof {
            lemma_twice(d.layers, t.layer as int, t.button as int, b.with_active(false));
        }
        assert(self@ =~= d.released(slot, b));
        let mut effect = LiftEffect::none();
        effect.touch = TouchEffect { press, slider: None };
        if active_window && sysinfo.toggle_titlebar_text() {
            self.needs_complete_redraw = true;
            return effect;
        }
        let long = now.saturating_sub(t.down_at) >= LONG_PRESS_TIMEOUT;
        let (args, reload) = self.notify(kind, long, mgr);
        effect.makoctl = args;
        effect.reload = reload;
        if let Some(name) = target {
            effect.missing_layer = self.switch_to(t, name, now);
        }
        effect
    }
}

/// A layer to be drawn: which one, and how.
pub struct DrawnLayer {
    pub layer: usize,
    pub plan: DrawPlan,
}

/// What is to be drawn: the layers in their order, each over the one before,
/// whether each is drawn as a whole, and the parts of the screen that change.
pub struct Frame {
    pub layers: Vec<DrawnLayer>,
    pub complete: bool,
    pub clips: Vec<ClipRect>,
}

/// What buttons show that comes from outside, how far the picture is shifted and
/// how many pixels are kept free for that, and the time in nanoseconds.
pub struct Surroundings<'a> {
    pub sysinfo_mgr: &'a SystemInfoManager,
    pub weather_mgr: &'a WeatherManager,
    pub notification_mgr: &'a NotificationManager,
    pub ambient: &'a Ambient,
    pub pixel_shift: (i64, i64),
    pub pixel_shift_width: u16,
    pub now: u64,
}

/// How far the picture is shifted.
pub open spec fn shift_of(cfg: Config, s: Surroundings) -> (i64, i64) {
    if cfg.enable_pixel_shift {
        s.pixel_shift
    } else {
        (0, 0)
    }
}

/// The scene that a panel and the layer under it are drawn in: as a whole.
pub open spec fn whole_scene<'a>(
    cfg: &'a Config,
    width: u16,
    height: u16,
    s: Surroundings<'a>,
) -> Scene<'a> {
    Scene {
        config: cfg,
        width,
        height,
        pixel_shift: shift_of(*cfg, s),
        pixel_shift_width: s.pixel_shift_width,
        complete_redraw: true,
        sysinfo_mgr: Some(s.sysinfo_mgr),
        weather_mgr: Some(s.weather_mgr),
        notification_mgr: Some(s.notification_mgr),
        ambient: s.ambient,
        now: s.now,
    }
}

/// The scene that a layer by itself is drawn in: with what it displays.
pub open spec fn layer_scene<'a>(
    l: LayerView,
    cfg: &'a Config,
    width: u16,
    height: u16,
    complete: bool,
    s: Surroundings<'a>,
) -> Scene<'a> {
    Scene {
        config: cfg,
        width,
        height,
        pixel_shift: shift_of(*cfg, s),
        pixel_shift_width: s.pixel_shift_width,
        complete_redraw: complete,
        sysinfo_mgr: if l.displays_sysinfo {
            Some(s.sysinfo_mgr)
        } else {
            None
        },
        weather_mgr: if l.displays_weather {
            Some(s.weather_mgr)
        } else {
            None
        },
        notification_mgr: notes_for(l, s.notification_mgr),
        ambient: s.ambient,
        now: s.now,
    }
}

/// The layer under a panel.
pub open spec fn under(layers: Seq<LayerView>, active: int) -> Option<int> {
    match parent_at(layers, active) {
        Some(p) => if p == active {
            None
        } else {
            Some(p as int)
        },
        None => None,
    }
}

/// The places of the layers that are drawn are few enough for a memory to hold
/// them.
pub open spec fn frame_fits(layers: Seq<LayerView>, active: int, mgr: &NotificationManager) -> bool {
    match under(layers, active) {
        Some(p) => fits(layers[p], Some(mgr)) && fits(layers[active], Some(mgr)),
        None => fits(layers[active], notes_for(layers[active], mgr)),
    }
}

/// Whether the places of the layers that are drawn are few enough for a memory to
/// hold them.
pub(crate) fn layers_fit(layers: &[FunctionLayer], active: usize, mgr: &NotificationManager) -> (r:
    bool)
    requires
        active < layers@.len(),
        layers_sound(layers_of(layers@)),
    ensures
        r == frame_fits(layers_of(layers@), active as int, mgr),
{
    let ghost all = layers_of(layers@);
    assert(all[active as int] == layers@[active as int]@);
    assert(all[active as int].wf());
    match parent_index(layers, active) {
        Some(p) => {
            assert(all[p as int] == layers@[p as int]@);
            assert(all[p as int].wf());
            if p != active {
                return layers[p].places_fit(Some(mgr)) && layers[active].places_fit(Some(mgr));
            }
        },
        None => {},
    }
    if layers[active].displays_notifications {
        layers[active].places_fit(Some(mgr))
    } else {
        layers[active].places_fit(None)
    }
}

/// The layers after one of them was drawn, over the one under it if it is a panel.
pub open spec fn layers_drawn(
    layers: Seq<LayerView>,
    active: int,
    cfg: Config,
    width: u16,
    height: u16,
    complete: bool,
    s: Surroundings,
) -> Seq<LayerView> {
    match under(layers, active) {
        Some(p) => {
            let scene = whole_scene(&cfg, width, height, s);
            layers.update(p, after_draw(layers[p], scene)).update(
                active,
                after_draw(layers[active], scene),
            )
        },
        None => layers.update(
            active,
            after_draw(
                layers[active],
                layer_scene(layers[active], &cfg, width, height, complete, s),
            ),
        ),
    }
}

/// What is drawn. A panel and the layer under it make up one picture, which changes
/// as a whole.
pub open spec fn framed(
    layers: Seq<LayerView>,
    active: int,
    cfg: Config,
    width: u16,
    height: u16,
    complete: bool,
    s: Surroundings,
    f: Frame,
) -> bool {
    match under(layers, active) {
        Some(p) => {
            let scene = whole_scene(&cfg, width, height, s);
            &&& f.layers@.len() == 2
            &&& f.layers@[0].layer == p
            &&& drawn_as(f.layers@[0].plan, layers[p], scene)
            &&& f.layers@[1].layer == active
            &&& drawn_as(f.layers@[1].plan, layers[active], scene)
            &&& f.clips@ == seq![ClipRect { x1: 0, y1: 0, x2: height, y2: width }]
            &&& f.complete
        },
        None => {
            let scene = layer_scene(layers[active], &cfg, width, height, complete, s);
            &&& f.layers@.len() == 1
            &&& f.layers@[0].layer == active
            &&& drawn_as(f.layers@[0].plan, layers[active], scene)
            &&& f.clips@ == f.layers@[0].plan.regions@
            &&& f.complete == complete
        },
    }
}

impl DaemonView {
    /// Whether everything is drawn again: a panel always is.
    pub open spec fn redraws(self) -> bool {
        self.redraw || (self.on().is_panel() && any_changed(self.on()))
    }

    /// Whether anything is drawn.
    pub open spec fn draws(self) -> bool {
        self.redraw || any_changed(self.on())
    }

    /// The state after drawing.
    pub open spec fn after_frame(self, s: Surroundings) -> DaemonView {
        if !self.draws() {
            self
        } else {
            DaemonView {
                redraw: false,
                layers: layers_drawn(
                    self.layers,
                    self.active,
                    self.cfg,
                    self.width,
                    self.height,
                    self.redraws(),
                    s,
                ),
                ..self
            }
        }
    }
}

/// Copies a list of parts of the screen.
fn copy_clips(v: &Vec<ClipRect>) -> (r: Vec<ClipRect>)
    ensures
        r@ == v@,
{
    let mut r: Vec<ClipRect> = Vec::new();
    let n = v.len();
    let mut i: usize = 0;
    while i < n
        invariant
            i <= n,
            n == v@.len(),
            r@ == v@.subrange(0, i as int),
        decreases n - i,
    {
        r.push(v[i]);
        assert(r@ =~= v@.subrange(0, i + 1));
        i += 1;
    }
    assert(v@.subrange(0, n as int) =~= v@);
    r
}

/// Plans how a layer is drawn, over the one under it if it is a panel, and notes
/// that they were.
pub(crate) fn draw_layers(
    layers: &mut Vec<FunctionLayer>,
    active: usize,
    cfg: &Config,
    width: u16,
    height: u16,
    complete: bool,
    s: &Surroundings,
) -> (r: Frame)
    requires
        active < old(layers)@.len(),
        layers_sound(layers_of(old(layers)@)),
        frame_fits(layers_of(old(layers)@), active as int, s.notification_mgr),
    ensures
        framed(
            layers_of(old(layers)@),
            active as int,
            *cfg,
            width,
            height,
            complete,
            *s,
            r,
        ),
        layers_of(final(layers)@) == layers_drawn(
            layers_of(old(layers)@),
            active as int,
            *cfg,
            width,
            height,
            complete,
            *s,
        ),
        layers_sound(layers_of(final(layers)@)),
        final(layers)@.len() == old(layers)@.len(),
{
    let ghost all = layers_of(layers@);
    assert(all[active as int] == layers@[active as int]@);
    assert(all[active as int].wf());
    let shift = if cfg.enable_pixel_shift {
        s.pixel_shift
    } else {
        (0, 0)
    };
    let below = match parent_index(layers.as_slice(), active) {
        Some(p) => if p == active {
            None
        } else {
            Some(p)
        },
        None => None,
    };
    match below {
        Some(p) => {
            let scene = Scene {
                config: cfg,
                width,
                height,
                pixel_shift: shift,
                pixel_shift_width: s.pixel_shift_width,
                complete_redraw: true,
                sysinfo_mgr: Some(s.sysinfo_mgr),
                weather_mgr: Some(s.weather_mgr),
                notification_mgr: Some(s.notification_mgr),
                ambient: s.ambient,
                now: s.now,
            };
            assert(scene == whole_scene(cfg, width, height, *s));
            assert(all[p as int] == layers@[p as int]@);
            assert(all[p as int].wf());
            let base = layers[p].draw(&scene);
            let ghost first = layers@[p as int]@;
            let panel = layers[active].draw(&scene);
            proof {
                let second = layers@[active as int]@;
                let next = all.update(p as int, first).update(active as int, second);
                assert(layers_of(layers@) =~= next);
                assert forall|i: int| 0 <= i < next.len() implies (#[trigger] next[i]).wf() by {
                    assert(all[i].wf());
                }
            }
            let mut drawn: Vec<DrawnLayer> = Vec::new();
            drawn.push(DrawnLayer { layer: p, plan: base });
            drawn.push(DrawnLayer { layer: active, plan: panel });
            let mut clips: Vec<ClipRect> = Vec::new();
            clips.push(ClipRect { x1: 0, y1: 0, x2: height, y2: width });
            assert(clips@ =~= seq![ClipRect { x1: 0, y1: 0, x2: height, y2: width }]);
            Frame { layers: drawn, complete: true, clips }
        },
        None => {
            let l = &layers[active];
            let scene = Scene {
                config: cfg,
                width,
                height,
                pixel_shift: shift,
                pixel_shift_width: s.pixel_shift_width,
                complete_redraw: complete,
                sysinfo_mgr: if l.displays_sysinfo {
                    Some(s.sysinfo_mgr)
                } else {
                    None
                },
                weather_mgr: if l.displays_weather {
                    Some(s.weather_mgr)
                } else {
                    None
                },
                notification_mgr: if l.displays_notifications {
                    Some(s.notification_mgr)
                } else {
                    None
                },
                ambient: s.ambient,
                now: s.now,
            };
            assert(scene == layer_scene(all[active as int], cfg, width, height, complete, *s));
            let plan = layers[active].draw(&scene);
            proof {
                let next = all.update(active as int, layers@[active as int]@);
                assert(layers_of(layers@) =~= next);
                assert forall|i: int| 0 <= i < next.len() implies (#[trigger] next[i]).wf() by {
                    assert(all[i].wf());
                }
            }
            let clips = copy_clips(&plan.regions);
            let mut drawn: Vec<DrawnLayer> = Vec::new();
            drawn.push(DrawnLayer { layer: active, plan });
            Frame { layers: drawn, complete, clips }
        },
    }
}

impl Daemon {
    /// Whether the places of the layers that are drawn are few enough for a memory to
    /// hold them.
    pub fn can_draw(&self, mgr: &NotificationManager) -> (r: bool)
        requires
            self@.sound(),
        ensures
            r == frame_fits(self@.layers, self@.active, mgr),
    {
        layers_fit(self.layers.as_slice(), self.active_layer, mgr)
    }

    /// Plans what is to be drawn, if anything is, and notes that it was.
    pub fn frame(&mut self, s: &Surroundings) -> (r: Option<Frame>)
        requires
            old(self)@.sound(),
            frame_fits(old(self)@.layers, old(self)@.active, s.notification_mgr),
        ensures
            match r {
                Some(f) => old(self)@.draws() && framed(
                    old(self)@.layers,
                    old(self)@.active,
                    old(self).cfg,
                    old(self).width,
                    old(self).height,
                    old(self)@.redraws(),
                    *s,
                    f,
                ),
                None => !old(self)@.draws(),
            },
            final(self)@ == old(self)@.after_frame(*s),
            final(self)@.sound(),
            old(self)@.slide_sound() ==> final(self)@.slide_sound(),
    {
        let ghost d = self@;
        let a = self.active_layer;
        assert(d.layers[a as int] == self.layers@[a as int]@);
        let changed = self.layers[a].any_button_changed();
        if !self.needs_complete_redraw && !changed {
            return None;
        }
        let redraws = self.needs_complete_redraw || (self.layers[a].is_overlay() && changed);
        let f = draw_layers(
            &mut self.layers,
            a,
            &self.cfg,
            self.width,
            self.height,
            redraws,
            s,
        );
        self.needs_complete_redraw = false;
        Some(f)
    }
}

impl LiftEffect {
    /// Nothing to be done.
    fn none() -> (r: LiftEffect)
        ensures
            r@ == no_lift(),
    {
        LiftEffect {
            touch: TouchEffect { press: Press::none(), slider: None },
            makoctl: None,
            reload: false,
            missing_layer: None,
        }
    }
}

/// The next look comes within ten seconds, and while a panel slides within a
/// sixtieth of one.
pub proof fn next_look_is_soon(d: DaemonView, second: u32, shift_timeout: i32, now: u64)
    requires
        second < 60,
        shift_timeout > 0,
    ensures
        0 < d.timeout(second, shift_timeout, now) <= TIMEOUT_MS,
        d.anim matches Some(a) && !a.over(now) ==> d.timeout(second, shift_timeout, now)
            <= SLIDE_REFRESH_MS,
{
}

/// Whatever the key for the function keys does while it is down, letting it go
/// brings the layer back that was on without it. Where two presses in a short
/// time do not swap layers, or there are not two of them, the layers stay as they
/// are.
pub proof fn function_keys_come_and_go(d: DaemonView, down: u64, up: u64)
    requires
        d.sound(),
    ensures
        d.keyed(true, down).keyed(false, up).active == d.normal,
        d.keyed(true, down).keyed(false, up).normal == d.normal,
        d.cfg.double_press_switch_layers == 0 || d.layers.len() != 2 ==> d.keyed(
            true,
            down,
        ).keyed(false, up).layers == d.layers,
{
}

/// Two pairs of quick presses restore the layers.
pub proof fn swapping_twice_restores(d: DaemonView, first: u64, second: u64)
    requires
        d.sound(),
        d.layers.len() == 2,
        d.fn_press <= first <= second,
        first - d.fn_press < d.cfg.double_press_switch_layers * 1_000_000,
        second - first < d.cfg.double_press_switch_layers * 1_000_000,
    ensures
        d.keyed(true, first).layers == seq![d.layers[1], d.layers[0]],
        d.keyed(true, first).keyed(true, second).layers == d.layers,
{
    assert(d.keyed(true, first).keyed(true, second).layers =~= d.layers);
}

/// A layer with notifications leads back to the layer that was on before it.
pub proof fn notifications_lead_back(d: DaemonView, t: Touch, target: int, now: u64)
    requires
        d.sound(),
        0 <= target < d.layers.len(),
        d.layers[target].displays_notifications,
    ensures
        d.switched(t, target, now).notified(Some(NotificationButton::Back)).active == d.normal,
        d.switched(t, target, now).notified(Some(NotificationButton::Back)).normal == d.normal,
{
}

/// A panel that is called from its parent is on while and after it slides in; a
/// switch back to the parent keeps it on until it has slid out, and then the
/// parent is on again, with no slide under way.
pub proof fn panel_comes_and_goes(
    d: DaemonView,
    panel: int,
    there: Touch,
    back: Touch,
    t0: u64,
    t1: u64,
    t2: u64,
    t3: u64,
)
    requires
        d.sound(),
        d.layers.len() <= usize::MAX,
        0 <= panel < d.layers.len(),
        d.active == d.normal,
        panel != d.normal,
        parent_at(d.layers, panel) == Some(d.normal as nat),
        !d.layers[d.normal].is_panel(),
        there.layer < d.layers.len(),
        back.layer < d.layers.len(),
        t0 + PULLOUT_ANIM <= t1,
        t2 + PULLOUT_ANIM <= t3,
    ensures
        ({
            let out = d.switched(there, panel, t0);
            let open = out.slid(t1);
            let closing = open.switched(back, d.normal, t2);
            let closed = closing.slid(t3);
            &&& out.active == panel
            &&& out.anim is Some
            &&& open.active == panel
            &&& open.normal == panel
            &&& open.anim is None
            &&& closing.active == panel
            &&& closing.anim is Some
            &&& closed.active == d.normal
            &&& closed.normal == d.normal
            &&& closed.anim is None
            &&& closed.layers.len() == d.layers.len()
        }),
{
    let out = d.switched(there, panel, t0);
    let open = out.slid(t1);
    let p = PulloutAnim {
        panel: panel as usize,
        parent: d.normal as usize,
        collapsing: false,
        start: t0,
    };
    assert(out.anim == Some(p));
    lemma_names_stay(d.layers, out.layers, d.layers[panel].overlay_parent->0);
    lemma_names_stay(d.layers, open.layers, d.layers[panel].overlay_parent->0);
    assert(open.layers[panel].overlay_parent == d.layers[panel].overlay_parent);
    assert(open.layers[d.normal].overlay_parent == d.layers[d.normal].overlay_parent);
    assert(parent_at(open.layers, panel) == Some(d.normal as nat));
    assert(parent_at(open.layers, d.normal) is None);
}

/// Where the layers keep their names, a name stands for the same one.
proof fn lemma_names_stay(before: Seq<LayerView>, after: Seq<LayerView>, name: Seq<char>)
    requires
        before.len() == after.len(),
        forall|i: int| 0 <= i < before.len() ==> (#[trigger] before[i]).name == after[i].name,
    ensures
        layer_at(before, name) == layer_at(after, name),
    decreases before.len(),
{
    if before.len() > 0 {
        assert forall|i: int| 0 <= i < before.drop_last().len() implies (
        #[trigger] before.drop_last()[i]).name == after.drop_last()[i].name by {
            assert(before[i].name == after[i].name);
        }
        lemma_names_stay(before.drop_last(), after.drop_last(), name);
        assert(before[before.len() - 1].name == after[before.len() - 1].name);
    }
}

/// A finger that came down on a button and was lifted again is gone, and has left
/// the button neither pressed nor held.
pub proof fn tap_leaves_nothing_down(
    d: DaemonView,
    slot: u32,
    x: i64,
    y: i64,
    down: u64,
    up: u64,
    music: bool,
    mgr: &NotificationManager,
)
    requires
        d.sound(),
        d.layers.len() <= usize::MAX,
        0 <= d.back < d.layers.len(),
        d.anim is None,
        d.struck(x, y, mgr) matches Some(p) && 0 <= p.0 < d.layers.len() && 0 <= p.1
            < d.layers[p.0].buttons.len() <= usize::MAX && d.layers[p.0].buttons[p.1].1.slider()
            is None,
    ensures
        ({
            let (layer, place) = d.struck(x, y, mgr)->0;
            let after = d.touched(slot, x, y, down, mgr).lifted(slot, up, music);
            &&& !after.touches.contains_key(slot)
            &&& after.layers.len() == d.layers.len()
            &&& !after.layers[layer].buttons[place].1.active
            &&& after.layers[layer].buttons[place].1.hold_started is None
        }),
{
    let (layer, place) = d.struck(x, y, mgr)->0;
    let during = d.touched(slot, x, y, down, mgr);
    let t = during.touches[slot];
    assert(t.layer == layer && t.button == place);
    let b = during.layers[layer].buttons[place].1;
    assert(during.button_under(slot) == Some(b));
    assert(b.slider() is None);
    let released = during.released(slot, b);
    assert(released.layers[layer].buttons[place].1 == b.with_active(false).unheld());
    let notified = released.notified(b.notification());
    assert(notified.layers == released.layers);
    match b.target() {
        Some(name) => match layer_at(notified.layers, name) {
            Some(target) => {
                layer_at_is_first(notified.layers, name);
                let after = notified.switched(t, target as int, up);
                assert(after.layers[layer].buttons == notified.layers[layer].buttons);
            },
            None => {},
        },
        None => {},
    }
}

/// New fingers do not count while a panel slides.
pub proof fn slide_ignores_touches(
    d: DaemonView,
    slot: u32,
    x: i64,
    y: i64,
    now: u64,
    mgr: &NotificationManager,
    env: Environment,
)
    requires
        d.anim is Some,
    ensures
        d.touched(slot, x, y, now, mgr) == d,
        d.touch_effect(x, y, now, mgr, env) == no_effect(),
{
}

/// Two quick taps on the volume slider mute it, or unmute it if it was muted.
pub proof fn double_tap_mutes(
    d: DaemonView,
    slot: u32,
    x: i64,
    y: i64,
    now: u64,
    mgr: &NotificationManager,
)
    requires
        d.sound(),
        d.anim is None,
        d.struck(x, y, mgr) matches Some(p) && 0 <= p.0 < d.layers.len() && 0 <= p.1
            < d.layers[p.0].buttons.len() && (
        d.layers[p.0].buttons[p.1].1.slider() matches Some(s) && s.kind == SliderKind::Volume),
        d.tap matches Some(t) && now - t < DOUBLE_TAP_TIMEOUT,
    ensures
        ({
            let (layer, place) = d.struck(x, y, mgr)->0;
            let before = d.layers[layer].buttons[place].1.slider()->0;
            let after = d.touched(slot, x, y, now, mgr).layers[layer].buttons[place].1;
            &&& after.slider() matches Some(s)
            &&& s.muted == !before.muted
            &&& s.value == before.value
        }),
{
}

/// A button that is brought from one state to another and then to a third is in
/// the third.
proof fn lemma_twice(layers: Seq<LayerView>, i: int, k: int, b: ButtonView)
    requires
        0 <= i < layers.len(),
        0 <= k < layers[i].buttons.len(),
    ensures
        layers.update(i, with_button(layers[i], k, b))[i].buttons[k].1 == b,
        forall|c: ButtonView| #[trigger]
            layers.update(i, with_button(with_button(layers[i], k, b), k, c)) == layers.update(
                i,
                with_button(layers[i], k, c),
            ),
        forall|l: LayerView, m: LayerView| #[trigger]
            layers.update(i, l).update(i, m) == layers.update(i, m),
{
    assert forall|c: ButtonView| #[trigger]
        layers.update(i, with_button(with_button(layers[i], k, b), k, c)) == layers.update(
        i,
        with_button(layers[i], k, c),
    ) by {
        let l = layers[i];
        assert(with_button(with_button(l, k, b), k, c).buttons =~= with_button(l, k, c).buttons);
    }
    assert forall|l: LayerView, m: LayerView| #[trigger]
        layers.update(i, l).update(i, m) == layers.update(i, m) by {
        assert(layers.update(i, l).update(i, m) =~= layers.update(i, m));
    }
}

/// Lifting a finger from the place of an action of the notification on show asks
/// `makoctl` to invoke that notification with the key of that same action, and
/// nothing else.
pub proof fn lifting_from_an_action_invokes_it(
    d: DaemonView,
    slot: u32,
    now: u64,
    music: bool,
    mgr: &NotificationManager,
    env: Environment,
    a: int,
)
    requires
        d.touches.contains_key(slot),
        d.touches[slot].button == d.layers[d.touches[slot].layer as int].buttons.len() + a,
        0 <= a < mgr.offered().len(),
    ensures
        ({
            let effect = d.lift_effect(slot, now, music, mgr, env);
            &&& mgr.current() is Some
            &&& effect.makoctl is Some
            &&& (effect.makoctl->0).len() == 4
            &&& (effect.makoctl->0)[0] == "invoke"@
            &&& (effect.makoctl->0)[1] == "-n"@
            &&& (effect.makoctl->0)[2] == decimal((mgr.current()->0).id as nat)
            &&& (effect.makoctl->0)[3] == mgr.offered()[a].key
            &&& effect.touch.press.events.len() == 0
            &&& effect.touch.press.command is None
            &&& effect.touch.slider is None
            &&& !effect.reload
            &&& effect.missing_layer is None
            &&& d.lifted(slot, now, music).redraw
            &&& !d.lifted(slot, now, music).touches.contains_key(slot)
            &&& d.lifted(slot, now, music).layers == d.layers
            &&& d.lifted(slot, now, music).active == d.active
        }),
{
}

/// A finger at a point of the bar lies on what is drawn of a place, no nearer than
/// a pixel to its left edge, and in the middle four fifths of the height.
pub open spec fn lies_on(item: ItemView, height: u16, x: i64, y: i64) -> bool {
    &&& item.left + 1_000_000_000 <= x <= item.left + item.width * 1_000_000_000
    &&& height * 1_000_000_000 <= 10 * y <= 9 * (height * 1_000_000_000)
}

/// A scene shows the layer that is on, as it is, with nothing on the move.
pub open spec fn shows_what_is_on(d: DaemonView, s: Scene, mgr: &NotificationManager) -> bool {
    &&& s.width == d.width
    &&& s.height == d.height
    &&& s.notification_mgr == notes_for(d.on(), mgr)
    &&& stands_still(d.on(), s)
    &&& d.anim is None
    &&& 0 <= room(d.on(), layout(d.on(), s.notification_mgr), d.width, 0)
}

proof fn lemma_struck(
    d: DaemonView,
    x: i64,
    y: i64,
    mgr: &NotificationManager,
    s: Scene,
    k: int,
)
    requires
        d.sound(),
        shows_what_is_on(d, s, mgr),
        0 <= k < layout(d.on(), s.notification_mgr).len(),
        layout(d.on(), s.notification_mgr)[k].start < layout(d.on(), s.notification_mgr)[k].end,
        lies_on(
            item_drawn(d.on(), layout(d.on(), s.notification_mgr), k as nat, s),
            d.height,
            x,
            y,
        ),
    ensures
        match layout(d.on(), s.notification_mgr)[k].kind {
            PlaceKind::Button(b) => {
                let button = d.on().buttons[b].1;
                let in_view = button.image is ActiveWindow || button.image is ActiveWorkspace
                    || button.visible(None, browsable(s.notification_mgr));
                &&& 0 <= b < d.on().buttons.len()
                &&& button.interactive() && in_view ==> d.struck(x, y, mgr) == Some((d.active, b))
            },
            PlaceKind::Action(a) => {
                &&& 0 <= a < action_count(s.notification_mgr)
                &&& d.struck(x, y, mgr) == Some((d.active, d.on().buttons.len() + a))
            },
        },
{
    let l = d.on();
    let items = layout(l, s.notification_mgr);
    assert(l.wf());
    layout_is_bounded(l, s.notification_mgr);
    assert(items[k] == items[k]);
    places_are_drawn_where_they_are_touched(l, k, s, x as int);
    touch_inside_a_place_hits_it(l, d.width, d.height, x, y, s.notification_mgr, k);
}

/// A tap on what is drawn with the label of an action asks `makoctl` to invoke the
/// notification on show with the key of that action.
pub proof fn tap_on_a_label_invokes_its_action(
    d: DaemonView,
    slot: u32,
    x: i64,
    y: i64,
    down: u64,
    up: u64,
    music: bool,
    mgr: &NotificationManager,
    env: Environment,
    s: Scene,
    k: int,
)
    requires
        d.sound(),
        d.layers.len() <= usize::MAX,
        d.on().displays_notifications,
        d.on().buttons.len() + mgr.offered().len() <= usize::MAX,
        shows_what_is_on(d, s, mgr),
        0 <= k < layout(d.on(), Some(mgr)).len(),
        layout(d.on(), Some(mgr))[k].kind is Action,
        layout(d.on(), Some(mgr))[k].start < layout(d.on(), Some(mgr))[k].end,
        lies_on(item_drawn(d.on(), layout(d.on(), Some(mgr)), k as nat, s), d.height, x, y),
    ensures
        ({
            let label = item_drawn(d.on(), layout(d.on(), Some(mgr)), k as nat, s).content;
            let during = d.touched(slot, x, y, down, mgr);
            let effect = during.lift_effect(slot, up, music, mgr, env);
            exists|a: int|
                {
                    &&& 0 <= a < mgr.offered().len()
                    &&& label == Some(ContentView::ClippedText((#[trigger] mgr.offered()[a]).label))
                    &&& effect.makoctl == Some(
                        seq![
                            "invoke"@,
                            "-n"@,
                            decimal((mgr.current()->0).id as nat),
                            mgr.offered()[a].key,
                        ],
                    )
                }
        }),
{
    let l = d.on();
    let items = layout(l, Some(mgr));
    lemma_struck(d, x, y, mgr, s, k);
    let a = items[k].kind->Action_0;
    actions_are_drawn_as_their_labels(l, items, k as nat, s);
    let during = d.touched(slot, x, y, down, mgr);
    let t = during.touches[slot];
    assert(t.layer == d.active && t.button == l.buttons.len() + a);
    assert(during.layers == d.layers);
    lifting_from_an_action_invokes_it(during, slot, up, music, mgr, env, a);
    let effect = during.lift_effect(slot, up, music, mgr, env);
    assert(effect.makoctl->0 =~= seq![
        "invoke"@,
        "-n"@,
        decimal((mgr.current()->0).id as nat),
        mgr.offered()[a].key,
    ]);
    assert(mgr.offered()[a] == mgr.offered()[a]);
}

/// Two actions with different keys are told apart: lifting a finger from one asks
/// for something else than lifting it from the other.
pub proof fn different_actions_are_told_apart(
    d: DaemonView,
    one: u32,
    other: u32,
    now: u64,
    music: bool,
    mgr: &NotificationManager,
    env: Environment,
    a: int,
    b: int,
)
    requires
        d.touches.contains_key(one),
        d.touches.contains_key(other),
        d.touches[one].button == d.layers[d.touches[one].layer as int].buttons.len() + a,
        d.touches[other].button == d.layers[d.touches[other].layer as int].buttons.len() + b,
        0 <= a < mgr.offered().len(),
        0 <= b < mgr.offered().len(),
        mgr.offered()[a].key != mgr.offered()[b].key,
    ensures
        d.lift_effect(one, now, music, mgr, env).makoctl != d.lift_effect(
            other,
            now,
            music,
            mgr,
            env,
        ).makoctl,
{
    lifting_from_an_action_invokes_it(d, one, now, music, mgr, env, a);
    lifting_from_an_action_invokes_it(d, other, now, music, mgr, env, b);
}

/// A list of key events is one event for each key, in their order, with a value,
/// and one that ends the group; and it is empty without keys.
pub open spec fn are_keys(events: Seq<InputEvent>, keys: Seq<u16>, value: i32) -> bool {
    &&& events.len() == if keys.len() == 0 {
        0
    } else {
        keys.len() + 1
    }
    &&& forall|i: int|
        0 <= i < keys.len() ==> (#[trigger] events[i]).kind == 1 && events[i].code == keys[i]
            && events[i].value == value
    &&& keys.len() > 0 ==> events.last().kind == 0 && events.last().code == 0
        && events.last().value == 0
}

/// A finger that comes down on a button that is drawn, answers to touches and is no
/// slider presses that very button: its keys go down, its command runs, and no
/// other button changes. Lifting the finger lifts the keys, and runs nothing.
pub proof fn tap_presses_the_button_under_it(
    d: DaemonView,
    slot: u32,
    x: i64,
    y: i64,
    down: u64,
    up: u64,
    music: bool,
    mgr: &NotificationManager,
    env: Environment,
    s: Scene,
    k: int,
)
    requires
        d.sound(),
        d.layers.len() <= usize::MAX,
        d.on().buttons.len() <= usize::MAX,
        shows_what_is_on(d, s, mgr),
        0 <= k < layout(d.on(), s.notification_mgr).len(),
        layout(d.on(), s.notification_mgr)[k].kind is Button,
        layout(d.on(), s.notification_mgr)[k].start < layout(d.on(), s.notification_mgr)[k].end,
        lies_on(
            item_drawn(d.on(), layout(d.on(), s.notification_mgr), k as nat, s),
            d.height,
            x,
            y,
        ),
        ({
            let b = d.on().buttons[layout(d.on(), s.notification_mgr)[k].kind->Button_0].1;
            &&& b.interactive()
            &&& b.image is ActiveWindow || b.image is ActiveWorkspace || b.visible(
                None,
                browsable(s.notification_mgr),
            )
            &&& !(b.image is Slider)
            &&& !(b.image is LayerToggle)
            &&& !b.active
        }),
    ensures
        ({
            let i = layout(d.on(), s.notification_mgr)[k].kind->Button_0;
            let b = d.on().buttons[i].1;
            let during = d.touched(slot, x, y, down, mgr);
            let pressed = d.touch_effect(x, y, down, mgr, env);
            let released = during.lift_effect(slot, up, music, mgr, env);
            &&& are_keys(pressed.press.events, b.action, 1)
            &&& pressed.slider is None
            &&& b.command matches Some(line) ==> pressed.press.command matches Some(c)
                && c.args.last() == line
            &&& b.command is None ==> pressed.press.command is None
            &&& during.on().buttons[i].1.active
            &&& during.on().buttons[i].1.changed
            &&& during.on().buttons[i].1.image == b.image
            &&& b.image matches ImageView::Notification(NotificationButton::Text, _, _)
                ==> during.on().buttons[i].1.hold_started == Some(down)
            &&& during.touches[slot].down_at == down
            &&& forall|j: int|
                0 <= j < d.on().buttons.len() && j != i ==> (#[trigger] during.on().buttons[j])
                    == d.on().buttons[j]
            &&& forall|j: int|
                0 <= j < d.layers.len() && j != d.active ==> (#[trigger] during.layers[j])
                    == d.layers[j]
            &&& are_keys(released.touch.press.events, b.action, 0)
            &&& released.touch.press.command is None
            &&& released.touch.slider is None
        }),
{
    let l = d.on();
    lemma_struck(d, x, y, mgr, s, k);
    let i = layout(l, s.notification_mgr)[k].kind->Button_0;
    let during = d.touched(slot, x, y, down, mgr);
    let t = during.touches[slot];
    assert(t.layer == d.active && t.button == i);
    assert(during.button_under(slot) == Some(during.on().buttons[i].1));
}

/// A finger that leaves its button releases it: its keys go up and it is no longer
/// held; one that comes back presses it again. No other button changes, and the
/// finger stays with its button.
pub proof fn moving_off_releases(
    d: DaemonView,
    slot: u32,
    x: i64,
    y: i64,
    now: u64,
    mgr: &NotificationManager,
    env: Environment,
)
    requires
        d.sound(),
        d.touch_sound(slot),
        d.button_under(slot) matches Some(b) && !(b.image is Slider) && !(b.image is LayerToggle),
    ensures
        ({
            let t = d.touches[slot];
            let b = d.button_under(slot)->0;
            let after = d.moved(slot, x, y, now, mgr);
            let effect = d.move_effect(slot, x, y, now, mgr, env);
            let l = d.layers[t.layer as int];
            let here = hits(
                l,
                d.width,
                d.height,
                x,
                y,
                Some(t.button),
                if l.displays_notifications {
                    Some(mgr)
                } else {
                    None
                },
            ) is Some;
            &&& after.touches == d.touches
            &&& after.button_under(slot) is Some
            &&& (after.button_under(slot)->0).active == here
            &&& !here ==> (after.button_under(slot)->0).hold_started is None
            &&& b.active && !here ==> are_keys(effect.press.events, b.action, 0)
            &&& !b.active && here ==> are_keys(effect.press.events, b.action, 1)
            &&& b.active == here ==> effect.press.events.len() == 0 && effect.press.command is None
            &&& effect.press.command is Some ==> !b.active && here && b.command is Some
            &&& effect.slider is None
            &&& forall|i: int, j: int|
                0 <= i < d.layers.len() && 0 <= j < d.layers[i].buttons.len() && (i != t.layer || j
                    != t.button) ==> (#[trigger] after.layers[i].buttons[j])
                    == d.layers[i].buttons[j]
        }),
{
    let t = d.touches[slot];
    assert(d.layers[t.layer as int].wf());
}

/// A finger on a slider drags it to where the finger is: the slider takes that
/// value, and what a drag to it asks for is asked for. It goes on doing so when it
/// moves, wherever it goes.
pub proof fn finger_drags_its_slider(
    d: DaemonView,
    slot: u32,
    x: i64,
    y: i64,
    now: u64,
    mgr: &NotificationManager,
    env: Environment,
)
    requires
        d.sound(),
        d.touch_sound(slot),
        d.button_under(slot) matches Some(b) && b.image is Slider,
    ensures
        ({
            let t = d.touches[slot];
            let state = d.button_under(slot)->0.image->Slider_state;
            let f = fraction_at(d.layers[t.layer as int], d.width, t.button as int, x);
            let after = d.moved(slot, x, y, now, mgr);
            let effect = d.move_effect(slot, x, y, now, mgr, env);
            &&& after.button_under(slot) is Some
            &&& after.button_under(slot)->0.image is Slider
            &&& after.button_under(slot)->0.image->Slider_state == state.dragged(f, now)
            &&& after.button_under(slot)->0.changed
            &&& effect.slider == state.drag_effect(f, now)
            &&& effect.press.events.len() == 0
            &&& effect.press.command is None
            &&& after.tap is None
            &&& forall|i: int, j: int|
                0 <= i < d.layers.len() && 0 <= j < d.layers[i].buttons.len() && (i != t.layer || j
                    != t.button) ==> (#[trigger] after.layers[i].buttons[j])
                    == d.layers[i].buttons[j]
        }),
{
    let t = d.touches[slot];
    assert(d.layers[t.layer as int].wf());
}

/// A finger that comes down on a slider drags it there at once, and lifting it ends
/// the drag; a second quick tap on the volume mutes it in place of that.
pub proof fn finger_comes_down_on_a_slider(
    d: DaemonView,
    slot: u32,
    x: i64,
    y: i64,
    down: u64,
    up: u64,
    music: bool,
    mgr: &NotificationManager,
    env: Environment,
)
    requires
        d.sound(),
        d.layers.len() <= usize::MAX,
        d.anim is None,
        d.struck(x, y, mgr) matches Some(p) && 0 <= p.0 < d.layers.len() && 0 <= p.1
            < d.layers[p.0].buttons.len() <= usize::MAX && d.layers[p.0].buttons[p.1].1.image is Slider,
    ensures
        ({
            let (layer, place) = d.struck(x, y, mgr)->0;
            let state = d.layers[layer].buttons[place].1.image->Slider_state;
            let quick = state.kind == SliderKind::Volume && (d.tap matches Some(t) && down - t
                < 300_000_000);
            let during = d.touched(slot, x, y, down, mgr);
            let effect = d.touch_effect(x, y, down, mgr, env);
            let then = during.layers[layer].buttons[place].1.image->Slider_state;
            let f = fraction_at(d.layers[layer], d.width, place, x);
            &&& during.touches.contains_key(slot)
            &&& during.touches[slot].layer == layer
            &&& during.touches[slot].button == place
            &&& during.touches[slot].down_at == down
            &&& effect.press.events.len() == 0
            &&& quick ==> then == state.mute_toggled(down) && effect.slider == state.mute_effect()
                && during.tap is None
            &&& !quick ==> then == state.dragged(f, down) && effect.slider == state.drag_effect(
                f,
                down,
            ) && (state.kind == SliderKind::Volume ==> during.tap == Some(down))
            &&& during.lift_effect(slot, up, music, mgr, env).touch.slider == then.commit_effect()
            &&& during.lift_effect(slot, up, music, mgr, env).makoctl is None
            &&& !during.lifted(slot, up, music).touches.contains_key(slot)
            &&& during.lifted(slot, up, music).layers[layer].buttons[place].1.image->Slider_state
                == then.committed(up)
        }),
{
    let (layer, place) = d.struck(x, y, mgr)->0;
    assert(d.layers[layer].wf());
    let during = d.touched(slot, x, y, down, mgr);
    assert(during.button_under(slot) == Some(during.layers[layer].buttons[place].1));
}

/// A button that is lifted is one of the notifications, and no music takes its
/// place.
pub open spec fn lifts_from(d: DaemonView, slot: u32, kind: NotificationButton) -> bool {
    &&& d.touches.contains_key(slot)
    &&& d.touches[slot].layer < d.layers.len()
    &&& d.touches[slot].button < d.layers[d.touches[slot].layer as int].buttons.len()
    &&& d.button_under(slot) matches Some(b) && b.image matches ImageView::Notification(k, _, _) && k
        == kind
}

/// A long press of a notification's text dismisses the notification on show, and
/// has the list read again; a short one carries out its default action, if it
/// offers any. A tap on the button for not being disturbed switches that, and has
/// the list read again. The other buttons of the notifications ask for nothing of
/// `makoctl`.
pub proof fn notification_buttons_ask_makoctl(
    d: DaemonView,
    slot: u32,
    now: u64,
    music: bool,
    mgr: &NotificationManager,
    env: Environment,
)
    ensures
        ({
            let effect = d.lift_effect(slot, now, music, mgr, env);
            let long = now - d.touches[slot].down_at >= 600_000_000;
            &&& lifts_from(d, slot, NotificationButton::Text) ==> match mgr.current() {
                Some(n) => if long {
                    &&& effect.makoctl == Some(seq!["dismiss"@, "-n"@, decimal(n.id as nat)])
                    &&& effect.reload
                } else if n.actions.len() > 0 {
                    &&& effect.makoctl == Some(seq!["invoke"@, "-n"@, decimal(n.id as nat)])
                    &&& !effect.reload
                } else {
                    effect.makoctl is None && !effect.reload
                },
                None => effect.makoctl is None && !effect.reload,
            }
            &&& lifts_from(d, slot, NotificationButton::Dnd) ==> effect.makoctl == Some(
                seq!["mode"@, "-t"@, "do-not-disturb"@],
            ) && effect.reload
            &&& lifts_from(d, slot, NotificationButton::Count) || lifts_from(
                d,
                slot,
                NotificationButton::Back,
            ) || lifts_from(d, slot, NotificationButton::Previous) || lifts_from(
                d,
                slot,
                NotificationButton::Next,
            ) ==> effect.makoctl is None && !effect.reload
        }),
{
}

/// Going on to the next notification and back again comes to the same one. The
/// next one is the one behind it in the list, and the last one has none behind it.
pub proof fn browsing_goes_through_the_list(
    before: &NotificationManager,
    next: &NotificationManager,
    back: &NotificationManager,
)
    requires
        before.wf(),
        browsed(Some(NotificationButton::Next), before, next),
        browsed(Some(NotificationButton::Previous), next, back),
    ensures
        next.wf(),
        back.wf(),
        before.position() + 1 < before.list().len() ==> {
            &&& next.current() == Some(before.list()[before.position() as int + 1])
            &&& back.current() == before.current()
            &&& back.position() == before.position()
        },
        before.position() + 1 == before.list().len() ==> next.current() == before.current(),
        before.position() + 1 == before.list().len() && before.position() > 0 ==> back.current()
            == Some(before.list()[before.position() as int - 1]),
        before.list().len() == 1 ==> back.current() == before.current(),
        next.list() == before.list(),
        next.dnd() == before.dnd(),
{
}

/// A button that leads back from the notifications brings the layer on that they
/// were called from, and everything is drawn again.
pub proof fn back_button_leads_back(d: DaemonView, slot: u32, now: u64, music: bool)
    requires
        lifts_from(d, slot, NotificationButton::Back),
        d.button_under(slot)->0.toggle_target is None,
    ensures
        d.lifted(slot, now, music).active == d.back,
        d.lifted(slot, now, music).normal == d.back,
        d.lifted(slot, now, music).redraw,
        !d.lifted(slot, now, music).touches.contains_key(slot),
{
}

/// Lifting a finger from a button that toggles to a layer switches to the first
/// layer of that name: at once, where neither it nor the one that is on is a panel.
/// Where there is no such layer, the one that is on stays on and the name is
/// reported.
pub proof fn toggle_switches_to_its_layer(
    d: DaemonView,
    slot: u32,
    now: u64,
    music: bool,
    mgr: &NotificationManager,
    env: Environment,
    name: Seq<char>,
)
    requires
        d.sound(),
        d.touch_sound(slot),
        d.anim is None,
        d.button_under(slot) matches Some(b) && !(b.image is Slider) && !(b.image is Notification)
            && !(b.image is ActiveWindow) && (b.image matches ImageView::LayerToggle(t, _)
            && t == name || !(b.image is LayerToggle) && b.toggle_target == Some(name)),
    ensures
        ({
            let after = d.lifted(slot, now, music);
            let missing = d.lift_effect(slot, now, music, mgr, env).missing_layer;
            match layer_at(d.layers, name) {
                Some(target) => {
                    &&& missing is None
                    &&& after.redraw
                    &&& d.layers[d.active].overlay_parent is None
                        && d.layers[target as int].overlay_parent is None ==> {
                        &&& after.active == target
                        &&& after.normal == target
                        &&& after.anim is None
                    }
                    &&& d.layers[target as int].displays_notifications ==> after.back == d.normal
                    &&& !d.layers[target as int].displays_notifications ==> after.back == d.back
                },
                None => {
                    &&& missing == Some(name)
                    &&& after.active == d.active
                    &&& after.normal == d.normal
                },
            }
        }),
{
    let t = d.touches[slot];
    let b = d.button_under(slot)->0;
    let l = d.layers[t.layer as int];
    assert(l.wf());
    let after = d.released(slot, b);
    assert forall|i: int| 0 <= i < d.layers.len() implies (#[trigger] d.layers[i]).name
        == after.layers[i].name by {}
    lemma_names_stay(d.layers, after.layers, name);
    layer_at_is_first(d.layers, name);
    if layer_at(d.layers, name) is Some {
        let target = layer_at(d.layers, name)->0 as int;
        assert(after.layers[target].overlay_parent == d.layers[target].overlay_parent);
        assert(after.layers[d.active].overlay_parent == d.layers[d.active].overlay_parent);
        assert(after.layers[target].displays_notifications
            == d.layers[target].displays_notifications);
    }
}

/// A tap on the active window's title while music plays does no more than that: no
/// layer is switched to, and nothing but the release of its keys is asked for.
pub proof fn title_tap_does_no_more(
    d: DaemonView,
    slot: u32,
    now: u64,
    mgr: &NotificationManager,
    env: Environment,
)
    requires
        d.touches.contains_key(slot),
        d.button_under(slot) matches Some(b) && b.image is ActiveWindow,
    ensures
        d.switches_title(slot, true),
        !d.switches_title(slot, false),
        d.lifted(slot, now, true).active == d.active,
        d.lifted(slot, now, true).normal == d.normal,
        d.lifted(slot, now, true).anim == d.anim,
        d.lifted(slot, now, true).redraw,
        d.lift_effect(slot, now, true, mgr, env).makoctl is None,
        d.lift_effect(slot, now, true, mgr, env).missing_layer is None,
{
}

/// A finger that is lifted without having come down on anything does nothing.
pub proof fn unknown_finger_does_nothing(
    d: DaemonView,
    slot: u32,
    x: i64,
    y: i64,
    now: u64,
    music: bool,
    mgr: &NotificationManager,
    env: Environment,
)
    requires
        !d.touches.contains_key(slot),
    ensures
        d.lifted(slot, now, music) == d,
        d.moved(slot, x, y, now, mgr) == d,
        d.lift_effect(slot, now, music, mgr, env).makoctl is None,
        d.lift_effect(slot, now, music, mgr, env).touch.press.events.len() == 0,
        d.lift_effect(slot, now, music, mgr, env).touch.slider is None,
        d.move_effect(slot, x, y, now, mgr, env).press.events.len() == 0,
        d.move_effect(slot, x, y, now, mgr, env).slider is None,
{
}

/// A finger that comes down beside everything that answers to touches changes
/// nothing and asks for nothing.
pub proof fn touch_of_nothing_does_nothing(
    d: DaemonView,
    slot: u32,
    x: i64,
    y: i64,
    now: u64,
    mgr: &NotificationManager,
    env: Environment,
)
    requires
        d.struck(x, y, mgr) is None,
    ensures
        d.touched(slot, x, y, now, mgr) == d,
        d.touch_effect(x, y, now, mgr, env).press.events.len() == 0,
        d.touch_effect(x, y, now, mgr, env).press.command is None,
        d.touch_effect(x, y, now, mgr, env).slider is None,
{
}

/// While its key is down, the layer of the function keys is on, if there is one;
/// everything is drawn again when another layer comes on by that.
pub proof fn function_key_brings_its_layer(d: DaemonView, now: u64)
    requires
        d.sound(),
        d.cfg.double_press_switch_layers == 0,
    ensures
        ({
            let down = d.keyed(true, now);
            let up = d.keyed(false, now);
            &&& layer_at(d.layers, "FKeys"@) matches Some(i) ==> down.active == i
            &&& layer_at(d.layers, "FKeys"@) is None ==> down.active == d.normal
            &&& up.active == d.normal
            &&& down.normal == d.normal && up.normal == d.normal
            &&& down.layers == d.layers && up.layers == d.layers
            &&& down.active != d.active ==> down.redraw
            &&& up.active != d.active ==> up.redraw
            &&& down.active == d.active ==> down.redraw == d.redraw
            &&& down.touches == d.touches
        }),
{
}

/// A new configuration brings its own layers and starts with the layer that it
/// names, or with its first one; everything is drawn again.
pub proof fn reload_starts_anew(d: DaemonView, cfg: Config, layers: Seq<LayerView>)
    ensures
        ({
            let after = d.reloaded(cfg, layers);
            &&& after.layers == layers
            &&& after.cfg == cfg
            &&& after.redraw
            &&& after.active == after.normal
            &&& layer_at(layers, cfg.default_layer@) matches Some(i) ==> after.active == i
            &&& layer_at(layers, cfg.default_layer@) is None ==> after.active == 0
        }),
{
}

/// A look at everything marks exactly those buttons of the layer that is on to be
/// drawn again that were marked already or may show something new: a battery, a
/// figure or the desktop, the weather, each where the layer displays it, a long
/// press, and a slider whose reading differs from what is on show. Nothing else of
/// a button changes but the state of a slider, which is the one that was read.
pub proof fn look_marks_what_may_be_new(
    d: DaemonView,
    second: u32,
    minute: u32,
    shifted: bool,
    news: bool,
    now: u64,
    r: SliderReadings,
    i: int,
)
    requires
        d.sound(),
        d.anim is None,
        0 <= i < d.on().buttons.len(),
    ensures
        ({
            let l = d.on();
            let b = l.buttons[i].1;
            let after = d.ticked(second, minute, shifted, news, now, r);
            let then = after.on().buttons[i].1;
            let reading = match b.image {
                ImageView::Slider { state, .. } => match state.kind {
                    SliderKind::DisplayBrightness => Reading::Brightness(r.display),
                    SliderKind::KeyboardBacklight => Reading::Brightness(r.keyboard),
                    SliderKind::Volume => Reading::Volume(r.volume),
                },
                _ => Reading::Volume(None),
            };
            let read = b.image is Slider && l.displays_slider;
            let state = b.image->Slider_state;
            &&& after.active == d.active
            &&& then.changed <==> {
                ||| b.changed
                ||| b.image is Battery && l.displays_battery
                ||| (b.image is CpuUsage || b.image is MemoryUsage || b.image is ActiveWindow
                    || b.image is ActiveWorkspace) && l.displays_sysinfo
                ||| (b.image is WeatherCurrent || b.image is WeatherForecast) && l.displays_weather
                ||| b.hold_started is Some
                ||| read && state.shifts(now, reading)
            }
            &&& read ==> then.image is Slider && then.image->Slider_state == state.refreshed(
                now,
                reading,
            )
            &&& !read ==> then == (ButtonView { changed: then.changed, ..b })
            &&& then.active == b.active && then.action == b.action && then.hold_started
                == b.hold_started
            &&& after.on().buttons[i].0 == l.buttons[i].0
            &&& after.on().buttons.len() == l.buttons.len()
            &&& forall|j: int|
                0 <= j < d.layers.len() && j != d.active ==> (#[trigger] after.layers[j])
                    == d.layers[j]
        }),
{
}

/// A look at everything has all drawn again where the time on show has moved on,
/// the picture is shifted, or there is news on notifications that are on show;
/// while nothing slides, it does so for no other reason. The time moves on with the
/// second or with the minute, as the layer shows it.
pub proof fn look_redraws_for_a_reason(
    d: DaemonView,
    second: u32,
    minute: u32,
    shifted: bool,
    news: bool,
    now: u64,
    r: SliderReadings,
)
    requires
        d.sound(),
        d.anim is None,
    ensures
        ({
            let l = d.on();
            let after = d.ticked(second, minute, shifted, news, now, r);
            let stamp = if l.faster_refresh {
                second
            } else {
                minute
            };
            &&& after.redraw <==> {
                ||| d.redraw
                ||| shifted && d.cfg.enable_pixel_shift
                ||| l.displays_time && stamp != d.stamp
                ||| l.displays_notifications && news
            }
            &&& l.displays_time ==> after.stamp == stamp
            &&& !l.displays_time ==> after.stamp == d.stamp
            &&& after.normal == d.normal
            &&& after.touches == d.touches
            &&& after.anim is None
        }),
{
}

/// While a panel slides, each look at everything shows it as far as its slide has
/// come, and has all drawn again; once the slide is over, the panel is in full view
/// where it has expanded, and the layer under it is on where it has collapsed.
pub proof fn look_moves_the_slide_on(d: DaemonView, a: PulloutAnim, now: u64)
    requires
        d.anim == Some(a),
        0 <= a.panel < d.layers.len(),
    ensures
        ({
            let after = d.slid(now);
            let over = now - a.start >= 300_000_000;
            &&& after.redraw
            &&& !over ==> {
                &&& after.anim == d.anim
                &&& after.active == d.active
                &&& after.normal == d.normal
                &&& after.layers[a.panel as int].overlay_reveal == a.revealed(now) as i64
            }
            &&& over ==> {
                &&& after.anim is None
                &&& after.layers[a.panel as int].overlay_reveal == 1_000_000_000
                &&& a.collapsing ==> after.active == a.parent && after.normal == a.parent
                &&& !a.collapsing ==> after.active == d.active && after.normal == d.normal
            }
            &&& after.layers[a.panel as int].buttons == d.layers[a.panel as int].buttons
            &&& forall|j: int|
                0 <= j < d.layers.len() && j != a.panel ==> (#[trigger] after.layers[j])
                    == d.layers[j]
        }),
{
}

/// Nothing is drawn unless everything is to be drawn again or a button of the layer
/// that is on has changed. Once it is drawn, a button that is in view no longer
/// waits, and all other ones stay as they are.
pub proof fn frame_brings_up_to_date(d: DaemonView, s: Surroundings, b: int)
    requires
        d.sound(),
        d.on().overlay_parent is None,
        0 <= b < d.on().buttons.len(),
    ensures
        ({
            let after = d.after_frame(s);
            let idle = !d.redraw && forall|i: int|
                0 <= i < d.on().buttons.len() ==> !(#[trigger] d.on().buttons[i]).1.changed;
            let items = layout(
                d.on(),
                if d.on().displays_notifications {
                    Some(s.notification_mgr)
                } else {
                    None
                },
            );
            &&& idle ==> after == d
            &&& !after.redraw
            &&& (exists|j: int|
                0 <= j < items.len() && #[trigger] items[j].kind == PlaceKind::Button(b)
                    && items[j].start < items[j].end) ==> after.on().buttons[b].1 == (ButtonView {
                changed: false,
                ..d.on().buttons[b].1
            })
            &&& after.active == d.active
            &&& after.touches == d.touches
            &&& forall|j: int|
                0 <= j < d.layers.len() && j != d.active ==> (#[trigger] after.layers[j])
                    == d.layers[j]
        }),
{
    let l = d.on();
    assert(l.wf());
    let scene = layer_scene(l, &d.cfg, d.width, d.height, d.redraws(), s);
    let items = layout(l, scene.notification_mgr);
    drawn_buttons_are_up_to_date(l, scene, b);
    if d.draws() {
        if exists|j: int|
            0 <= j < items.len() && #[trigger] items[j].kind == PlaceKind::Button(b) && items[j].start
                < items[j].end {
            let j = choose|j: int|
                0 <= j < items.len() && #[trigger] items[j].kind == PlaceKind::Button(b)
                    && items[j].start < items[j].end;
            if l.buttons[b].1.changed || d.redraw {
                assert(due(l, items[j], scene.complete_redraw));
            }
        }
    } else {
        assert(!l.buttons[b].1.changed);
    }
}

/// A panel is drawn over the layer that it belongs to, both as a whole; any other
/// layer is drawn by itself, and only what has changed of it where not everything
/// is drawn again.
pub proof fn panel_is_drawn_over_its_layer(
    layers: Seq<LayerView>,
    active: int,
    cfg: Config,
    width: u16,
    height: u16,
    complete: bool,
    s: Surroundings,
    f: Frame,
)
    requires
        framed(layers, active, cfg, width, height, complete, s, f),
    ensures
        match parent_at(layers, active) {
            Some(p) => p != active ==> {
                &&& f.layers@.len() == 2
                &&& f.layers@[0].layer == p
                &&& f.layers@[1].layer == active
                &&& f.complete
                &&& f.clips@.len() == 1
                &&& f.clips@[0].x1 == 0 && f.clips@[0].y1 == 0
                &&& f.clips@[0].x2 == height && f.clips@[0].y2 == width
            },
            None => {
                &&& f.layers@.len() == 1
                &&& f.layers@[0].layer == active
                &&& f.complete == complete
                &&& f.clips@ == f.layers@[0].plan.regions@
            },
        },
{
}

/// What a layer does not display is not drawn with, and the picture is shifted only
/// where that is wanted.
pub proof fn scene_holds_what_the_layer_displays(
    l: LayerView,
    cfg: &Config,
    width: u16,
    height: u16,
    complete: bool,
    s: Surroundings,
)
    ensures
        ({
            let scene = layer_scene(l, cfg, width, height, complete, s);
            &&& scene.width == width && scene.height == height
            &&& scene.complete_redraw == complete
            &&& scene.now == s.now
            &&& scene.ambient == s.ambient
            &&& l.displays_sysinfo ==> scene.sysinfo_mgr == Some(s.sysinfo_mgr)
            &&& !l.displays_sysinfo ==> scene.sysinfo_mgr is None
            &&& l.displays_weather ==> scene.weather_mgr == Some(s.weather_mgr)
            &&& !l.displays_weather ==> scene.weather_mgr is None
            &&& l.displays_notifications ==> scene.notification_mgr == Some(s.notification_mgr)
            &&& !l.displays_notifications ==> scene.notification_mgr is None
            &&& cfg.enable_pixel_shift ==> scene.pixel_shift == s.pixel_shift
            &&& !cfg.enable_pixel_shift ==> scene.pixel_shift == (0i64, 0i64)
        }),
{
}

/// The next look at everything is as far off as the nearest reason for it: the end
/// of the minute, ten seconds, the next shift of the picture, and while they are on
/// show, a second for sliders and for notifications, a twentieth of a second for a
/// finger that rests, and 16 thousandths for a slide.
pub proof fn next_look_has_a_reason(d: DaemonView, second: u32, shift_timeout: i32, now: u64)
    requires
        second < 60,
    ensures
        ({
            let t = d.timeout(second, shift_timeout, now);
            let l = d.on();
            let held = exists|i: int|
                0 <= i < l.buttons.len() && (#[trigger] l.buttons[i]).1.hold_started is Some;
            let slides = d.anim matches Some(a) && now - a.start < 300_000_000;
            let minute = 1_000 * (60 - second);
            &&& t <= minute && t <= 10_000
            &&& d.cfg.enable_pixel_shift ==> t <= shift_timeout
            &&& l.displays_slider ==> t <= 1_000
            &&& l.displays_notifications ==> t <= 1_000
            &&& held ==> t <= 50
            &&& slides ==> t <= 16
            &&& {
                ||| t == minute
                ||| t == 10_000
                ||| d.cfg.enable_pixel_shift && t == shift_timeout
                ||| l.displays_slider && t == 1_000
                ||| l.displays_notifications && t == 1_000
                ||| held && t == 50
                ||| slides && t == 16
            }
        }),
{
}

/// A panel that is called comes from the button that calls it: its slide begins at
/// the left edge of that button, with nothing of it in view; and a panel that goes
/// keeps where it came from.
pub proof fn panel_comes_from_its_button(d: DaemonView, t: Touch, target: int, now: u64)
    requires
        d.sound(),
        d.layers.len() <= usize::MAX,
        0 <= target < d.layers.len(),
        t.layer < d.layers.len(),
        d.layers[target].overlay_parent is Some,
        parent_at(d.layers, target) is Some,
    ensures
        ({
            let after = d.switched(t, target, now);
            let l = d.layers[t.layer as int];
            &&& after.active == target
            &&& after.anim matches Some(a) && a.panel == target && !a.collapsing && a.start == now
            &&& after.layers[target].overlay_reveal == 0
            &&& after.layers[target].overlay_slide_start_x == match button_edge(
                l,
                d.width,
                t.button,
                None,
            ) {
                Some(x) => Some(x as i128),
                None => None,
            }
            &&& after.layers[target].buttons == d.layers[target].buttons
        }),
{
    layer_at_is_first(d.layers, d.layers[target].overlay_parent->0);
}

/// A press of the key for the function keys that follows the last one too slowly
/// swaps nothing; where swapping is wanted and possible, it counts as the first of
/// the next two.
pub proof fn slow_presses_do_not_swap(d: DaemonView, now: u64)
    ensures
        now - d.fn_press >= d.cfg.double_press_switch_layers * 1_000_000 ==> d.keyed(
            true,
            now,
        ).layers == d.layers,
        d.keyed(false, now).layers == d.layers,
        d.keyed(false, now).fn_press == d.fn_press,
        d.cfg.double_press_switch_layers > 0 && d.layers.len() == 2 ==> d.keyed(true, now).fn_press
            == now,
{
}

/// A touch that hits something of a panel goes to the panel, and one that does not
/// goes to the layer that the panel lies over.
pub proof fn touch_beside_a_panel_goes_to_its_layer(
    d: DaemonView,
    x: i64,
    y: i64,
    mgr: &NotificationManager,
)
    ensures
        ({
            let hit = |i: int| hits(
                d.layers[i],
                d.width,
                d.height,
                x,
                y,
                None,
                if d.layers[i].displays_notifications {
                    Some(mgr)
                } else {
                    None
                },
            );
            &&& hit(d.active) matches Some(b) ==> d.struck(x, y, mgr) == Some((d.active, b))
            &&& hit(d.active) is None ==> match parent_at(d.layers, d.active) {
                Some(p) => match hit(p as int) {
                    Some(b) => d.struck(x, y, mgr) == Some((p as int, b)),
                    None => d.struck(x, y, mgr) is None,
                },
                None => d.struck(x, y, mgr) is None,
            }
        }),
{
}

/// A panel and the layer under it are drawn with everything that is known, and as a
/// whole.
pub proof fn whole_scene_holds_everything(cfg: &Config, width: u16, height: u16, s: Surroundings)
    ensures
        ({
            let scene = whole_scene(cfg, width, height, s);
            &&& scene.width == width && scene.height == height
            &&& scene.complete_redraw
            &&& scene.now == s.now
            &&& scene.ambient == s.ambient
            &&& scene.sysinfo_mgr == Some(s.sysinfo_mgr)
            &&& scene.weather_mgr == Some(s.weather_mgr)
            &&& scene.notification_mgr == Some(s.notification_mgr)
            &&& scene.pixel_shift_width == s.pixel_shift_width
            &&& cfg.enable_pixel_shift ==> scene.pixel_shift == s.pixel_shift
            &&& !cfg.enable_pixel_shift ==> scene.pixel_shift == (0i64, 0i64)
        }),
{
}

/// A change of one button has all of a panel drawn again, but of any other layer
/// only that button.
pub proof fn panel_is_drawn_as_a_whole(d: DaemonView, b: int)
    requires
        0 <= b < d.on().buttons.len(),
        d.on().buttons[b].1.changed,
    ensures
        d.draws(),
        d.on().overlay_parent is Some ==> d.redraws(),
        d.on().overlay_parent is None ==> d.redraws() == d.redraw,
{
}

/// Lifting a finger from a button of the notifications sets that button off, unless
/// music is switched to in its place; all but the one that counts have everything
/// drawn again.
pub proof fn lifting_sets_notifications_off(
    d: DaemonView,
    slot: u32,
    now: u64,
    music: bool,
    kind: NotificationButton,
)
    requires
        lifts_from(d, slot, kind),
        d.button_under(slot)->0.toggle_target is None,
    ensures
        d.notification_under(slot, music) == Some(kind),
        kind != NotificationButton::Count ==> d.lifted(slot, now, music).redraw,
        kind == NotificationButton::Count ==> d.lifted(slot, now, music).redraw == d.redraw,
        kind != NotificationButton::Back ==> d.lifted(slot, now, music).active == d.active
            && d.lifted(slot, now, music).normal == d.normal,
        d.lifted(slot, now, music).back == d.back,
{
}

/// Lifting a finger from any other button that toggles to no layer changes that
/// button alone: it is no longer pressed or held.
pub proof fn plain_lift_changes_only_its_button(
    d: DaemonView,
    slot: u32,
    now: u64,
    mgr: &NotificationManager,
    env: Environment,
)
    requires
        d.touch_sound(slot),
        d.button_under(slot) matches Some(b) && !(b.image is Slider) && !(b.image is Notification)
            && !(b.image is LayerToggle) && b.toggle_target is None,
    ensures
        ({
            let t = d.touches[slot];
            let after = d.lifted(slot, now, false);
            let effect = d.lift_effect(slot, now, false, mgr, env);
            let then = after.layers[t.layer as int].buttons[t.button as int].1;
            &&& !then.active
            &&& then.hold_started is None
            &&& then.image == d.button_under(slot)->0.image
            &&& after.active == d.active && after.normal == d.normal && after.back == d.back
            &&& after.redraw == d.redraw
            &&& after.anim == d.anim
            &&& after.touches == d.touches.remove(slot)
            &&& effect.makoctl is None && effect.missing_layer is None && !effect.reload
            &&& effect.touch.slider is None
            &&& forall|i: int, j: int|
                0 <= i < d.layers.len() && 0 <= j < d.layers[i].buttons.len() && (i != t.layer || j
                    != t.button) ==> (#[trigger] after.layers[i].buttons[j])
                    == d.layers[i].buttons[j]
        }),
{
}

/// A finger on an action only counts where it came down: it moves without effect,
/// and all is drawn again when it comes down.
pub proof fn finger_on_an_action_waits(
    d: DaemonView,
    slot: u32,
    x: i64,
    y: i64,
    now: u64,
    mgr: &NotificationManager,
    env: Environment,
)
    requires
        d.anim is None,
        d.layers.len() <= usize::MAX,
    ensures
        d.touches.contains_key(slot) && d.touches[slot].button
            >= d.layers[d.touches[slot].layer as int].buttons.len() ==> {
            &&& d.moved(slot, x, y, now, mgr) == d
            &&& d.move_effect(slot, x, y, now, mgr, env).press.events.len() == 0
            &&& d.move_effect(slot, x, y, now, mgr, env).slider is None
        },
        d.struck(x, y, mgr) matches Some(p) ==> 0 <= p.0 < d.layers.len() && p.1
            >= d.layers[p.0].buttons.len() && p.1 <= usize::MAX ==> {
            let during = d.touched(slot, x, y, now, mgr);
            &&& during.redraw
            &&& during.layers == d.layers
            &&& during.touches.contains_key(slot)
            &&& during.touches[slot].layer == p.0
            &&& during.touches[slot].button == p.1
            &&& d.touch_effect(x, y, now, mgr, env).press.events.len() == 0
            &&& d.touch_effect(x, y, now, mgr, env).slider is None
        },
{
}

/// A panel that is left for the layer under it stays on while it slides out: in full
/// view at first, and to where it came from; until that is over, the layer that the
/// key for the function keys leads back to stays the same.
pub proof fn panel_stays_on_while_it_goes(d: DaemonView, t: Touch, target: int, now: u64)
    requires
        d.sound(),
        d.layers.len() <= usize::MAX,
        0 <= target < d.layers.len(),
        t.layer < d.layers.len(),
        d.layers[target].overlay_parent is None,
        parent_at(d.layers, d.active) == Some(target as nat),
    ensures
        ({
            let after = d.switched(t, target, now);
            &&& after.active == d.active
            &&& after.normal == d.normal
            &&& after.anim matches Some(a) && a.panel == d.active && a.parent == target
                && a.collapsing && a.start == now
            &&& after.layers[d.active].overlay_reveal == 1_000_000_000
            &&& after.layers[d.active].overlay_slide_start_x
                == d.layers[d.active].overlay_slide_start_x
            &&& after.layers[d.active].buttons == d.layers[d.active].buttons
            &&& after.redraw
        }),
{
}

} // verus!
