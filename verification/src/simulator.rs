//! A Touch Bar in a window: the mouse takes the place of fingers.

use vstd::prelude::*;
use vstd::string::*;

use crate::button::{Button, ButtonView, Press};
use crate::command::{text_opt, Environment};
use crate::config::Config;
use crate::daemon::{
    draw_layers, dragged_button, frame_fits, framed, layer_scene, layers_drawn, layers_fit,
    layers_sound, lemma_with_button,
    no_effect, refreshed_button, strike, struck_at, under, whole_scene, Frame, SliderReadings,
    Surroundings, TouchEffect, TouchEffectView,
};
use crate::draw::{after_draw, settled, with_button, Scene};
use crate::keys::{are_keys, check_keys, key_names, print_keys};
use crate::layer::{
    fraction_at, layer_at, layer_at_is_first, layer_index, layers_of, layout,
    layout_is_bounded, FunctionLayer, LayerView, PlaceKind, PlaceView,
};
use crate::notification_manager::NotificationManager;
use crate::slider::{slider_effect_opt, SliderEffect, SliderKind};
use crate::text::{
    decimal, decimal_text, join, join_path, joined, number_up_to, parse_up_to, path_joined, text_of,
    texts, trim, trimmed,
};

verus! {

/// The size of the window where none is asked for.
pub const DEFAULT_WIDTH: usize = 1710;

pub const DEFAULT_HEIGHT: usize = 50;

/// The size that a text like `1710x50` asks for: what stands before the first `x`
/// and what stands behind it.
pub open spec fn size_in(s: Seq<char>) -> Option<(nat, nat)> {
    match cut(s, 'x') {
        Some((w, h)) => match (
            number_up_to(trimmed(w), usize::MAX as nat),
            number_up_to(trimmed(h), usize::MAX as nat),
        ) {
            (Some(a), Some(b)) => Some((a, b)),
            _ => None,
        },
        None => None,
    }
}

/// What stands before the first of a character, and what stands behind it.
pub open spec fn cut(s: Seq<char>, c: char) -> Option<(Seq<char>, Seq<char>)>
    decreases s.len(),
{
    if s.len() == 0 {
        None
    } else if s[0] == c {
        Some((Seq::empty(), s.subrange(1, s.len() as int)))
    } else {
        match cut(s.subrange(1, s.len() as int), c) {
            Some((a, b)) => Some((seq![s[0]] + a, b)),
            None => None,
        }
    }
}

proof fn lemma_cut(s: Seq<char>, c: char, i: int)
    requires
        0 <= i <= s.len(),
        forall|k: int| 0 <= k < i ==> s[k] != c,
    ensures
        i < s.len() && s[i] == c ==> cut(s, c) == Some(
            (s.subrange(0, i), s.subrange(i + 1, s.len() as int)),
        ),
        i == s.len() ==> cut(s, c) is None,
    decreases i,
{
    if i == 0 {
        if s.len() > 0 && s[0] == c {
            assert(s.subrange(0, 0) =~= Seq::empty());
        }
    } else {
        let rest = s.subrange(1, s.len() as int);
        assert forall|k: int| 0 <= k < i - 1 implies rest[k] != c by {
            assert(rest[k] == s[k + 1]);
        }
        lemma_cut(rest, c, i - 1);
        if i < s.len() && s[i] == c {
            assert(rest[i - 1] == s[i]);
            assert(seq![s[0]] + rest.subrange(0, i - 1) =~= s.subrange(0, i));
            assert(rest.subrange(i, rest.len() as int) =~= s.subrange(i + 1, s.len() as int));
        }
    }
}

/// The size of the window, and whether what was asked for is no size.
pub fn window_size(spec: &Option<String>) -> (r: ((usize, usize), bool))
    ensures
        match *spec {
            Some(s) => match size_in(s@) {
                Some(size) => (r.0).0 == size.0 && (r.0).1 == size.1 && !r.1,
                None => r.0 == (DEFAULT_WIDTH, DEFAULT_HEIGHT) && r.1,
            },
            None => r.0 == (DEFAULT_WIDTH, DEFAULT_HEIGHT) && !r.1,
        },
{
    match spec {
        Some(s) => match read_size(s.as_str()) {
            Some(size) => (size, false),
            None => ((DEFAULT_WIDTH, DEFAULT_HEIGHT), true),
        },
        None => ((DEFAULT_WIDTH, DEFAULT_HEIGHT), false),
    }
}

/// Reads a size.
fn read_size(s: &str) -> (r: Option<(usize, usize)>)
    ensures
        match r {
            Some(p) => size_in(s@) == Some((p.0 as nat, p.1 as nat)),
            None => size_in(s@) is None,
        },
{
    let v = crate::text::chars(s);
    let n = v.len();
    let mut i: usize = 0;
    while i < n && v[i] != 'x'
        invariant
            i <= n,
            n == v@.len(),
            forall|k: int| 0 <= k < i ==> v@[k] != 'x',
        decreases n - i,
    {
        i += 1;
    }
    proof {
        lemma_cut(v@, 'x', i as int);
    }
    if i == n {
        return None;
    }
    let w = text_of(&v, 0, i);
    let h = text_of(&v, i + 1, n);
    let w = trim(w.as_str());
    let h = trim(h.as_str());
    match (
        parse_up_to(w.as_str(), usize::MAX as u64),
        parse_up_to(h.as_str(), usize::MAX as u64),
    ) {
        (Some(a), Some(b)) => Some((a as usize, b as usize)),
        _ => None,
    }
}

/// Where the files that come with the program may be: below the working directory,
/// if there is one, below where it was built, and where it is installed.
pub open spec fn share_dirs(cwd: Option<Seq<char>>, built: Seq<char>) -> Seq<Seq<char>> {
    let rest = seq![path_joined(built, "share/tiny-dfr"@), "/usr/share/tiny-dfr"@];
    match cwd {
        Some(d) => seq![path_joined(d, "share/tiny-dfr"@)] + rest,
        None => rest,
    }
}

/// Lists where the files that come with the program may be. The first place that
/// holds a configuration is taken.
pub fn share_candidates(cwd: &Option<String>, built: &str) -> (r: Vec<String>)
    ensures
        texts(r@) == share_dirs(text_opt(*cwd), built@),
{
    let mut r: Vec<String> = Vec::new();
    match cwd {
        Some(d) => {
            r.push(join_path(d.as_str(), "share/tiny-dfr"));
        },
        None => {},
    }
    r.push(join_path(built, "share/tiny-dfr"));
    r.push("/usr/share/tiny-dfr".to_owned());
    assert(texts(r@) =~= share_dirs(text_opt(*cwd), built@));
    r
}

/// The pixel that a window shows at a place, from the bytes of a picture that lies
/// on its side: blue, green and red, the lowest first.
pub open spec fn shown_pixel(data: Seq<u8>, stride: int, height: int, x: int, y: int) -> int {
    let at = x * stride + (height - 1 - y) * 4;
    data[at] + data[at + 1] * 256 + data[at + 2] * 65536
}

/// The pixels of a window, row by row.
pub open spec fn shown_pixels(data: Seq<u8>, stride: int, width: int, height: int) -> Seq<u32> {
    Seq::new(
        (width * height) as nat,
        |i: int| shown_pixel(data, stride, height, i % width, i / width) as u32,
    )
}

/// Turns a picture that lies on its side upright, for a window.
pub fn blit(data: &[u8], stride: usize, width: usize, height: usize) -> (r: Vec<u32>)
    requires
        height * 4 <= stride,
        width * stride <= data@.len(),
        width * height <= usize::MAX,
    ensures
        r@ == shown_pixels(data@, stride as int, width as int, height as int),
{
    let mut buf: Vec<u32> = Vec::new();
    let len = data.len();
    let mut y: usize = 0;
    while y < height
        invariant
            y <= height,
            height * 4 <= stride,
            len == data@.len(),
            width * stride <= len,
            width * height <= usize::MAX,
            buf@.len() == y * width,
            forall|i: int|
                0 <= i < buf@.len() ==> (#[trigger] buf@[i]) == shown_pixels(
                    data@,
                    stride as int,
                    width as int,
                    height as int,
                )[i],
        decreases height - y,
    {
        let col: usize = height - 1 - y;
        let mut x: usize = 0;
        while x < width
            invariant
                x <= width,
                y < height,
                col == height - 1 - y,
                height * 4 <= stride,
                len == data@.len(),
                width * stride <= len,
                width * height <= usize::MAX,
                buf@.len() == y * width + x,
                forall|i: int|
                    0 <= i < buf@.len() ==> (#[trigger] buf@[i]) == shown_pixels(
                        data@,
                        stride as int,
                        width as int,
                        height as int,
                    )[i],
            decreases width - x,
        {
            proof {
                assert(0 <= x * stride && x * stride + stride <= width * stride) by (nonlinear_arith)
                    requires
                        x < width,
                ;
                let i = y * width + x;
                assert(i < width * height && i % (width as int) == x && i / (width as int) == y)
                    by (nonlinear_arith)
                    requires
                        0 <= x < width,
                        0 <= y < height,
                        i == y * width + x,
                ;
            }
            let at: usize = x * stride + col * 4;
            let blue: u32 = data[at] as u32;
            let green: u32 = data[at + 1] as u32;
            let red: u32 = data[at + 2] as u32;
            buf.push(blue + green * 256 + red * 65536);
            x += 1;
        }
        assert((y + 1) * width == y * width + width) by (nonlinear_arith);
        y += 1;
    }
    assert(height * width == width * height) by (nonlinear_arith);
    assert(buf@ =~= shown_pixels(data@, stride as int, width as int, height as int));
    buf
}

/// The layers with their numbers, as they are listed for the user.
pub open spec fn layer_names(layers: Seq<LayerView>) -> Seq<Seq<char>> {
    Seq::new(
        layers.len(),
        |i: int| "["@ + decimal((i + 1) as nat) + "] "@ + layers[i].name,
    )
}

/// Lists the layers with their numbers.
pub fn layer_list(layers: &[FunctionLayer]) -> (r: String)
    ensures
        r@ == joined(layer_names(layers_of(layers@)), "  "@),
{
    let mut parts: Vec<String> = Vec::new();
    let n = layers.len();
    let mut i: usize = 0;
    while i < n
        invariant
            i <= n,
            n == layers@.len(),
            parts@.len() == i,
            forall|k: int|
                0 <= k < i ==> (#[trigger] parts@[k])@ == layer_names(layers_of(layers@))[k],
        decreases n - i,
    {
        let mut s = "[".to_owned();
        s.append(decimal_text(i as u64 + 1).as_str());
        s.append("] ");
        s.append(layers[i].name.as_str());
        parts.push(s);
        i += 1;
    }
    assert(texts(parts@) =~= layer_names(layers_of(layers@)));
    join(&parts, "  ")
}

/// What a press of a button does, in words: the keys that it sends, or the command
/// that it runs.
pub open spec fn label_of(b: ButtonView) -> Seq<char> {
    if b.action.len() > 0 {
        "["@ + joined(key_names(b.action), ", "@) + "]"@
    } else {
        match b.command {
            Some(c) => "command `"@ + c + "`"@,
            None => "(no action)"@,
        }
    }
}

/// Tells what a press of a button does.
pub fn button_label(button: &Button) -> (r: String)
    requires
        are_keys(button.action@),
    ensures
        r@ == label_of(button@),
{
    if button.action.len() > 0 {
        let names = print_keys(&button.action);
        let mut s = "[".to_owned();
        s.append(join(&names, ", ").as_str());
        s.append("]");
        s
    } else {
        match &button.command {
            Some(c) => {
                let mut s = "command `".to_owned();
                s.append(c.as_str());
                s.append("`");
                s
            },
            None => "(no action)".to_owned(),
        }
    }
}

/// What is held down with the mouse: a button of a layer, which may be a slider.
#[derive(Clone, Copy, PartialEq, Eq, Structural, Debug)]
pub struct Held {
    pub layer: usize,
    pub button: usize,
    pub slider: bool,
}

/// The state of the window.
pub struct Simulator {
    pub layers: Vec<FunctionLayer>,
    /// The layer with the function keys, if there is one.
    pub fkeys: Option<usize>,
    pub selected: usize,
    pub held: Option<Held>,
    pub was_down: bool,
}

/// The mathematical counterpart of [`Simulator`].
#[verifier::ext_equal]
pub struct SimulatorView {
    pub layers: Seq<LayerView>,
    pub fkeys: Option<usize>,
    pub selected: int,
    pub held: Option<Held>,
    pub was_down: bool,
}

impl View for Simulator {
    type V = SimulatorView;

    open spec fn view(&self) -> SimulatorView {
        SimulatorView {
            layers: layers_of(self.layers@),
            fkeys: self.fkeys,
            selected: self.selected as int,
            held: self.held,
            was_down: self.was_down,
        }
    }
}

/// What the mouse asks to be done, and what to write about a press.
pub struct MouseEffect {
    pub touch: TouchEffect,
    pub label: Option<String>,
}

/// The mathematical counterpart of [`MouseEffect`].
#[verifier::ext_equal]
pub struct MouseEffectView {
    pub touch: TouchEffectView,
    pub label: Option<Seq<char>>,
}

impl View for MouseEffect {
    type V = MouseEffectView;

    open spec fn view(&self) -> MouseEffectView {
        MouseEffectView { touch: self.touch@, label: text_opt(self.label) }
    }
}

/// Every action is one of keys.
pub open spec fn actions_are_keys(layers: Seq<LayerView>) -> bool {
    forall|l: int, b: int|
        0 <= l < layers.len() && 0 <= b < layers[l].buttons.len() ==> are_keys(
            (#[trigger] layers[l].buttons[b]).1.action,
        )
}

/// The name of a kind of slider.
pub open spec fn kind_name(kind: SliderKind) -> Seq<char> {
    match kind {
        SliderKind::DisplayBrightness => "slider DisplayBrightness"@,
        SliderKind::KeyboardBacklight => "slider KeyboardBacklight"@,
        SliderKind::Volume => "slider Volume"@,
    }
}

/// Where the mouse is, and on a layer of what size.
pub struct Pointer {
    pub active: usize,
    pub width: u16,
    pub height: u16,
    pub at: Option<(i64, i64)>,
}

impl SimulatorView {
    /// The layers are valid, and what is selected or held is among them.
    pub open spec fn sound(self) -> bool {
        &&& layers_sound(self.layers)
        &&& actions_are_keys(self.layers)
        &&& 0 <= self.selected < self.layers.len()
        &&& self.fkeys matches Some(f) ==> f < self.layers.len()
        &&& self.held matches Some(h) ==> h.layer < self.layers.len() && h.button
            < self.layers[h.layer as int].buttons.len() && (h.slider
            == self.layers[h.layer as int].buttons[h.button as int].1.slider() is Some)
    }

    /// The layer that is on: the one with the function keys while the key for it is
    /// down, and the selected one otherwise.
    pub open spec fn on(self, control: bool) -> int {
        match self.fkeys {
            Some(f) => if control {
                f as int
            } else {
                self.selected
            },
            None => self.selected,
        }
    }

    /// The state with a button in another state.
    pub open spec fn with_button(self, layer: int, button: int, b: ButtonView) -> SimulatorView {
        SimulatorView {
            layers: self.layers.update(layer, with_button(self.layers[layer], button, b)),
            ..self
        }
    }

    /// The button that the mouse goes down on.
    pub open spec fn struck(self, p: Pointer, mgr: &NotificationManager) -> Option<(int, int)> {
        match p.at {
            Some(at) => match struck_at(
                self.layers,
                p.active as int,
                p.width,
                p.height,
                at.0,
                at.1,
                mgr,
            ) {
                Some((layer, place)) => if place < self.layers[layer].buttons.len() {
                    Some((layer, place))
                } else {
                    None
                },
                None => None,
            },
            None => None,
        }
    }

    /// The state after the mouse went down: a button is pressed, or a slider
    /// dragged.
    pub open spec fn pressed(self, p: Pointer, now: u64, mgr: &NotificationManager) -> SimulatorView {
        match self.struck(p, mgr) {
            Some((layer, place)) => {
                let l = self.layers[layer];
                let b = l.buttons[place].1;
                let slider = b.slider() is Some;
                SimulatorView {
                    held: Some(Held { layer: layer as usize, button: place as usize, slider }),
                    ..self.with_button(
                        layer,
                        place,
                        if slider {
                            dragged_button(l, p.width, place, (p.at->0).0, now)
                        } else {
                            b.with_active(true)
                        },
                    )
                }
            },
            None => self,
        }
    }

    /// The state after the mouse moved while it was down: a slider follows it.
    pub open spec fn dragged(self, p: Pointer, now: u64) -> SimulatorView {
        match (self.held, p.at) {
            (Some(h), Some(at)) => if h.slider {
                self.with_button(
                    h.layer as int,
                    h.button as int,
                    dragged_button(
                        self.layers[h.layer as int],
                        p.width,
                        h.button as int,
                        at.0,
                        now,
                    ),
                )
            } else {
                self
            },
            _ => self,
        }
    }

    /// The state after the mouse went up: a button is released, and may select
    /// another layer.
    pub open spec fn released(self, now: u64) -> SimulatorView {
        match self.held {
            Some(h) => {
                let b = self.layers[h.layer as int].buttons[h.button as int].1;
                let gone = SimulatorView { held: None, ..self };
                match b.slider() {
                    Some(s) => gone.with_button(
                        h.layer as int,
                        h.button as int,
                        b.with_slider(s.committed(now)),
                    ),
                    None => {
                        let up = gone.with_button(
                            h.layer as int,
                            h.button as int,
                            b.with_active(false),
                        );
                        match b.target() {
                            Some(name) => match layer_at(up.layers, name) {
                                Some(i) => SimulatorView { selected: i as int, ..up },
                                None => up,
                            },
                            None => up,
                        }
                    },
                }
            },
            None => self,
        }
    }

    /// The state after a look at the mouse.
    pub open spec fn moused(
        self,
        p: Pointer,
        down: bool,
        now: u64,
        mgr: &NotificationManager,
    ) -> SimulatorView {
        let next = if down && !self.was_down {
            self.pressed(p, now, mgr)
        } else if down {
            self.dragged(p, now)
        } else if self.was_down {
            self.released(now)
        } else {
            self
        };
        SimulatorView { was_down: down, ..next }
    }

    /// What a look at the mouse asks to be done.
    pub open spec fn mouse_effect(
        self,
        p: Pointer,
        down: bool,
        now: u64,
        mgr: &NotificationManager,
        env: Environment,
    ) -> MouseEffectView {
        let nothing = MouseEffectView { touch: no_effect(), label: None };
        if down && !self.was_down {
            match self.struck(p, mgr) {
                Some((layer, place)) => {
                    let l = self.layers[layer];
                    let b = l.buttons[place].1;
                    match b.slider() {
                        Some(s) => MouseEffectView {
                            touch: TouchEffectView {
                                slider: s.drag_effect(
                                    fraction_at(l, p.width, place, (p.at->0).0),
                                    now,
                                ),
                                ..no_effect()
                            },
                            label: Some(kind_name(s.kind)),
                        },
                        None => MouseEffectView {
                            touch: TouchEffectView { press: b.press(true, env), ..no_effect() },
                            label: Some(label_of(b)),
                        },
                    }
                },
                None => nothing,
            }
        } else if down {
            match (self.held, p.at) {
                (Some(h), Some(at)) => {
                    let l = self.layers[h.layer as int];
                    match l.buttons[h.button as int].1.slider() {
                        Some(s) => MouseEffectView {
                            touch: TouchEffectView {
                                slider: s.drag_effect(
                                    fraction_at(l, p.width, h.button as int, at.0),
                                    now,
                                ),
                                ..no_effect()
                            },
                            label: None,
                        },
                        None => nothing,
                    }
                },
                _ => nothing,
            }
        } else if self.was_down {
            match self.held {
                Some(h) => {
                    let b = self.layers[h.layer as int].buttons[h.button as int].1;
                    MouseEffectView {
                        touch: match b.slider() {
                            Some(s) => TouchEffectView { slider: s.commit_effect(), ..no_effect() },
                            None => TouchEffectView { press: b.press(false, env), ..no_effect() },
                        },
                        label: None,
                    }
                },
                None => nothing,
            }
        } else {
            nothing
        }
    }
}

/// What is written about a press.
pub open spec fn press_text(label: Seq<char>, functional: bool) -> Seq<char> {
    if functional {
        "press: "@ + label
    } else {
        "press (preview): "@ + label
    }
}

/// Tells of a press, and whether its keys are sent.
pub fn press_line(label: &str, functional: bool) -> (r: String)
    ensures
        r@ == press_text(label@, functional),
{
    let mut s = if functional {
        "press: ".to_owned()
    } else {
        "press (preview): ".to_owned()
    };
    s.append(label);
    s
}

/// A state stays sound with a valid button in place of another, if it is a slider
/// like that and has its action.
proof fn lemma_button_swap(d: SimulatorView, layer: int, button: int, b: ButtonView)
    requires
        d.sound(),
        0 <= layer < d.layers.len(),
        0 <= button < d.layers[layer].buttons.len(),
        b.wf(),
        b.action == d.layers[layer].buttons[button].1.action,
        b.slider() is Some == d.layers[layer].buttons[button].1.slider() is Some,
    ensures
        d.with_button(layer, button, b).sound(),
{
    let next = d.with_button(layer, button, b);
    assert(d.layers[layer].wf());
    lemma_with_button(d.layers[layer], button, b);
    assert forall|i: int| 0 <= i < next.layers.len() implies (#[trigger] next.layers[i]).wf() by {
        assert(d.layers[i].wf());
    }
    assert forall|l: int, k: int|
        0 <= l < next.layers.len() && 0 <= k < next.layers[l].buttons.len() implies are_keys(
        (#[trigger] next.layers[l].buttons[k]).1.action,
    ) by {
        assert(are_keys(d.layers[l].buttons[k].1.action));
    }
}

/// Whether every action is one of keys.
pub fn check_actions(layers: &Vec<FunctionLayer>) -> (r: bool)
    ensures
        r == actions_are_keys(layers_of(layers@)),
{
    let ghost all = layers_of(layers@);
    let n = layers.len();
    let mut l: usize = 0;
    while l < n
        invariant
            l <= n,
            n == layers@.len(),
            all == layers_of(layers@),
            forall|i: int, b: int|
                0 <= i < l && 0 <= b < all[i].buttons.len() ==> are_keys(
                    (#[trigger] all[i].buttons[b]).1.action,
                ),
        decreases n - l,
    {
        let m = layers[l].buttons.len();
        let mut b: usize = 0;
        while b < m
            invariant
                l < n,
                n == layers@.len(),
                b <= m,
                m == layers@[l as int].buttons@.len(),
                all == layers_of(layers@),
                forall|i: int, k: int|
                    0 <= i < l && 0 <= k < all[i].buttons.len() ==> are_keys(
                        (#[trigger] all[i].buttons[k]).1.action,
                    ),
                forall|k: int|
                    0 <= k < b ==> are_keys((#[trigger] all[l as int].buttons[k]).1.action),
            decreases m - b,
        {
            assert(all[l as int].buttons[b as int].1 == layers@[l as int].buttons@[b as int].1@);
            if !check_keys(&layers[l].buttons[b].1.action) {
                return false;
            }
            b += 1;
        }
        l += 1;
    }
    true
}

/// A layer with its sliders read, where it has any.
pub open spec fn sliders_read(l: LayerView, now: u64, r: SliderReadings) -> LayerView {
    LayerView {
        buttons: Seq::new(
            l.buttons.len(),
            |i: int|
                (
                    l.buttons[i].0,
                    refreshed_button(l.buttons[i].1, l.displays_slider, false, now, r),
                ),
        ),
        ..l
    }
}

impl FunctionLayer {
    /// Reads the sliders, where sliders are on show.
    fn read_sliders(&mut self, now: u64, r: &SliderReadings)
        requires
            old(self)@.wf(),
        ensures
            final(self)@ == sliders_read(old(self)@, now, *r),
            final(self)@.wf(),
    {
        let ghost l = self@;
        let sliders = self.displays_slider;
        let n = self.buttons.len();
        let mut i: usize = 0;
        while i < n
            invariant
                i <= n,
                n == self.buttons@.len(),
                n == l.buttons.len(),
                sliders == l.displays_slider,
                l.wf(),
                self@ == (LayerView { buttons: self@.buttons, ..l }),
                forall|k: int|
                    0 <= k < i ==> (#[trigger] self@.buttons[k]) == (
                        l.buttons[k].0,
                        refreshed_button(l.buttons[k].1, sliders, false, now, *r),
                    ) && self@.buttons[k].1.wf(),
                forall|k: int| i <= k < n ==> (#[trigger] self@.buttons[k]) == l.buttons[k],
            decreases n - i,
        {
            let ghost before = self@;
            assert(self@.buttons[i as int] == l.buttons[i as int]);
            assert(l.buttons[i as int].1.wf());
            assert(self.buttons@[i as int].1@ == l.buttons[i as int].1);
            self.buttons[i].1.look(sliders, false, now, r);
            assert(self@.buttons =~= before.buttons.update(
                i as int,
                (
                    l.buttons[i as int].0,
                    refreshed_button(l.buttons[i as int].1, sliders, false, now, *r),
                ),
            ));
            i += 1;
        }
        proof {
            let next = self@;
            assert(next.buttons =~= sliders_read(l, now, *r).buttons);
            assert forall|k: int, j: int| 0 <= k <= j < next.buttons.len() implies (
            #[trigger] next.buttons[k]).0 <= (#[trigger] next.buttons[j]).0 by {
                assert(l.buttons[k].0 <= l.buttons[j].0);
            }
            assert forall|k: int| 0 <= k < next.buttons.len() implies 0 <= (
            #[trigger] next.buttons[k]).0 <= next.virtual_button_count && next.buttons[k].1.wf() by {
                assert(l.buttons[k].1.wf());
            }
        }
    }
}

/// Drawing keeps the keys of buttons, and which of them are sliders.
proof fn lemma_drawn(
    d: SimulatorView,
    active: int,
    cfg: Config,
    width: u16,
    height: u16,
    s: Surroundings,
)
    requires
        d.sound(),
        0 <= active < d.layers.len(),
    ensures
        ({
            let layers = layers_drawn(d.layers, active, cfg, width, height, true, s);
            layers_sound(layers) ==> (SimulatorView { layers, ..d }).sound()
        }),
{
    let layers = layers_drawn(d.layers, active, cfg, width, height, true, s);
    if d.layers[active].is_panel() {
        layer_at_is_first(d.layers, d.layers[active].overlay_parent->0);
    }
    assert(layers.len() == d.layers.len());
    assert forall|i: int| 0 <= i < layers.len() implies same_buttons(
        d.layers[i],
        #[trigger] layers[i],
    ) by {
        match under(d.layers, active) {
            Some(p) => {
                let scene = whole_scene(&cfg, width, height, s);
                lemma_draw_keeps(d.layers[p], scene);
                lemma_draw_keeps(d.layers[active], scene);
            },
            None => {
                lemma_draw_keeps(
                    d.layers[active],
                    layer_scene(d.layers[active], &cfg, width, height, true, s),
                );
            },
        }
    }
    if layers_sound(layers) {
        assert forall|l: int, k: int|
            0 <= l < layers.len() && 0 <= k < layers[l].buttons.len() implies are_keys(
            (#[trigger] layers[l].buttons[k]).1.action,
        ) by {
            assert(same_buttons(d.layers[l], layers[l]));
            assert(are_keys(d.layers[l].buttons[k].1.action));
        }
        match d.held {
            Some(h) => {
                assert(same_buttons(d.layers[h.layer as int], layers[h.layer as int]));
            },
            None => {},
        }
    }
}

/// Two layers have buttons with the same keys, and the same of them are sliders.
spec fn same_buttons(a: LayerView, b: LayerView) -> bool {
    &&& a.buttons.len() == b.buttons.len()
    &&& forall|k: int|
        0 <= k < a.buttons.len() ==> (#[trigger] b.buttons[k]).1.action == a.buttons[k].1.action
            && b.buttons[k].1.slider() == a.buttons[k].1.slider()
}

proof fn lemma_draw_keeps(l: LayerView, s: Scene)
    requires
        l.wf(),
    ensures
        same_buttons(l, after_draw(l, s)),
{
    let items = layout(l, s.notification_mgr);
    layout_is_bounded(l, s.notification_mgr);
    lemma_settled_keeps(l, items, items.len(), s.complete_redraw);
}

proof fn lemma_settled_keeps(l: LayerView, items: Seq<PlaceView>, k: nat, complete: bool)
    requires
        k <= items.len(),
        forall|j: int|
            0 <= j < items.len() ==> match (#[trigger] items[j]).kind {
                PlaceKind::Button(b) => 0 <= b < l.buttons.len(),
                PlaceKind::Action(_) => true,
            },
    ensures
        same_buttons(l, settled(l, items, k, complete)),
    decreases k,
{
    if k > 0 {
        lemma_settled_keeps(l, items, (k - 1) as nat, complete);
    }
}

impl Simulator {
    /// Starts with the layer of a name selected, or the first one.
    pub fn new(layers: Vec<FunctionLayer>, default_layer: &str) -> (r: Simulator)
        requires
            layers_sound(layers_of(layers@)),
            actions_are_keys(layers_of(layers@)),
        ensures
            r@.sound(),
            r@ == (SimulatorView {
                layers: layers_of(layers@),
                fkeys: match layer_at(layers_of(layers@), "FKeys"@) {
                    Some(i) => Some(i as usize),
                    None => None,
                },
                selected: match layer_at(layers_of(layers@), default_layer@) {
                    Some(i) => i as int,
                    None => 0,
                },
                held: None,
                was_down: false,
            }),
    {
        let fkeys = layer_index(layers.as_slice(), "FKeys");
        let selected = match layer_index(layers.as_slice(), default_layer) {
            Some(i) => i,
            None => 0,
        };
        Simulator { layers, fkeys, selected, held: None, was_down: false }
    }

    /// Selects a layer by its number, counted from zero, if there is one.
    pub fn select(&mut self, i: usize)
        requires
            old(self)@.sound(),
        ensures
            final(self)@.sound(),
            final(self)@ == (SimulatorView {
                selected: if i < old(self)@.layers.len() {
                    i as int
                } else {
                    old(self)@.selected
                },
                ..old(self)@
            }),
    {
        if i < self.layers.len() {
            self.selected = i;
        }
    }

    /// The layer that is on.
    pub fn active(&self, control: bool) -> (r: usize)
        requires
            self@.sound(),
        ensures
            r == self@.on(control),
            r < self.layers@.len(),
    {
        match self.fkeys {
            Some(f) => if control {
                f
            } else {
                self.selected
            },
            None => self.selected,
        }
    }

    /// Drags a slider to where the mouse is.
    fn drag(&mut self, layer: usize, button: usize, width: u16, x: i64, now: u64) -> (r: Option<
        SliderEffect,
    >)
        requires
            old(self)@.sound(),
            layer < old(self).layers@.len(),
            button < old(self)@.layers[layer as int].buttons.len(),
        ensures
            ({
                let l = old(self)@.layers[layer as int];
                &&& final(self)@ == old(self)@.with_button(
                    layer as int,
                    button as int,
                    dragged_button(l, width, button as int, x, now),
                )
                &&& slider_effect_opt(r) == match l.buttons[button as int].1.slider() {
                    Some(s) => s.drag_effect(fraction_at(l, width, button as int, x), now),
                    None => None,
                }
            }),
            final(self)@.sound(),
    {
        let ghost d = self@;
        assert(d.layers[layer as int] == self.layers@[layer as int]@);
        assert(d.layers[layer as int].wf());
        let r = self.layers[layer].drag_button(button, width, x, now);
        proof {
            let next = self.layers@[layer as int]@;
            assert(layers_of(self.layers@) =~= d.layers.update(layer as int, next));
            let b = dragged_button(d.layers[layer as int], width, button as int, x, now);
            assert(next.buttons[button as int].1 == b && b.wf());
            lemma_button_swap(d, layer as int, button as int, b);
        }
        r
    }

    /// Presses or releases a button.
    fn press(&mut self, layer: usize, button: usize, active: bool, env: &Environment) -> (r: Press)
        requires
            old(self)@.sound(),
            layer < old(self).layers@.len(),
            button < old(self)@.layers[layer as int].buttons.len(),
        ensures
            ({
                let b = old(self)@.layers[layer as int].buttons[button as int].1;
                &&& final(self)@ == old(self)@.with_button(
                    layer as int,
                    button as int,
                    b.with_active(active),
                )
                &&& r@ == b.press(active, *env)
            }),
            final(self)@.sound(),
    {
        let ghost d = self@;
        assert(d.layers[layer as int] == self.layers@[layer as int]@);
        assert(d.layers[layer as int].wf());
        let r = self.layers[layer].press_button(button, active, env);
        proof {
            let next = self.layers@[layer as int]@;
            assert(layers_of(self.layers@) =~= d.layers.update(layer as int, next));
            let b = d.layers[layer as int].buttons[button as int].1.with_active(active);
            assert(next.buttons[button as int].1 == b && b.wf());
            lemma_button_swap(d, layer as int, button as int, b);
        }
        r
    }

    /// Ends the drag of a slider.
    fn commit(&mut self, layer: usize, button: usize, now: u64) -> (r: Option<SliderEffect>)
        requires
            old(self)@.sound(),
            layer < old(self).layers@.len(),
            button < old(self)@.layers[layer as int].buttons.len(),
            old(self)@.layers[layer as int].buttons[button as int].1.slider() is Some,
        ensures
            ({
                let b = old(self)@.layers[layer as int].buttons[button as int].1;
                let s = b.slider()->0;
                &&& final(self)@ == old(self)@.with_button(
                    layer as int,
                    button as int,
                    b.with_slider(s.committed(now)),
                )
                &&& slider_effect_opt(r) == s.commit_effect()
            }),
            final(self)@.sound(),
    {
        let ghost d = self@;
        assert(d.layers[layer as int] == self.layers@[layer as int]@);
        assert(d.layers[layer as int].wf());
        let r = self.layers[layer].commit_button(button, now);
        proof {
            let next = self.layers@[layer as int]@;
            assert(layers_of(self.layers@) =~= d.layers.update(layer as int, next));
            let old_b = d.layers[layer as int].buttons[button as int].1;
            let b = old_b.with_slider(old_b.slider()->0.committed(now));
            assert(next.buttons[button as int].1 == b && b.wf());
            lemma_button_swap(d, layer as int, button as int, b);
        }
        r
    }

    /// Reads the sliders of a layer, where it has any.
    pub fn refresh_sliders(&mut self, active: usize, now: u64, r: &SliderReadings)
        requires
            old(self)@.sound(),
            active < old(self).layers@.len(),
        ensures
            final(self)@.sound(),
            final(self)@ == (SimulatorView {
                layers: old(self)@.layers.update(
                    active as int,
                    sliders_read(old(self)@.layers[active as int], now, *r),
                ),
                ..old(self)@
            }),
    {
        let ghost d = self@;
        let ghost l = d.layers[active as int];
        assert(l == self.layers@[active as int]@);
        assert(l.wf());
        self.layers[active].read_sliders(now, r);
        proof {
            let next = self@;
            let m = sliders_read(l, now, *r);
            assert(next.layers =~= d.layers.update(active as int, m));
            assert forall|i: int| 0 <= i < next.layers.len() implies (#[trigger] next.layers[i]).wf() by {
                assert(d.layers[i].wf());
            }
            assert forall|i: int, k: int|
                0 <= i < next.layers.len() && 0 <= k < next.layers[i].buttons.len() implies are_keys(
                (#[trigger] next.layers[i].buttons[k]).1.action,
            ) by {
                assert(are_keys(d.layers[i].buttons[k].1.action));
            }
        }
    }

    /// Whether the places of the layers that are drawn are few enough for a memory to
    /// hold them.
    pub fn can_draw(&self, active: usize, mgr: &NotificationManager) -> (r: bool)
        requires
            self@.sound(),
            active < self.layers@.len(),
        ensures
            r == frame_fits(self@.layers, active as int, mgr),
    {
        layers_fit(self.layers.as_slice(), active, mgr)
    }

    /// Plans how the layer that is on is drawn, and notes that it was.
    pub fn frame(&mut self, active: usize, cfg: &Config, width: u16, height: u16, s: &Surroundings) -> (r:
        Frame)
        requires
            old(self)@.sound(),
            active < old(self).layers@.len(),
            frame_fits(old(self)@.layers, active as int, s.notification_mgr),
        ensures
            final(self)@.sound(),
            framed(old(self)@.layers, active as int, *cfg, width, height, true, *s, r),
            final(self)@ == (SimulatorView {
                layers: layers_drawn(
                    old(self)@.layers,
                    active as int,
                    *cfg,
                    width,
                    height,
                    true,
                    *s,
                ),
                ..old(self)@
            }),
    {
        let ghost d = self@;
        let f = draw_layers(&mut self.layers, active, cfg, width, height, true, s);
        proof {
            lemma_drawn(d, active as int, *cfg, width, height, *s);
        }
        f
    }

    /// Takes a look at the mouse. What comes back is to be done.
    pub fn mouse(
        &mut self,
        p: &Pointer,
        down: bool,
        now: u64,
        mgr: &NotificationManager,
        env: &Environment,
    ) -> (r: MouseEffect)
        requires
            old(self)@.sound(),
            p.active < old(self).layers@.len(),
        ensures
            final(self)@.sound(),
            final(self)@ == old(self)@.moused(*p, down, now, mgr),
            r@ == old(self)@.mouse_effect(*p, down, now, mgr, *env),
    {
        let was_down = self.was_down;
        let r = if down && !was_down {
            self.mouse_down(p, now, mgr, env)
        } else if down {
            self.mouse_move(p, now)
        } else if was_down {
            self.mouse_up(now, env)
        } else {
            MouseEffect { touch: TouchEffect { press: Press::none(), slider: None }, label: None }
        };
        self.was_down = down;
        r
    }

    /// Takes note that the mouse went down.
    fn mouse_down(
        &mut self,
        p: &Pointer,
        now: u64,
        mgr: &NotificationManager,
        env: &Environment,
    ) -> (r: MouseEffect)
        requires
            old(self)@.sound(),
            !old(self).was_down,
            p.active < old(self).layers@.len(),
        ensures
            final(self)@.sound(),
            final(self)@ == old(self)@.pressed(*p, now, mgr),
            r@ == old(self)@.mouse_effect(*p, true, now, mgr, *env),
    {
        let ghost d = self@;
        let found = match p.at {
            Some(at) => strike(
                self.layers.as_slice(),
                p.active,
                p.width,
                p.height,
                at.0,
                at.1,
                mgr,
            ),
            None => None,
        };
        match (found, p.at) {
            (Some(hit), Some(at)) => {
                let (layer, place) = hit;
                assert(d.layers[layer as int] == self.layers@[layer as int]@);
                if place < self.layers[layer].buttons.len() {
                    assert(d.layers[layer as int].buttons[place as int].1
                        == self.layers@[layer as int].buttons@[place as int].1@);
                    let kind = self.layers[layer].buttons[place].1.slider_kind();
                    match kind {
                        Some(kind) => {
                            let slider = self.drag(layer, place, p.width, at.0, now);
                            self.held = Some(Held { layer, button: place, slider: true });
                            let label = match kind {
                                SliderKind::DisplayBrightness => "slider DisplayBrightness",
                                SliderKind::KeyboardBacklight => "slider KeyboardBacklight",
                                SliderKind::Volume => "slider Volume",
                            };
                            return MouseEffect {
                                touch: TouchEffect { press: Press::none(), slider },
                                label: Some(label.to_owned()),
                            };
                        },
                        None => {
                            assert(are_keys(d.layers[layer as int].buttons[place as int].1.action));
                            let label = button_label(&self.layers[layer].buttons[place].1);
                            let press = self.press(layer, place, true, env);
                            self.held = Some(Held { layer, button: place, slider: false });
                            return MouseEffect {
                                touch: TouchEffect { press, slider: None },
                                label: Some(label),
                            };
                        },
                    }
                }
            },
            _ => {},
        }
        MouseEffect { touch: TouchEffect { press: Press::none(), slider: None }, label: None }
    }

    /// Takes note that the mouse moved while it was down.
    fn mouse_move(&mut self, p: &Pointer, now: u64) -> (r: MouseEffect)
        requires
            old(self)@.sound(),
            old(self).was_down,
        ensures
            final(self)@.sound(),
            final(self)@ == old(self)@.dragged(*p, now),
            forall|mgr: &NotificationManager, env: Environment|
                r@ == #[trigger] old(self)@.mouse_effect(*p, true, now, mgr, env),
    {
        match (self.held, p.at) {
            (Some(h), Some(at)) => {
                if h.slider {
                    let slider = self.drag(h.layer, h.button, p.width, at.0, now);
                    return MouseEffect {
                        touch: TouchEffect { press: Press::none(), slider },
                        label: None,
                    };
                }
            },
            _ => {},
        }
        MouseEffect { touch: TouchEffect { press: Press::none(), slider: None }, label: None }
    }

    /// Takes note that the mouse went up.
    fn mouse_up(&mut self, now: u64, env: &Environment) -> (r: MouseEffect)
        requires
            old(self)@.sound(),
            old(self).was_down,
        ensures
            final(self)@.sound(),
            final(self)@ == old(self)@.released(now),
            forall|p: Pointer, mgr: &NotificationManager|
                r@ == #[trigger] old(self)@.mouse_effect(p, false, now, mgr, *env),
    {
        let ghost d = self@;
        let h = match self.held {
            Some(h) => h,
            None => {
                return MouseEffect {
                    touch: TouchEffect { press: Press::none(), slider: None },
                    label: None,
                };
            },
        };
        self.held = None;
        assert(self@.sound());
        assert(d.layers[h.layer as int] == self.layers@[h.layer as int]@);
        assert(d.layers[h.layer as int].buttons[h.button as int].1
            == self.layers@[h.layer as int].buttons@[h.button as int].1@);
        if h.slider {
            let slider = self.commit(h.layer, h.button, now);
            return MouseEffect { touch: TouchEffect { press: Press::none(), slider }, label: None };
        }
        let target = match self.layers[h.layer].buttons[h.button].1.layer_toggle_target() {
            Some(name) => Some(name.to_owned()),
            None => None,
        };
        let press = self.press(h.layer, h.button, false, env);
        match target {
            Some(name) => match layer_index(self.layers.as_slice(), name.as_str()) {
                Some(i) => {
                    self.selected = i;
                },
                None => {},
            },
            None => {},
        }
        MouseEffect { touch: TouchEffect { press, slider: None }, label: None }
    }
}

/// A text of two numbers with an x between them asks for that width and that
/// height.
pub proof fn size_is_width_by_height(width: nat, height: nat)
    requires
        width <= usize::MAX,
        height <= usize::MAX,
    ensures
        size_in(decimal(width) + seq!['x'] + decimal(height)) == Some((width, height)),
{
    let w = decimal(width);
    let h = decimal(height);
    let s = w + seq!['x'] + h;
    crate::text::decimal_is_read_back(width);
    crate::text::decimal_is_read_back(height);
    let i = w.len() as int;
    assert forall|k: int| 0 <= k < i implies s[k] != 'x' by {
        assert(s[k] == w[k]);
        assert(crate::text::is_digit(w[k]));
    }
    lemma_cut(s, 'x', i);
    assert(s.subrange(0, i) =~= w);
    assert(s.subrange(i + 1, s.len() as int) =~= h);
    crate::text::line_of_digits_is_trimmed(w);
    crate::text::line_of_digits_is_trimmed(h);
}

/// The window shows the picture upright: the pixel at a place has the three bytes
/// that lie as far along the picture as the place is to the right, and as far up
/// from its far edge as the place is from the top; blue is the lowest, red the
/// highest.
pub proof fn picture_is_turned_upright(
    data: Seq<u8>,
    stride: int,
    width: int,
    height: int,
    x: int,
    y: int,
)
    requires
        0 <= x < width,
        0 <= y < height,
    ensures
        ({
            let p = shown_pixels(data, stride, width, height)[y * width + x];
            let at = x * stride + (height - 1 - y) * 4;
            &&& p % 256 == data[at]
            &&& (p / 256) % 256 == data[at + 1]
            &&& p / 65_536 == data[at + 2]
        }),
{
    let i = y * width + x;
    assert(0 <= i < width * height && i % width == x && i / width == y) by (nonlinear_arith)
        requires
            0 <= x < width,
            0 <= y < height,
            i == y * width + x,
    ;
}

/// The layer with the function keys is on while the key for it is down, if there is
/// one, and the selected layer is on otherwise.
pub proof fn control_brings_the_function_keys(d: SimulatorView)
    ensures
        d.on(false) == d.selected,
        d.fkeys matches Some(f) ==> d.on(true) == f,
        d.fkeys is None ==> d.on(true) == d.selected,
{
}

/// A click presses the button under the mouse, and only that: its keys go down with
/// the click and up when the mouse is let go, and its command runs with the click.
/// What is written of it names its keys or its command.
pub proof fn click_presses_the_button_under_the_mouse(
    d: SimulatorView,
    p: Pointer,
    then: Pointer,
    now: u64,
    later: u64,
    mgr: &NotificationManager,
    env: Environment,
    layer: int,
    place: int,
)
    requires
        !d.was_down,
        d.struck(p, mgr) == Some((layer, place)),
        0 <= layer < d.layers.len() <= usize::MAX,
        0 <= place < d.layers[layer].buttons.len() <= usize::MAX,
        !(d.layers[layer].buttons[place].1.image is Slider),
        !(d.layers[layer].buttons[place].1.image is LayerToggle),
        !d.layers[layer].buttons[place].1.active,
    ensures
        ({
            let b = d.layers[layer].buttons[place].1;
            let down = d.moused(p, true, now, mgr);
            let pressed = d.mouse_effect(p, true, now, mgr, env);
            let released = down.mouse_effect(then, false, later, mgr, env);
            let up = down.moused(then, false, later, mgr);
            &&& down.layers[layer].buttons[place].1.active
            &&& down.was_down && !up.was_down
            &&& crate::daemon::are_keys(pressed.touch.press.events, b.action, 1)
            &&& crate::daemon::are_keys(released.touch.press.events, b.action, 0)
            &&& b.command matches Some(line) ==> pressed.touch.press.command matches Some(c)
                && c.args.last() == line
            &&& released.touch.press.command is None
            &&& pressed.touch.slider is None && released.touch.slider is None
            &&& pressed.label is Some && released.label is None
            &&& !up.layers[layer].buttons[place].1.active
            &&& up.held is None
            &&& forall|i: int, j: int|
                0 <= i < d.layers.len() && 0 <= j < d.layers[i].buttons.len() && (i != layer || j
                    != place) ==> (#[trigger] down.layers[i].buttons[j]) == d.layers[i].buttons[j]
            &&& b.toggle_target is None ==> up.selected == d.selected
        }),
{
}

/// Letting the mouse go from a button that toggles to a layer selects the first
/// layer of that name, if there is one.
pub proof fn toggle_selects_its_layer(d: SimulatorView, p: Pointer, now: u64, mgr: &NotificationManager)
    requires
        d.was_down,
        d.held is Some,
        (d.held->0).layer < d.layers.len(),
        (d.held->0).button < d.layers[(d.held->0).layer as int].buttons.len(),
        d.layers[(d.held->0).layer as int].buttons[(d.held->0).button as int].1.image is LayerToggle,
    ensures
        ({
            let h = d.held->0;
            let name = d.layers[h.layer as int].buttons[h.button as int].1.image->LayerToggle_0;
            let up = d.moused(p, false, now, mgr);
            &&& up.held is None
            &&& layer_at(up.layers, name) matches Some(i) ==> up.selected == i
            &&& layer_at(up.layers, name) is None ==> up.selected == d.selected
        }),
{
}

/// What is written of a press names the keys that it sends, in their order, else
/// the command that it runs.
pub proof fn press_is_put_in_words(b: ButtonView)
    ensures
        b.action.len() > 0 ==> label_of(b) == "["@ + joined(key_names(b.action), ", "@) + "]"@,
        b.action.len() == 0 && b.command is Some ==> label_of(b) == "command `"@ + b.command->0
            + "`"@,
        b.action.len() == 0 && b.command is None ==> label_of(b) == "(no action)"@,
        press_text(label_of(b), true) == "press: "@ + label_of(b),
        press_text(label_of(b), false) == "press (preview): "@ + label_of(b),
{
}

/// The mouse drags the slider that it went down on: with the click and with every
/// look at it while it is down, the slider goes to where the mouse is, and what a
/// drag to there asks for is asked for; letting the mouse go ends the drag.
pub proof fn mouse_drags_its_slider(
    d: SimulatorView,
    p: Pointer,
    now: u64,
    mgr: &NotificationManager,
    env: Environment,
)
    requires
        d.was_down,
        d.held matches Some(h) && h.slider && h.layer < d.layers.len() && h.button
            < d.layers[h.layer as int].buttons.len() && d.layers[h.layer as int].buttons[h.button as int].1.image
            is Slider,
        p.at is Some,
    ensures
        ({
            let h = d.held->0;
            let l = d.layers[h.layer as int];
            let state = l.buttons[h.button as int].1.image->Slider_state;
            let f = fraction_at(l, p.width, h.button as int, (p.at->0).0);
            let after = d.moused(p, true, now, mgr);
            let effect = d.mouse_effect(p, true, now, mgr, env);
            let then = after.layers[h.layer as int].buttons[h.button as int].1;
            &&& then.image is Slider
            &&& then.image->Slider_state == state.dragged(f, now)
            &&& then.changed
            &&& effect.touch.slider == state.drag_effect(f, now)
            &&& effect.touch.press.events.len() == 0
            &&& d.mouse_effect(p, false, now, mgr, env).touch.slider == state.commit_effect()
            &&& d.moused(p, false, now, mgr).held is None
        }),
{
}

/// Each layer is listed by its number, counted from one, and its name, in their
/// order.
pub proof fn layers_are_listed_by_number(layers: Seq<LayerView>, i: int)
    requires
        0 <= i < layers.len(),
    ensures
        layer_names(layers).len() == layers.len(),
        layer_names(layers)[i] == seq!['['] + decimal((i + 1) as nat) + seq![']', ' ']
            + layers[i].name,
{
    reveal_strlit("[");
    reveal_strlit("] ");
    assert("["@ =~= seq!['[']);
    assert("] "@ =~= seq![']', ' ']);
}

/// A click on a slider drags it to where the mouse is, and is written of by the kind
/// of the slider.
pub proof fn click_drags_the_slider_under_the_mouse(
    d: SimulatorView,
    p: Pointer,
    now: u64,
    mgr: &NotificationManager,
    env: Environment,
    layer: int,
    place: int,
)
    requires
        !d.was_down,
        d.struck(p, mgr) == Some((layer, place)),
        0 <= layer < d.layers.len() <= usize::MAX,
        0 <= place < d.layers[layer].buttons.len() <= usize::MAX,
        d.layers[layer].buttons[place].1.image is Slider,
    ensures
        ({
            let l = d.layers[layer];
            let state = l.buttons[place].1.image->Slider_state;
            let f = fraction_at(l, p.width, place, (p.at->0).0);
            let down = d.moused(p, true, now, mgr);
            let effect = d.mouse_effect(p, true, now, mgr, env);
            &&& down.layers[layer].buttons[place].1.image->Slider_state == state.dragged(f, now)
            &&& effect.touch.slider == state.drag_effect(f, now)
            &&& effect.touch.press.events.len() == 0
            &&& effect.label == Some(
                match state.kind {
                    SliderKind::DisplayBrightness => "slider DisplayBrightness"@,
                    SliderKind::KeyboardBacklight => "slider KeyboardBacklight"@,
                    SliderKind::Volume => "slider Volume"@,
                },
            )
            &&& down.held matches Some(h) && h.layer == layer && h.button == place && h.slider
        }),
{
}

} // verus!
