//! Layers of buttons: how they are laid out, and what a touch hits.

use vstd::prelude::*;
use vstd::string::*;

use crate::button::{browsable, Button, ButtonView, ImageView, NotificationButton};
use crate::command::text_opt;
use crate::notification_manager::NotificationManager;
use crate::number::ONE;
use crate::text::same;

verus! {

/// The space between two buttons, in pixels.
pub const BUTTON_SPACING_PX: i32 = 16;

/// How long a pullout panel slides, in nanoseconds.
pub const PULLOUT_ANIM: u64 = 300_000_000;

/// The narrowest that a button can be, in button widths.
pub const HALF: i64 = 500_000_000;

/// The width of the button of a notification's action, in button widths.
pub const ACTION_WIDTH: i64 = 2_000_000_000;

/// The most buttons that a layer can have: no width that a number holds has room
/// for more.
pub const MAX_BUTTONS: u64 = 34_359_738_368;

/// The most places that are drawn: more than any memory holds.
pub const MAX_PLACES: u64 = 1_099_511_627_776;

/// A layer of buttons. The position of a button is where it begins, in button
/// widths; positions, widths, fractions and pixels are in billionths.
pub struct FunctionLayer {
    pub name: String,
    pub displays_time: bool,
    pub displays_battery: bool,
    pub displays_sysinfo: bool,
    pub displays_slider: bool,
    pub displays_weather: bool,
    pub displays_notifications: bool,
    pub buttons: Vec<(i64, Button)>,
    pub virtual_button_count: i64,
    pub faster_refresh: bool,
    /// For a pullout panel, the layer that it lies over.
    pub overlay_parent: Option<String>,
    /// The part of the bar that a panel covers, from the right.
    pub overlay_coverage: i64,
    /// How far a panel has slid in.
    pub overlay_reveal: i64,
    /// Where a panel slides in from, in pixels; from the right end where this is
    /// not set.
    pub overlay_slide_start_x: Option<i128>,
}

/// The mathematical counterpart of [`FunctionLayer`].
#[verifier::ext_equal]
pub struct LayerView {
    pub name: Seq<char>,
    pub displays_time: bool,
    pub displays_battery: bool,
    pub displays_sysinfo: bool,
    pub displays_slider: bool,
    pub displays_weather: bool,
    pub displays_notifications: bool,
    pub buttons: Seq<(i64, ButtonView)>,
    pub virtual_button_count: i64,
    pub faster_refresh: bool,
    pub overlay_parent: Option<Seq<char>>,
    pub overlay_coverage: i64,
    pub overlay_reveal: i64,
    pub overlay_slide_start_x: Option<i128>,
}

/// The values of a list of placed buttons.
pub open spec fn placed(v: Seq<(i64, Button)>) -> Seq<(i64, ButtonView)> {
    Seq::new(v.len(), |i: int| (v[i].0, v[i].1@))
}

impl View for FunctionLayer {
    type V = LayerView;

    open spec fn view(&self) -> LayerView {
        LayerView {
            name: self.name@,
            displays_time: self.displays_time,
            displays_battery: self.displays_battery,
            displays_sysinfo: self.displays_sysinfo,
            displays_slider: self.displays_slider,
            displays_weather: self.displays_weather,
            displays_notifications: self.displays_notifications,
            buttons: placed(self.buttons@),
            virtual_button_count: self.virtual_button_count,
            faster_refresh: self.faster_refresh,
            overlay_parent: text_opt(self.overlay_parent),
            overlay_coverage: self.overlay_coverage,
            overlay_reveal: self.overlay_reveal,
            overlay_slide_start_x: self.overlay_slide_start_x,
        }
    }
}

/// The values of a list of layers.
pub open spec fn layers_of(v: Seq<FunctionLayer>) -> Seq<LayerView> {
    Seq::new(v.len(), |i: int| v[i]@)
}

impl LayerView {
    /// The buttons stand in their order within the layer, each of them valid, and
    /// a panel covers a part of the bar.
    pub open spec fn wf(self) -> bool {
        &&& HALF <= self.virtual_button_count
        &&& self.buttons.len() <= MAX_BUTTONS
        &&& forall|i: int|
            0 <= i < self.buttons.len() ==> 0 <= (#[trigger] self.buttons[i]).0
                <= self.virtual_button_count && self.buttons[i].1.wf()
        &&& forall|i: int, j: int|
            0 <= i <= j < self.buttons.len() ==> (#[trigger] self.buttons[i]).0 <= (
            #[trigger] self.buttons[j]).0
        &&& 0 <= self.overlay_coverage <= ONE
    }

    /// Whether the layer is a pullout panel.
    pub open spec fn is_panel(self) -> bool {
        self.overlay_parent is Some
    }

    /// How wide a button is, in button widths.
    pub open spec fn width_units(self, i: int) -> int {
        if i + 1 < self.buttons.len() {
            self.buttons[i + 1].0 - self.buttons[i].0
        } else {
            self.virtual_button_count - self.buttons[i].0
        }
    }
}

/// The first layer of that name.
pub open spec fn layer_at(layers: Seq<LayerView>, name: Seq<char>) -> Option<nat>
    decreases layers.len(),
{
    if layers.len() == 0 {
        None
    } else {
        match layer_at(layers.drop_last(), name) {
            Some(i) => Some(i),
            None => if layers.last().name == name {
                Some((layers.len() - 1) as nat)
            } else {
                None
            },
        }
    }
}

/// Finds the first layer of that name.
pub fn layer_index(layers: &[FunctionLayer], name: &str) -> (r: Option<usize>)
    ensures
        match r {
            Some(i) => i < layers@.len() && layer_at(layers_of(layers@), name@) == Some(i as nat),
            None => layer_at(layers_of(layers@), name@) is None,
        },
{
    let ghost all = layers_of(layers@);
    let n = layers.len();
    let mut found: Option<usize> = None;
    let mut i: usize = 0;
    assert(all.subrange(0, 0) =~= Seq::empty());
    while i < n
        invariant
            i <= n,
            n == layers@.len(),
            all == layers_of(layers@),
            match found {
                Some(k) => k < i && layer_at(all.subrange(0, i as int), name@) == Some(k as nat),
                None => layer_at(all.subrange(0, i as int), name@) is None,
            },
        decreases n - i,
    {
        let ghost seen = all.subrange(0, i + 1);
        assert(seen.drop_last() =~= all.subrange(0, i as int));
        assert(seen.last() == layers@[i as int]@);
        if found.is_none() && same(layers[i].name.as_str(), name) {
            found = Some(i);
        }
        i += 1;
    }
    assert(all.subrange(0, n as int) =~= all);
    found
}

/// The first layer of a name has that name, and none before it has.
pub proof fn layer_at_is_first(layers: Seq<LayerView>, name: Seq<char>)
    ensures
        match layer_at(layers, name) {
            Some(i) => i < layers.len() && layers[i as int].name == name && forall|j: int|
                0 <= j < i ==> (#[trigger] layers[j]).name != name,
            None => forall|j: int| 0 <= j < layers.len() ==> (#[trigger] layers[j]).name != name,
        },
    decreases layers.len(),
{
    if layers.len() > 0 {
        let front = layers.drop_last();
        layer_at_is_first(front, name);
        assert forall|j: int| 0 <= j < front.len() implies front[j] == layers[j] by {}
        match layer_at(front, name) {
            Some(i) => {
                assert(front[i as int].name == name);
                assert forall|j: int| 0 <= j < i implies (#[trigger] layers[j]).name != name by {
                    assert(front[j].name != name);
                }
            },
            None => {
                assert forall|j: int| 0 <= j < front.len() implies (#[trigger] layers[j]).name
                    != name by {
                    assert(front[j].name != name);
                }
            },
        }
    }
}

/// A panel that is sliding in or out. The time it began is in nanoseconds.
#[derive(Clone, Copy, Debug)]
pub struct PulloutAnim {
    pub panel: usize,
    pub parent: usize,
    pub collapsing: bool,
    pub start: u64,
}

impl PulloutAnim {
    /// How far the panel is in view.
    pub open spec fn revealed(self, now: u64) -> int {
        let t = if now <= self.start {
            0
        } else if now - self.start >= PULLOUT_ANIM {
            ONE as int
        } else {
            (now - self.start) * ONE / PULLOUT_ANIM as int
        };
        if self.collapsing {
            ONE - t
        } else {
            t
        }
    }

    /// Whether the slide is over.
    pub open spec fn over(self, now: u64) -> bool {
        now - self.start >= PULLOUT_ANIM
    }

    /// How far the panel is in view, as a fraction.
    pub fn reveal_at(&self, now: u64) -> (r: i64)
        ensures
            r == self.revealed(now),
            0 <= r <= ONE,
    {
        let elapsed: u64 = now.saturating_sub(self.start);
        let t: i64 = if elapsed >= PULLOUT_ANIM {
            ONE
        } else {
            elapsed as i64 * ONE / PULLOUT_ANIM as i64
        };
        if self.collapsing {
            ONE - t
        } else {
            t
        }
    }

    /// Whether the slide is over.
    pub fn done(&self, now: u64) -> (r: bool)
        ensures
            r == self.over(now),
    {
        now.saturating_sub(self.start) >= PULLOUT_ANIM
    }
}

/// A slide goes from end to end in its time, and never back: in for a panel that
/// expands, out for one that collapses.
pub proof fn slide_goes_one_way(a: PulloutAnim, earlier: u64, later: u64)
    requires
        a.start <= earlier <= later,
    ensures
        0 <= a.revealed(earlier) <= ONE,
        a.revealed(a.start) == if a.collapsing {
            ONE as int
        } else {
            0
        },
        a.over(later) ==> a.revealed(later) == if a.collapsing {
            0
        } else {
            ONE as int
        },
        a.collapsing ==> a.revealed(later) <= a.revealed(earlier),
        !a.collapsing ==> a.revealed(earlier) <= a.revealed(later),
{
    let x = (earlier - a.start) * ONE;
    let y = (later - a.start) * ONE;
    assert(x / PULLOUT_ANIM as int <= y / PULLOUT_ANIM as int);
    if earlier - a.start < PULLOUT_ANIM {
        assert(0 <= x / PULLOUT_ANIM as int <= ONE);
    }
}

/// The layer that a panel lies over, if there is such a layer.
pub open spec fn parent_at(layers: Seq<LayerView>, i: int) -> Option<nat> {
    match layers[i].overlay_parent {
        Some(name) => layer_at(layers, name),
        None => None,
    }
}

/// How a switch between layers is played: the layer that is active meanwhile,
/// and the slide of a panel, if there is one.
pub open spec fn switch_of(layers: Seq<LayerView>, from: int, target: int, now: u64) -> (
    nat,
    Option<PulloutAnim>,
) {
    if parent_at(layers, target) is Some {
        (
            target as nat,
            Some(
                PulloutAnim {
                    panel: target as usize,
                    parent: parent_at(layers, target)->0 as usize,
                    collapsing: false,
                    start: now,
                },
            ),
        )
    } else if parent_at(layers, from) == Some(target as nat) {
        (
            from as nat,
            Some(
                PulloutAnim {
                    panel: from as usize,
                    parent: target as usize,
                    collapsing: true,
                    start: now,
                },
            ),
        )
    } else {
        (target as nat, None)
    }
}

/// Finds the layer that a panel lies over.
pub fn parent_index(layers: &[FunctionLayer], i: usize) -> (r: Option<usize>)
    requires
        i < layers@.len(),
    ensures
        match r {
            Some(p) => p < layers@.len() && parent_at(layers_of(layers@), i as int) == Some(
                p as nat,
            ),
            None => parent_at(layers_of(layers@), i as int) is None,
        },
{
    match &layers[i].overlay_parent {
        Some(name) => layer_index(layers, name.as_str()),
        None => None,
    }
}

/// Decides how a switch between layers is played: a panel slides in over its
/// parent, and out again on the way back; any other switch happens at once.
pub fn begin_layer_switch(layers: &[FunctionLayer], from: usize, target: usize, now: u64) -> (r: (
    usize,
    Option<PulloutAnim>,
))
    requires
        from < layers@.len(),
        target < layers@.len(),
    ensures
        (r.0 as nat, r.1) == switch_of(layers_of(layers@), from as int, target as int, now),
        r.0 < layers@.len(),
        r.1 matches Some(a) ==> a.panel < layers@.len() && a.parent < layers@.len(),
{
    match parent_index(layers, target) {
        Some(parent) => {
            return (target, Some(PulloutAnim { panel: target, parent, collapsing: false, start: now }));
        },
        None => {},
    }
    match parent_index(layers, from) {
        Some(parent) => {
            if parent == target {
                return (
                    from,
                    Some(PulloutAnim { panel: from, parent: target, collapsing: true, start: now }),
                );
            }
        },
        None => {},
    }
    (target, None)
}

/// A panel that expands over its parent collapses back to it, and only switches
/// into or out of a panel slide.
pub proof fn expand_then_collapse(layers: Seq<LayerView>, parent: int, panel: int, now: u64)
    requires
        0 <= parent < layers.len() <= usize::MAX,
        0 <= panel < layers.len(),
        parent_at(layers, panel) == Some(parent as nat),
        !layers[parent].is_panel(),
    ensures
        switch_of(layers, parent, panel, now).0 == panel,
        switch_of(layers, parent, panel, now).1 matches Some(a) && !a.collapsing && a.panel == panel
            && a.parent == parent,
        switch_of(layers, panel, parent, now).0 == panel,
        switch_of(layers, panel, parent, now).1 matches Some(a) && a.collapsing && a.panel == panel
            && a.parent == parent,
{
}

/// A switch between layers of which neither is a panel happens at once.
pub proof fn plain_switch_is_instant(layers: Seq<LayerView>, from: int, target: int, now: u64)
    requires
        0 <= from < layers.len(),
        0 <= target < layers.len(),
        !layers[from].is_panel(),
        !layers[target].is_panel(),
    ensures
        switch_of(layers, from, target, now) == (target as nat, None::<PulloutAnim>),
{
}

/// Two different elements of a list, to be changed.
pub fn two_mut<T>(slice: &mut [T], a: usize, b: usize) -> (r: (&mut T, &mut T))
    requires
        a < old(slice)@.len(),
        b < old(slice)@.len(),
        a != b,
    ensures
        *r.0 == old(slice)@[a as int],
        *r.1 == old(slice)@[b as int],
        final(slice)@ == old(slice)@.update(a as int, *final(r.0)).update(
            b as int,
            *final(r.1),
        ),
{
    if a < b {
        let (l, r) = slice.split_at_mut(b);
        (&mut l[a], &mut r[0])
    } else {
        let (l, r) = slice.split_at_mut(a);
        (&mut r[0], &mut l[b])
    }
}

/// What stands at a place of a layer.
#[derive(Clone, Copy, PartialEq, Eq, Structural, Debug)]
pub enum LayoutItemKind {
    /// A button of the layer.
    Button(usize),
    /// An action of the notification on show.
    NotificationAction(usize),
}

/// A place of a layer: from where to where it goes, in button widths.
#[derive(Clone, Copy, PartialEq, Eq, Structural, Debug)]
pub struct LayoutItem {
    pub start: i128,
    pub end: i128,
    pub kind: LayoutItemKind,
}

/// The mathematical counterpart of [`LayoutItemKind`].
pub enum PlaceKind {
    Button(int),
    Action(int),
}

/// The mathematical counterpart of [`LayoutItem`].
pub struct PlaceView {
    pub start: int,
    pub end: int,
    pub kind: PlaceKind,
}

impl View for LayoutItemKind {
    type V = PlaceKind;

    open spec fn view(&self) -> PlaceKind {
        match self {
            LayoutItemKind::Button(b) => PlaceKind::Button(*b as int),
            LayoutItemKind::NotificationAction(a) => PlaceKind::Action(*a as int),
        }
    }
}

impl View for LayoutItem {
    type V = PlaceView;

    open spec fn view(&self) -> PlaceView {
        PlaceView { start: self.start as int, end: self.end as int, kind: self.kind@ }
    }
}

/// The values of a list of places.
pub open spec fn places_of(v: Seq<LayoutItem>) -> Seq<PlaceView> {
    Seq::new(v.len(), |i: int| v[i]@)
}

/// Whether the buttons to browse notifications are hidden: on a layer with
/// notifications while there are not several.
pub open spec fn nav_hidden(l: LayerView, mgr: Option<&NotificationManager>) -> bool {
    l.displays_notifications && browsable(mgr) == Some(false)
}

/// How many actions the notification on show offers.
pub open spec fn action_count(mgr: Option<&NotificationManager>) -> nat {
    match mgr {
        Some(m) => m.offered().len(),
        None => 0,
    }
}

/// A button to browse notifications.
pub open spec fn is_nav(b: ButtonView) -> bool {
    b.notification() == Some(NotificationButton::Previous) || b.notification() == Some(
        NotificationButton::Next,
    )
}

/// The button with a notification's text.
pub open spec fn is_content(b: ButtonView) -> bool {
    b.notification() == Some(NotificationButton::Text)
}

/// How many of the first `n` buttons show a notification's text.
pub open spec fn content_count(l: LayerView, n: nat) -> nat
    decreases n,
{
    if n == 0 {
        0
    } else {
        content_count(l, (n - 1) as nat) + if is_content(l.buttons[n - 1].1) {
            1nat
        } else {
            0nat
        }
    }
}

/// The width of the buttons to browse notifications among the first `n`.
pub open spec fn nav_width(l: LayerView, n: nat) -> int
    decreases n,
{
    if n == 0 {
        0
    } else {
        nav_width(l, (n - 1) as nat) + if is_nav(l.buttons[n - 1].1) {
            l.width_units(n - 1)
        } else {
            0
        }
    }
}

/// How wide a button is laid out. While the buttons to browse are hidden, their
/// width goes to the notification's text. The text gives way to the actions, but
/// keeps half a button width.
pub open spec fn laid_width(l: LayerView, i: int, hidden: bool, actions: nat) -> int {
    let b = l.buttons[i].1;
    let own = l.width_units(i);
    if is_content(b) {
        let wide = if hidden {
            own + nav_width(l, l.buttons.len())
        } else {
            own
        };
        let left = wide - ACTION_WIDTH * actions;
        if left < HALF {
            HALF as int
        } else {
            left
        }
    } else if hidden && is_nav(b) {
        0
    } else {
        own
    }
}

/// Where a list of places ends.
pub open spec fn edge(items: Seq<PlaceView>) -> int {
    if items.len() == 0 {
        0
    } else {
        items.last().end
    }
}

/// The places of actions, beginning at a position.
pub open spec fn action_items(start: int, actions: nat) -> Seq<PlaceView> {
    Seq::new(
        actions,
        |k: int|
            PlaceView {
                start: start + ACTION_WIDTH * k,
                end: start + ACTION_WIDTH * (k + 1),
                kind: PlaceKind::Action(k),
            },
    )
}

/// The places of the first `n` buttons: one behind another, and the actions of
/// the notification on show behind its text.
pub open spec fn layout_upto(l: LayerView, hidden: bool, actions: nat, n: nat) -> Seq<PlaceView>
    decreases n,
{
    if n == 0 {
        Seq::empty()
    } else {
        let earlier = layout_upto(l, hidden, actions, (n - 1) as nat);
        let start = edge(earlier);
        let end = start + laid_width(l, n - 1, hidden, actions);
        let own = earlier.push(PlaceView { start, end, kind: PlaceKind::Button(n - 1) });
        if is_content(l.buttons[n - 1].1) {
            own + action_items(end, actions)
        } else {
            own
        }
    }
}

/// The places of a layer.
pub open spec fn layout(l: LayerView, mgr: Option<&NotificationManager>) -> Seq<PlaceView> {
    layout_upto(l, nav_hidden(l, mgr), action_count(mgr), l.buttons.len())
}

/// The places of a layer are few enough for a memory to hold them.
pub open spec fn fits(l: LayerView, mgr: Option<&NotificationManager>) -> bool {
    layout(l, mgr).len() <= MAX_PLACES
}

proof fn lemma_width_units(l: LayerView, i: int)
    requires
        l.wf(),
        0 <= i < l.buttons.len(),
    ensures
        0 <= l.width_units(i) <= l.virtual_button_count,
{
    if i + 1 < l.buttons.len() {
        assert(l.buttons[i].0 <= l.buttons[i + 1].0);
    }
}

proof fn lemma_nav_width(l: LayerView, n: nat)
    requires
        l.wf(),
        n <= l.buttons.len(),
    ensures
        0 <= nav_width(l, n),
        n < l.buttons.len() ==> nav_width(l, n) <= l.buttons[n as int].0,
        n == l.buttons.len() ==> nav_width(l, n) <= l.virtual_button_count,
    decreases n,
{
    if n > 0 {
        lemma_nav_width(l, (n - 1) as nat);
        lemma_width_units(l, n - 1);
    }
}

proof fn lemma_laid_width(l: LayerView, i: int, hidden: bool, actions: nat)
    requires
        l.wf(),
        0 <= i < l.buttons.len(),
    ensures
        0 <= laid_width(l, i, hidden, actions) <= 2 * l.virtual_button_count,
{
    lemma_width_units(l, i);
    lemma_nav_width(l, l.buttons.len());
    assert(0 <= ACTION_WIDTH * actions);
}

/// Places that lie one behind another, from a first position, none of negative
/// width.
pub open spec fn contiguous(items: Seq<PlaceView>) -> bool {
    &&& items.len() > 0 ==> items[0].start == 0
    &&& forall|i: int| 0 <= i < items.len() ==> (#[trigger] items[i]).start <= items[i].end
    &&& forall|i: int, j: int|
        0 <= i && j == i + 1 && j < items.len() ==> (#[trigger] items[i]).end == (
        #[trigger] items[j]).start
}

/// No place is wider than four times the layer, nor begins before it.
pub open spec fn moderate(l: LayerView, items: Seq<PlaceView>) -> bool {
    forall|k: int|
        0 <= k < items.len() ==> 0 <= (#[trigger] items[k]).start && items[k].end - items[k].start
            <= 4 * l.virtual_button_count
}

proof fn lemma_layout(l: LayerView, hidden: bool, actions: nat, n: nat)
    requires
        l.wf(),
        n <= l.buttons.len(),
    ensures
        contiguous(layout_upto(l, hidden, actions, n)),
        moderate(l, layout_upto(l, hidden, actions, n)),
        0 <= edge(layout_upto(l, hidden, actions, n)),
        layout_upto(l, hidden, actions, n).len() == n + content_count(l, n) * actions,
    decreases n,
{
    if n > 0 {
        let m = (n - 1) as nat;
        lemma_layout(l, hidden, actions, m);
        lemma_laid_width(l, n - 1, hidden, actions);
        let earlier = layout_upto(l, hidden, actions, m);
        let all = layout_upto(l, hidden, actions, n);
        let start = edge(earlier);
        let end = start + laid_width(l, n - 1, hidden, actions);
        let own = PlaceView { start, end, kind: PlaceKind::Button(n - 1) };
        let c = content_count(l, m);
        assert((c + 1) * actions == c * actions + actions) by (nonlinear_arith);
        let behind = if is_content(l.buttons[n - 1].1) {
            action_items(end, actions)
        } else {
            Seq::empty()
        };
        assert(all =~= earlier.push(own) + behind);
        let e = earlier.len();
        assert forall|k: int| 0 <= k < all.len() implies 0 <= (#[trigger] all[k]).start <= all[k].end
            && all[k].end - all[k].start <= 4 * l.virtual_button_count by {
            if k < e {
                assert(all[k] == earlier[k]);
            } else if k == e {
                assert(all[k] == own);
            } else {
                let a = k - e - 1;
                assert(all[k] == behind[a]);
                assert(0 <= ACTION_WIDTH * a);
            }
        }
        assert forall|i: int, j: int| 0 <= i && j == i + 1 && j < all.len() implies (
        #[trigger] all[i]).end == (#[trigger] all[j]).start by {
            if j < e {
                assert(all[i] == earlier[i] && all[j] == earlier[j]);
            } else if j == e {
                assert(all[i] == earlier[i] && all[j] == own);
                assert(i == e - 1);
            } else {
                let a = j - e - 1;
                assert(all[j] == behind[a]);
                if a == 0 {
                    assert(all[i] == own);
                } else {
                    assert(all[i] == behind[a - 1]);
                }
            }
        }
        if e > 0 {
            assert(all[0] == earlier[0]);
        } else {
            assert(all[0] == own);
        }
        if behind.len() > 0 {
            assert(all.last() == behind.last());
            assert(0 <= ACTION_WIDTH * actions);
        } else {
            assert(all.last() == own);
        }
    } else {
        assert(content_count(l, n) * actions == 0) by (nonlinear_arith)
            requires
                content_count(l, n) == 0,
        ;
    }
}

/// The places of a layer follow one another without gaps or overlaps, from the
/// beginning on.
pub proof fn layout_is_contiguous(l: LayerView, mgr: Option<&NotificationManager>)
    requires
        l.wf(),
    ensures
        contiguous(layout(l, mgr)),
{
    lemma_layout(l, nav_hidden(l, mgr), action_count(mgr), l.buttons.len());
}

/// A layer has a place for each button, and behind each text of a notification
/// one for each action. So the places of a layer without such a text, or without
/// actions on offer, always fit.
pub proof fn places_are_counted(l: LayerView, mgr: Option<&NotificationManager>)
    requires
        l.wf(),
    ensures
        layout(l, mgr).len() == l.buttons.len() + content_count(l, l.buttons.len()) * action_count(
            mgr,
        ),
        content_count(l, l.buttons.len()) == 0 || action_count(mgr) == 0 ==> fits(l, mgr),
{
    let n = l.buttons.len();
    let c = content_count(l, n);
    let a = action_count(mgr);
    lemma_layout(l, nav_hidden(l, mgr), a, n);
    assert(c == 0 || a == 0 ==> c * a == 0) by (nonlinear_arith);
}

/// Where the place of a button stands among those of a layer.
pub open spec fn place_index(l: LayerView, actions: nat, b: nat) -> int {
    b as int + content_count(l, b) * actions
}

proof fn lemma_place_index(l: LayerView, hidden: bool, actions: nat, n: nat, b: nat)
    requires
        l.wf(),
        b < n <= l.buttons.len(),
    ensures
        ({
            let items = layout_upto(l, hidden, actions, n);
            let k = place_index(l, actions, b);
            &&& 0 <= k < items.len()
            &&& items[k].kind == PlaceKind::Button(b as int)
            &&& items[k].end - items[k].start == laid_width(l, b as int, hidden, actions)
            &&& is_content(l.buttons[b as int].1) ==> k + actions < items.len() && forall|a: int|
                0 <= a < actions ==> (#[trigger] items[k + 1 + a]).kind == PlaceKind::Action(a)
                    && items[k + 1 + a].end - items[k + 1 + a].start == ACTION_WIDTH
        }),
    decreases n,
{
    let m = (n - 1) as nat;
    lemma_layout(l, hidden, actions, m);
    let earlier = layout_upto(l, hidden, actions, m);
    let items = layout_upto(l, hidden, actions, n);
    let k = place_index(l, actions, b);
    assert(0 <= content_count(l, b) * actions) by (nonlinear_arith);
    if b < m {
        lemma_place_index(l, hidden, actions, m, b);
        assert(items[k] == earlier[k]);
        if is_content(l.buttons[b as int].1) {
            assert forall|a: int| 0 <= a < actions implies (#[trigger] items[k + 1 + a]).kind
                == PlaceKind::Action(a) && items[k + 1 + a].end - items[k + 1 + a].start
                == ACTION_WIDTH by {
                assert(items[k + 1 + a] == earlier[k + 1 + a]);
            }
        }
    } else {
        assert(k == earlier.len());
        let end = edge(earlier) + laid_width(l, b as int, hidden, actions);
        if is_content(l.buttons[b as int].1) {
            assert forall|a: int| 0 <= a < actions implies (#[trigger] items[k + 1 + a]).kind
                == PlaceKind::Action(a) && items[k + 1 + a].end - items[k + 1 + a].start
                == ACTION_WIDTH by {
                assert(items[k + 1 + a] == action_items(end, actions)[a]);
            }
        }
    }
}

/// Each button of a layer has its place, in the order of the buttons, and the
/// actions of the notification on show stand in their order right behind its
/// text, each two button widths wide. There are no other places.
pub proof fn places_stand_in_order(l: LayerView, mgr: Option<&NotificationManager>, b: nat)
    requires
        l.wf(),
        b < l.buttons.len(),
    ensures
        ({
            let items = layout(l, mgr);
            let n = action_count(mgr);
            let k = place_index(l, n, b);
            &&& 0 <= k < items.len()
            &&& items[k].kind == PlaceKind::Button(b as int)
            &&& items[k].end - items[k].start == laid_width(l, b as int, nav_hidden(l, mgr), n)
            &&& is_content(l.buttons[b as int].1) ==> forall|a: int|
                0 <= a < n ==> (#[trigger] items[k + 1 + a]).kind == PlaceKind::Action(a)
                    && items[k + 1 + a].end - items[k + 1 + a].start == ACTION_WIDTH
            &&& place_index(l, n, b + 1) == k + 1 + (if is_content(l.buttons[b as int].1) {
                n as int
            } else {
                0
            })
            &&& place_index(l, n, 0) == 0
            &&& place_index(l, n, l.buttons.len()) == items.len()
        }),
{
    let n = action_count(mgr);
    lemma_place_index(l, nav_hidden(l, mgr), n, l.buttons.len(), b);
    lemma_layout(l, nav_hidden(l, mgr), n, l.buttons.len());
    let c = content_count(l, b);
    assert((c + 1) * n == c * n + n) by (nonlinear_arith);
    assert(content_count(l, 0) * n == 0) by (nonlinear_arith)
        requires
            content_count(l, 0) == 0,
    ;
    assert(is_content(l.buttons[b as int].1) ==> content_count(l, b + 1) == c + 1);
    assert(!is_content(l.buttons[b as int].1) ==> content_count(l, b + 1) == c);
}

impl FunctionLayer {
    /// How wide a button is, in button widths.
    pub fn button_width_units(&self, i: usize) -> (r: i64)
        requires
            self@.wf(),
            i < self.buttons@.len(),
        ensures
            r == self@.width_units(i as int),
    {
        proof {
            lemma_width_units(self@, i as int);
            assert(self@.buttons[i as int].0 == self.buttons@[i as int].0);
        }
        let n = self.buttons.len();
        let start = self.buttons[i].0;
        let end = if i < n - 1 {
            assert(self@.buttons[i + 1].0 == self.buttons@[i + 1].0);
            self.buttons[i + 1].0
        } else {
            self.virtual_button_count
        };
        end - start
    }

    /// The width of the buttons to browse notifications.
    fn navigation_width(&self) -> (r: i64)
        requires
            self@.wf(),
        ensures
            r == nav_width(self@, self@.buttons.len()),
            0 <= r <= self.virtual_button_count,
    {
        let n = self.buttons.len();
        let mut sum: i64 = 0;
        let mut i: usize = 0;
        while i < n
            invariant
                i <= n,
                n == self.buttons@.len(),
                self@.wf(),
                sum == nav_width(self@, i as nat),
                0 <= sum <= self.virtual_button_count,
            decreases n - i,
        {
            proof {
                lemma_nav_width(self@, (i + 1) as nat);
                lemma_width_units(self@, i as int);
                assert(self@.buttons[i as int].1 == self.buttons@[i as int].1@);
                if i + 1 < n {
                    assert(self@.buttons[i + 1].0 <= self@.virtual_button_count);
                }
            }
            let nav = match self.buttons[i].1.notification_kind() {
                Some(kind) => kind == NotificationButton::Previous || kind
                    == NotificationButton::Next,
                None => false,
            };
            if nav {
                sum = sum + self.button_width_units(i);
            }
            i += 1;
        }
        proof {
            lemma_nav_width(self@, self@.buttons.len());
        }
        sum
    }

    /// Whether a button shows a notification's text.
    fn shows_content(&self, i: usize) -> (r: bool)
        requires
            i < self.buttons@.len(),
        ensures
            r == is_content(self@.buttons[i as int].1),
    {
        assert(self@.buttons[i as int].1 == self.buttons@[i as int].1@);
        match self.buttons[i].1.notification_kind() {
            Some(kind) => kind == NotificationButton::Text,
            None => false,
        }
    }

    /// Whether the places of the layer are few enough for a memory to hold them.
    pub fn places_fit(&self, notification_mgr: Option<&NotificationManager>) -> (r: bool)
        requires
            self@.wf(),
        ensures
            r == fits(self@, notification_mgr),
    {
        let ghost l = self@;
        let n = self.buttons.len();
        let mut count: usize = 0;
        let mut i: usize = 0;
        while i < n
            invariant
                i <= n,
                n == self.buttons@.len(),
                l == self@,
                count == content_count(l, i as nat),
                count <= i,
            decreases n - i,
        {
            if self.shows_content(i) {
                count += 1;
            }
            i += 1;
        }
        let actions = offered_actions(notification_mgr);
        proof {
            lemma_layout(l, nav_hidden(l, notification_mgr), actions as nat, l.buttons.len());
            assert(0 <= count * actions <= 18_446_744_073_709_551_615
                * 18_446_744_073_709_551_615) by (nonlinear_arith)
                requires
                    0 <= count <= 18_446_744_073_709_551_615,
                    0 <= actions <= 18_446_744_073_709_551_615,
            ;
        }
        count as u128 * actions as u128 <= MAX_PLACES as u128 && n as u128 + count as u128
            * actions as u128 <= MAX_PLACES as u128
    }

    /// Lays the layer out.
    pub fn layout_items(&self, notification_mgr: Option<&NotificationManager>) -> (r: Vec<
        LayoutItem,
    >)
        requires
            self@.wf(),
        ensures
            places_of(r@) == layout(self@, notification_mgr),
    {
        let ghost l = self@;
        let hidden = match notification_mgr {
            Some(mgr) => self.displays_notifications && !mgr.can_navigate(),
            None => false,
        };
        let actions = offered_actions(notification_mgr);
        assert(hidden == nav_hidden(l, notification_mgr));
        let nav: i64 = if hidden {
            self.navigation_width()
        } else {
            0
        };
        let mut cursor: i128 = 0;
        let mut items: Vec<LayoutItem> = Vec::new();
        let n = self.buttons.len();
        let mut i: usize = 0;
        assert(places_of(items@) =~= Seq::empty());
        while i < n
            invariant
                i <= n,
                n == self.buttons@.len(),
                l == self@,
                l.wf(),
                hidden ==> nav == nav_width(l, l.buttons.len()) && 0 <= nav <= l.virtual_button_count,
                places_of(items@) == layout_upto(l, hidden, actions as nat, i as nat),
                cursor == edge(places_of(items@)),
                0 <= cursor <= i * 20_000_000_000_000_000_000 + ACTION_WIDTH * items@.len(),
            decreases n - i,
        {
            let used = items.len();
            proof {
                lemma_layout(l, hidden, actions as nat, i as nat);
                lemma_laid_width(l, i as int, hidden, actions as nat);
                lemma_width_units(l, i as int);
                assert(l.buttons[i as int].1 == self.buttons@[i as int].1@);
                assert(used <= usize::MAX);
                assert(ACTION_WIDTH * used <= 2_000_000_000 * usize::MAX);
                assert(0 <= ACTION_WIDTH * actions <= 2_000_000_000 * usize::MAX);
            }
            let kind = self.buttons[i].1.notification_kind();
            let (is_nav_button, is_text) = match kind {
                Some(k) => (
                    k == NotificationButton::Previous || k == NotificationButton::Next,
                    k == NotificationButton::Text,
                ),
                None => (false, false),
            };
            let mut width: i128 = self.button_width_units(i) as i128;
            if hidden {
                if is_nav_button {
                    width = 0;
                } else if is_text {
                    width = width + nav as i128;
                }
            }
            if is_text {
                let left: i128 = width - ACTION_WIDTH as i128 * actions as i128;
                width = if left < HALF as i128 {
                    HALF as i128
                } else {
                    left
                };
            }
            assert(width == laid_width(l, i as int, hidden, actions as nat));
            let ghost earlier = places_of(items@);
            let start = cursor;
            cursor = cursor + width;
            let ghost end = cursor as int;
            let item = LayoutItem { start, end: cursor, kind: LayoutItemKind::Button(i) };
            items.push(item);
            let ghost own = places_of(items@);
            assert(own =~= earlier.push(item@));
            if is_text {
                let mut a: usize = 0;
                assert(own + action_items(end, actions as nat).subrange(0, 0) =~= own);
                while a < actions
                    invariant
                        a <= actions,
                        0 <= end <= 1_000_000_000_000_000_000_000_000_000_000_000,
                        cursor == end + ACTION_WIDTH * a,
                        places_of(items@) == own + action_items(end, actions as nat).subrange(
                            0,
                            a as int,
                        ),
                        own.len() == used + 1,
                        items@.len() == used + 1 + a,
                        own.last().end == end,
                        cursor == edge(places_of(items@)),
                    decreases actions - a,
                {
                    let ghost was = places_of(items@);
                    let start = cursor;
                    cursor = cursor + ACTION_WIDTH as i128;
                    let item = LayoutItem {
                        start,
                        end: cursor,
                        kind: LayoutItemKind::NotificationAction(a),
                    };
                    items.push(item);
                    assert(places_of(items@) =~= was.push(item@));
                    assert(action_items(end, actions as nat)[a as int] == item@);
                    assert(own + action_items(end, actions as nat).subrange(0, a + 1) =~= was.push(
                        item@,
                    ));
                    a += 1;
                }
                assert(action_items(end, actions as nat).subrange(0, actions as int)
                    =~= action_items(end, actions as nat));
            }
            assert(places_of(items@) =~= layout_upto(l, hidden, actions as nat, (i + 1) as nat));
            i += 1;
        }
        items
    }

    /// From where to where each place goes, in button widths.
    pub fn button_spans(&self, notification_mgr: Option<&NotificationManager>) -> (r: Vec<
        (i128, i128),
    >)
        requires
            self@.wf(),
        ensures
            r@.len() == layout(self@, notification_mgr).len(),
            forall|k: int|
                0 <= k < r@.len() ==> (#[trigger] r@[k]).0 == layout(self@, notification_mgr)[k].start
                    && r@[k].1 == layout(self@, notification_mgr)[k].end,
    {
        let items = self.layout_items(notification_mgr);
        let ghost all = places_of(items@);
        let n = items.len();
        let mut spans: Vec<(i128, i128)> = Vec::new();
        let mut i: usize = 0;
        while i < n
            invariant
                i <= n,
                n == items@.len(),
                all == places_of(items@),
                spans@.len() == i,
                forall|k: int|
                    0 <= k < i ==> (#[trigger] spans@[k]).0 == all[k].start && spans@[k].1
                        == all[k].end,
            decreases n - i,
        {
            assert(all[i as int] == items@[i as int]@);
            spans.push((items[i].start, items[i].end));
            i += 1;
        }
        spans
    }

    /// Makes the layer a panel over another.
    pub fn set_overlay(&mut self, parent: String, coverage: i64)
        ensures
            final(self)@ == (LayerView {
                overlay_parent: Some(parent@),
                overlay_coverage: coverage,
                ..old(self)@
            }),
    {
        self.overlay_parent = Some(parent);
        self.overlay_coverage = coverage;
    }

    /// Whether the layer is a pullout panel.
    pub fn is_overlay(&self) -> (r: bool)
        ensures
            r == self@.is_panel(),
    {
        self.overlay_parent.is_some()
    }
}

/// How many actions the notification on show offers.
fn offered_actions(notification_mgr: Option<&NotificationManager>) -> (r: usize)
    ensures
        r == action_count(notification_mgr),
{
    match notification_mgr {
        Some(mgr) => {
            let v = mgr.current_actions();
            assert(v@.len() == mgr.offered().len());
            v.len()
        },
        None => 0,
    }
}

/// How far the first `n` buttons go without regard to notifications.
pub open spec fn span(l: LayerView, n: int) -> int {
    if n < l.buttons.len() {
        l.buttons[n].0 - l.buttons[0].0
    } else {
        l.virtual_button_count - l.buttons[0].0
    }
}

/// Without notifications the buttons are laid out as they are placed, if the
/// button for a notification's text is not narrower than it may be.
pub proof fn plain_layout_follows_positions(l: LayerView, n: nat)
    requires
        l.wf(),
        0 < l.buttons.len(),
        n <= l.buttons.len(),
        forall|i: int|
            0 <= i < l.buttons.len() && is_content(#[trigger] l.buttons[i].1) ==> l.width_units(i)
                >= HALF,
    ensures
        layout_upto(l, false, 0, n).len() == n,
        edge(layout_upto(l, false, 0, n)) == span(l, n as int) || n == 0,
        forall|i: int|
            0 <= i < n ==> (#[trigger] layout_upto(l, false, 0, n)[i]) == (PlaceView {
                start: span(l, i),
                end: span(l, i + 1),
                kind: PlaceKind::Button(i),
            }),
    decreases n,
{
    if n > 0 {
        let m = (n - 1) as nat;
        plain_layout_follows_positions(l, m);
        let earlier = layout_upto(l, false, 0, m);
        let all = layout_upto(l, false, 0, n);
        assert(edge(earlier) == span(l, m as int));
        assert(laid_width(l, m as int, false, 0) == l.width_units(m as int)) by {
            assert(is_content(l.buttons[m as int].1) ==> l.width_units(m as int) >= HALF);
        }
        assert(span(l, n as int) == span(l, m as int) + l.width_units(m as int));
        let own = PlaceView {
            start: span(l, m as int),
            end: span(l, n as int),
            kind: PlaceKind::Button(m as int),
        };
        assert(action_items(span(l, n as int), 0) =~= Seq::empty());
        assert(all =~= earlier.push(own));
        assert forall|i: int| 0 <= i < n implies (#[trigger] all[i]) == (PlaceView {
            start: span(l, i),
            end: span(l, i + 1),
            kind: PlaceKind::Button(i),
        }) by {
            if i < m {
                assert(all[i] == earlier[i]);
            }
        }
    }
}

proof fn lemma_edge(l: LayerView, hidden: bool, actions: nat, n: nat, content: int)
    requires
        l.wf(),
        n <= l.buttons.len(),
        0 <= content < l.buttons.len(),
        is_content(l.buttons[content].1),
        forall|i: int| 0 <= i < l.buttons.len() && i != content ==> !is_content(
            #[trigger] l.buttons[i].1,
        ),
        l.width_units(content) + (if hidden {
            nav_width(l, l.buttons.len())
        } else {
            0
        }) - ACTION_WIDTH * actions >= HALF,
    ensures
        edge(layout_upto(l, hidden, actions, n)) == (if n == 0 {
            0
        } else {
            span(l, n as int)
        }) + (if hidden {
            (if content < n {
                nav_width(l, l.buttons.len())
            } else {
                0
            }) - nav_width(l, n)
        } else {
            0
        }),
    decreases n,
{
    if n > 0 {
        let m = (n - 1) as nat;
        lemma_edge(l, hidden, actions, m, content);
        let earlier = layout_upto(l, hidden, actions, m);
        let all = layout_upto(l, hidden, actions, n);
        let end = edge(earlier) + laid_width(l, m as int, hidden, actions);
        if m == content {
            if actions > 0 {
                assert(all.last() == action_items(end, actions)[actions - 1]);
                assert(ACTION_WIDTH * (actions - 1 + 1) == ACTION_WIDTH * actions);
            } else {
                assert(action_items(end, actions) =~= Seq::empty());
                assert(all.last().end == end);
            }
        } else {
            assert(!is_content(l.buttons[m as int].1));
        }
    }
}

/// A layer with one button for a notification's text is always as wide as its
/// buttons are placed: what hidden buttons leave goes to the text, and what
/// actions take comes from it, as long as the text keeps its least width.
pub proof fn notifications_keep_the_width(
    l: LayerView,
    mgr: Option<&NotificationManager>,
    content: int,
)
    requires
        l.wf(),
        0 <= content < l.buttons.len(),
        is_content(l.buttons[content].1),
        forall|i: int| 0 <= i < l.buttons.len() && i != content ==> !is_content(
            #[trigger] l.buttons[i].1,
        ),
        l.width_units(content) + (if nav_hidden(l, mgr) {
            nav_width(l, l.buttons.len())
        } else {
            0
        }) - ACTION_WIDTH * action_count(mgr) >= HALF,
    ensures
        edge(layout(l, mgr)) == span(l, l.buttons.len() as int),
{
    lemma_edge(l, nav_hidden(l, mgr), action_count(mgr), l.buttons.len(), content);
}

/// Each action takes two button widths from a notification's text, down to its
/// least width.
pub proof fn actions_shrink_the_text(l: LayerView, i: int, hidden: bool, actions: nat)
    requires
        0 <= i < l.buttons.len(),
        is_content(l.buttons[i].1),
    ensures
        laid_width(l, i, hidden, actions + 1) == (if laid_width(l, i, hidden, actions)
            - ACTION_WIDTH < HALF {
            HALF as int
        } else {
            laid_width(l, i, hidden, actions) - ACTION_WIDTH
        }),
        laid_width(l, i, hidden, actions) >= HALF,
{
    assert(ACTION_WIDTH * (actions + 1) == ACTION_WIDTH * actions + ACTION_WIDTH);
}

/// Whether a place has any width.
pub open spec fn shown(item: PlaceView) -> bool {
    item.end > item.start
}

/// How many of the first `k` places have any width.
pub open spec fn shown_before(items: Seq<PlaceView>, k: nat) -> nat
    decreases k,
{
    if k == 0 {
        0
    } else {
        shown_before(items, (k - 1) as nat) + if shown(items[k - 1]) {
            1nat
        } else {
            0nat
        }
    }
}

/// Where a layer begins, in pixels: a panel covers only a part of the bar.
pub open spec fn origin(l: LayerView, width: u16) -> int {
    if l.is_panel() {
        width * (ONE - l.overlay_coverage)
    } else {
        0
    }
}

/// The pixels for the places of a layer, without the spaces between them. A bar
/// that is shifted to and fro lacks `shift` pixels.
pub open spec fn room(l: LayerView, items: Seq<PlaceView>, width: u16, shift: u16) -> int {
    let n = shown_before(items, items.len());
    width * ONE - origin(l, width) - shift * ONE - BUTTON_SPACING_PX * ONE * (if n == 0 {
        0
    } else {
        n - 1
    })
}

/// Where a place begins among the pixels for places, in whole pixels.
pub open spec fn start_px(l: LayerView, item: PlaceView, room: int) -> int {
    (item.start * room) / (l.virtual_button_count * ONE)
}

/// How wide a place is, in whole pixels.
pub open spec fn width_px(l: LayerView, item: PlaceView, room: int) -> int {
    ((item.end - item.start) * room) / (l.virtual_button_count * ONE)
}

/// Where a place begins on the bar, in pixels.
pub open spec fn left_edge(
    l: LayerView,
    items: Seq<PlaceView>,
    k: nat,
    width: u16,
    shift: u16,
) -> int {
    start_px(l, items[k as int], room(l, items, width, shift)) * ONE + BUTTON_SPACING_PX * ONE
        * shown_before(items, k) + origin(l, width)
}

/// Whether a touch lies on a place of some width. The exact bounds of the place
/// are compared, before they are rounded to pixels.
pub open spec fn touches(
    l: LayerView,
    items: Seq<PlaceView>,
    k: nat,
    width: u16,
    x: i64,
) -> bool {
    let item = items[k as int];
    let off = (x - BUTTON_SPACING_PX * ONE * shown_before(items, k) - origin(l, width))
        * l.virtual_button_count;
    let r = room(l, items, width, 0);
    shown(item) && item.start * r <= off && off <= item.end * r
}

/// The first place from `k` on that a touch lies on.
pub open spec fn touched(
    l: LayerView,
    items: Seq<PlaceView>,
    k: nat,
    width: u16,
    x: i64,
) -> Option<nat>
    decreases items.len() - k,
{
    if k >= items.len() {
        None
    } else if touches(l, items, k, width, x) {
        Some(k)
    } else {
        touched(l, items, k + 1, width, x)
    }
}

/// The number of a place: that of its button, or of an action behind all buttons.
pub open spec fn slot_of(l: LayerView, item: PlaceView) -> int {
    match item.kind {
        PlaceKind::Button(b) => b,
        PlaceKind::Action(a) => l.buttons.len() + a,
    }
}

/// The first place from `k` on that has a number.
pub open spec fn slotted(l: LayerView, items: Seq<PlaceView>, k: nat, slot: int) -> Option<nat>
    decreases items.len() - k,
{
    if k >= items.len() {
        None
    } else if slot_of(l, items[k as int]) == slot {
        Some(k)
    } else {
        slotted(l, items, k + 1, slot)
    }
}

/// Whether a touch lies within a place on the bar, in its middle four fifths.
pub open spec fn within(
    l: LayerView,
    items: Seq<PlaceView>,
    k: nat,
    width: u16,
    height: u16,
    x: i64,
    y: i64,
) -> bool {
    let left = left_edge(l, items, k, width, 0);
    let w = width_px(l, items[k as int], room(l, items, width, 0)) * ONE;
    &&& shown(items[k as int])
    &&& left <= x <= left + w
    &&& height * ONE <= 10 * y
    &&& 10 * y <= 9 * (height * ONE)
}

/// Whether a touch of a place does anything.
pub open spec fn answers(l: LayerView, item: PlaceView, mgr: Option<&NotificationManager>) -> bool {
    match item.kind {
        PlaceKind::Button(b) => {
            let button = l.buttons[b].1;
            button.interactive() && (button.image is ActiveWindow || button.image
                is ActiveWorkspace || button.visible(None, browsable(mgr)))
        },
        PlaceKind::Action(_) => true,
    }
}

/// The place that is looked at: the one with a number, or the one that a touch
/// lies on.
pub open spec fn looked_at(
    l: LayerView,
    items: Seq<PlaceView>,
    width: u16,
    x: i64,
    slot: Option<usize>,
) -> Option<nat> {
    match slot {
        Some(s) => slotted(l, items, 0, s as int),
        None => touched(l, items, 0, width, x),
    }
}

/// What a touch hits: the number of the place that it lies on, if a touch of it
/// does anything. With a number given, only that place counts. A touch beside a
/// panel hits nothing of it.
pub open spec fn hits(
    l: LayerView,
    width: u16,
    height: u16,
    x: i64,
    y: i64,
    slot: Option<usize>,
    mgr: Option<&NotificationManager>,
) -> Option<int> {
    let items = layout(l, mgr);
    if l.is_panel() && slot is None && x < origin(l, width) {
        None
    } else {
        match looked_at(l, items, width, x, slot) {
            Some(k) => if within(l, items, k, width, height, x, y) && answers(
                l,
                items[k as int],
                mgr,
            ) {
                Some(slot_of(l, items[k as int]))
            } else {
                None
            },
            None => None,
        }
    }
}

/// Where a button begins on the bar, in pixels, if it has any width.
pub open spec fn button_edge(
    l: LayerView,
    width: u16,
    button: usize,
    mgr: Option<&NotificationManager>,
) -> Option<int> {
    let items = layout(l, mgr);
    match slotted(l, items, 0, button as int) {
        Some(k) => if button < l.buttons.len() && shown(items[k as int]) {
            Some(left_edge(l, items, k, width, 0))
        } else {
            None
        },
        None => None,
    }
}

/// Where a touch lies on a slider: a fraction of its width. The slider's own
/// place is taken as it is without notifications. On a slider without width, a
/// touch to the right of it counts as its end.
pub open spec fn fraction_at(l: LayerView, width: u16, i: int, x: i64) -> int {
    let n = l.buttons.len();
    let r = width * ONE - origin(l, width) - BUTTON_SPACING_PX * ONE * (if n == 0 {
        0
    } else {
        n - 1
    });
    let start = l.buttons[i].0;
    let left = (start * r) / (l.virtual_button_count * ONE) * ONE + BUTTON_SPACING_PX * ONE * i
        + origin(l, width);
    let w = (l.width_units(i) * r) / (l.virtual_button_count * ONE);
    let off = x - left;
    if w == 0 {
        if off > 0 {
            ONE as int
        } else {
            0
        }
    } else if w > 0 {
        crate::slider::clamped(off / w)
    } else {
        crate::slider::clamped((-off) / (-w))
    }
}

/// The width of a number of gaps between places.
fn gaps_width(n: usize) -> (r: i128)
    ensures
        r == BUTTON_SPACING_PX * ONE * n,
        r == 16_000_000_000 * n,
{
    assert(BUTTON_SPACING_PX * ONE * n == 16_000_000_000 * n) by (nonlinear_arith)
        requires
            BUTTON_SPACING_PX == 16,
            ONE == 1_000_000_000,
    ;
    16_000_000_000 * n as i128
}

/// Divides by a positive number and rounds down.
fn floor_div(a: i128, b: i128) -> (r: i128)
    requires
        b > 0,
        a > i128::MIN,
    ensures
        r == a as int / b as int,
        -(if a < 0 {
            -a
        } else {
            a as int
        }) <= r,
        r <= (if a < 0 {
            -a
        } else {
            a as int
        }),
{
    if a >= 0 {
        proof {
            assert(0 <= a as int / b as int <= a) by (nonlinear_arith)
                requires
                    a >= 0,
                    b > 0,
            ;
        }
        a / b
    } else {
        let m: i128 = -a;
        let q: i128 = m / b;
        let rest: i128 = m % b;
        proof {
            assert(0 <= m as int / b as int <= m) by (nonlinear_arith)
                requires
                    m >= 0,
                    b > 0,
            ;
            assert(a as int / b as int == if rest == 0 {
                -(q as int)
            } else {
                -(q as int) - 1
            }) by (nonlinear_arith)
                requires
                    b > 0,
                    a == -m,
                    q == m as int / b as int,
                    rest == m as int % b as int,
            ;
            assert(rest != 0 ==> q < m) by (nonlinear_arith)
                requires
                    b > 0,
                    m >= 0,
                    q == m as int / b as int,
                    rest == m as int % b as int,
            ;
        }
        if rest == 0 {
            -q
        } else {
            -q - 1
        }
    }
}

/// A quotient is the same when both are divided one after the other, and the
/// product is taken apart.
proof fn lemma_taken_apart(a: int, b: int, c: int)
    requires
        c > 0,
    ensures
        (a * b) / (c * ONE) == ((a / c) * b + (a % c) * (b / c) + ((a % c) * (b % c)) / c)
            / ONE as int,
{
    let q = a / c;
    let r = a % c;
    let s = b / c;
    let t = b % c;
    let whole = q * b + r * s;
    assert(a == q * c + r && b == s * c + t) by (nonlinear_arith)
        requires
            c > 0,
            q == a / c,
            r == a % c,
            s == b / c,
            t == b % c,
    ;
    assert(a * b == whole * c + r * t) by (nonlinear_arith)
        requires
            a == q * c + r,
            b == s * c + t,
            whole == q * b + r * s,
    ;
    let p = r * t;
    assert((whole * c + p) / c == whole + p / c) by (nonlinear_arith)
        requires
            c > 0,
    ;
    let n = a * b;
    assert(n / (c * ONE) == (n / c) / ONE as int) by (nonlinear_arith)
        requires
            c > 0,
            ONE == 1_000_000_000,
    ;
}

/// The most that a length of a layer can be, in widths of the layer.
pub const MAX_TIMES: i128 = 4_398_046_511_104;

/// The most room that the places of a layer can have, or lack, in pixels.
pub const MAX_ROOM: i128 = 20_000_000_000_000_000_000_000;

/// The most that such a length takes on the bar, in whole pixels.
pub const MAX_PX: i128 = 100_000_000_000_000_000_000_000_000;

/// The pixels that stand for a length of a layer, which is `count` wide and has
/// that much room, in whole pixels.
fn scaled(a: i128, count: i64, room: i128) -> (r: i128)
    requires
        HALF <= count,
        0 <= a,
        a <= MAX_TIMES * count,
        -MAX_ROOM <= room <= MAX_ROOM,
    ensures
        r == (a * room) / (count * ONE),
        -MAX_PX <= r <= MAX_PX,
{
    let c: i128 = count as i128;
    let q: i128 = a / c;
    let rest: i128 = a % c;
    let s: i128 = floor_div(room, c);
    proof {
        let over = room as int % c as int;
        assert(0 <= q <= 4_398_046_511_104) by (nonlinear_arith)
            requires
                0 <= a <= 4_398_046_511_104 * c,
                c > 0,
                q == a as int / c as int,
        ;
        assert(room as int == s * c + over && 0 <= over < c) by (nonlinear_arith)
            requires
                c > 0,
                s == room as int / c as int,
                over == room as int % c as int,
        ;
        assert(0 <= rest < c);
        assert(-20_000_000_000_000_000_000_000 * 4_398_046_511_104 <= q * room
            && q * room <= 20_000_000_000_000_000_000_000 * 4_398_046_511_104) by (nonlinear_arith)
            requires
                0 <= q <= 4_398_046_511_104,
                -20_000_000_000_000_000_000_000 <= room <= 20_000_000_000_000_000_000_000,
        ;
        assert(-30_000_000_000_000_000_000_000 <= s * c <= 30_000_000_000_000_000_000_000);
        assert(-30_000_000_000_000_000_000_000 <= rest * s <= 30_000_000_000_000_000_000_000)
            by (nonlinear_arith)
            requires
                0 <= rest < c,
                -30_000_000_000_000_000_000_000 <= s * c <= 30_000_000_000_000_000_000_000,
        ;
        assert(0 <= rest * over <= (c - 1) * (c - 1)) by (nonlinear_arith)
            requires
                0 <= rest <= c - 1,
                0 <= over <= c - 1,
        ;
        assert((c - 1) * (c - 1) <= 9_223_372_036_854_775_807 * 9_223_372_036_854_775_807)
            by (nonlinear_arith)
            requires
                0 <= c - 1 <= 9_223_372_036_854_775_807,
        ;
        assert(0 <= (rest * over) / c as int <= c) by (nonlinear_arith)
            requires
                0 <= rest * over <= (c - 1) * (c - 1),
                c > 0,
        ;
        lemma_taken_apart(a as int, room as int, c as int);
    }
    let t: i128 = room - s * c;
    let inner: i128 = q * room + rest * s + rest * t / c;
    proof {
        assert(-90_000_000_000_000_000_000_000_000_000_000_000 <= inner
            <= 90_000_000_000_000_000_000_000_000_000_000_000);
    }
    floor_div(inner, ONE as i128)
}

proof fn lemma_kinds(l: LayerView, hidden: bool, actions: nat, n: nat)
    requires
        n <= l.buttons.len(),
    ensures
        forall|k: int|
            0 <= k < layout_upto(l, hidden, actions, n).len() ==> match (#[trigger] layout_upto(
                l,
                hidden,
                actions,
                n,
            )[k]).kind {
                PlaceKind::Button(b) => 0 <= b < n,
                PlaceKind::Action(a) => 0 <= a < actions,
            },
    decreases n,
{
    if n > 0 {
        lemma_kinds(l, hidden, actions, (n - 1) as nat);
    }
}

/// The places of a layer are no wider than four times the layer, and each belongs
/// to a button of the layer or to an action that is on offer.
pub proof fn layout_is_bounded(l: LayerView, mgr: Option<&NotificationManager>)
    requires
        l.wf(),
    ensures
        moderate(l, layout(l, mgr)),
        forall|k: int|
            0 <= k < layout(l, mgr).len() ==> match (#[trigger] layout(l, mgr)[k]).kind {
                PlaceKind::Button(b) => 0 <= b < l.buttons.len(),
                PlaceKind::Action(a) => 0 <= a < action_count(mgr),
            },
{
    lemma_layout(l, nav_hidden(l, mgr), action_count(mgr), l.buttons.len());
    lemma_kinds(l, nav_hidden(l, mgr), action_count(mgr), l.buttons.len());
}

pub(crate) proof fn lemma_shown_before(items: Seq<PlaceView>, j: nat, k: nat)
    requires
        j <= k,
    ensures
        shown_before(items, j) <= shown_before(items, k) <= k,
        shown_before(items, k) - shown_before(items, j) <= k - j,
    decreases k,
{
    if j < k {
        lemma_shown_before(items, j, (k - 1) as nat);
    } else if k > 0 {
        lemma_shown_before(items, (k - 1) as nat, (k - 1) as nat);
    }
}

/// A place begins where the widths of those before it add up to, and only those
/// of some width count.
proof fn lemma_reach(l: LayerView, items: Seq<PlaceView>, k: nat)
    requires
        contiguous(items),
        moderate(l, items),
        k < items.len(),
    ensures
        0 <= items[k as int].start <= 4 * l.virtual_button_count * shown_before(items, k),
        items[k as int].end <= 4 * l.virtual_button_count * shown_before(items, k + 1),
    decreases k,
{
    let c = 4 * l.virtual_button_count;
    let s = shown_before(items, k);
    if k > 0 {
        lemma_reach(l, items, (k - 1) as nat);
        assert(items[k - 1].end == items[k as int].start);
        assert(shown_before(items, (k - 1 + 1) as nat) == s);
    } else {
        assert(c * 0 == 0);
    }
    assert(c * (s + 1) == c * s + c) by (nonlinear_arith);
    assert(items[k as int].start <= items[k as int].end);
}

/// How far a place goes, in widths of its layer, and how much room there is.
proof fn lemma_place(l: LayerView, items: Seq<PlaceView>, k: nat, width: u16, shift: u16)
    requires
        l.wf(),
        contiguous(items),
        moderate(l, items),
        k < items.len(),
        shown_before(items, items.len()) <= MAX_PLACES,
    ensures
        0 <= items[k as int].start <= MAX_TIMES * l.virtual_button_count,
        0 <= items[k as int].end - items[k as int].start <= MAX_TIMES * l.virtual_button_count,
        -MAX_ROOM <= room(l, items, width, shift) <= 65_535_000_000_000,
        shown_before(items, k) <= shown_before(items, items.len()),
{
    lemma_reach(l, items, k);
    lemma_shown_before(items, k, items.len());
    lemma_room(l, items, width, shift);
    let c = 4 * l.virtual_button_count;
    let s = shown_before(items, k);
    assert(c * s <= c * 1_099_511_627_776) by (nonlinear_arith)
        requires
            0 <= s <= 1_099_511_627_776,
            c >= 0,
    ;
    assert(items[k as int].start <= items[k as int].end);
}

proof fn lemma_origin(l: LayerView, width: u16)
    requires
        l.wf(),
    ensures
        0 <= origin(l, width) <= width * ONE,
        width * ONE <= 65_535_000_000_000,
{
    assert(0 <= width * (ONE - l.overlay_coverage) <= width * ONE) by (nonlinear_arith)
        requires
            0 <= l.overlay_coverage <= ONE,
            width >= 0,
    ;
}

proof fn lemma_room(l: LayerView, items: Seq<PlaceView>, width: u16, shift: u16)
    requires
        l.wf(),
    ensures
        room(l, items, width, shift) <= 65_535_000_000_000,
        shown_before(items, items.len()) <= MAX_PLACES ==> -MAX_ROOM <= room(
            l,
            items,
            width,
            shift,
        ),
        0 <= room(l, items, width, shift) ==> shown_before(items, items.len()) <= 4_096,
{
    let n = shown_before(items, items.len());
    lemma_origin(l, width);
    assert(BUTTON_SPACING_PX * ONE * (n - 1) == 16_000_000_000 * (n - 1)) by (nonlinear_arith)
        requires
            BUTTON_SPACING_PX == 16,
            ONE == 1_000_000_000,
    ;
    assert(BUTTON_SPACING_PX * ONE * 0 == 0);
}

/// Where there is no room, nothing is touched.
proof fn lemma_no_room(
    l: LayerView,
    items: Seq<PlaceView>,
    k: nat,
    width: u16,
    height: u16,
    x: i64,
    y: i64,
)
    requires
        l.wf(),
        room(l, items, width, 0) < 0,
    ensures
        !touches(l, items, k, width, x),
        !within(l, items, k, width, height, x, y),
{
    let item = items[k as int];
    let r = room(l, items, width, 0);
    let c = l.virtual_button_count as int;
    if shown(item) {
        assert(item.start * r > item.end * r) by (nonlinear_arith)
            requires
                item.start < item.end,
                r < 0,
        ;
        assert((item.end - item.start) * r < 0) by (nonlinear_arith)
            requires
                item.start < item.end,
                r < 0,
        ;
        let p = (item.end - item.start) * r;
        let d = c * ONE;
        assert(p / d < 0) by (nonlinear_arith)
            requires
                p < 0,
                d > 0,
        ;
    }
}

/// Counts those of the first places that have any width.
fn count_shown(items: &Vec<LayoutItem>, k: usize) -> (r: usize)
    requires
        k <= items@.len(),
    ensures
        r == shown_before(places_of(items@), k as nat),
        r <= k,
{
    let ghost all = places_of(items@);
    let mut n: usize = 0;
    let mut i: usize = 0;
    while i < k
        invariant
            i <= k,
            k <= items@.len(),
            all == places_of(items@),
            n == shown_before(all, i as nat),
            n <= i,
        decreases k - i,
    {
        assert(all[i as int] == items@[i as int]@);
        if items[i].end > items[i].start {
            n += 1;
        }
        i += 1;
    }
    n
}

impl FunctionLayer {
    /// Where the layer begins, in pixels.
    pub fn overlay_origin(&self, width: u16) -> (r: i64)
        requires
            self@.wf(),
        ensures
            r == origin(self@, width),
            0 <= r <= width * ONE,
    {
        proof {
            lemma_origin(self@, width);
        }
        if self.is_overlay() {
            width as i64 * (ONE - self.overlay_coverage)
        } else {
            0
        }
    }

    /// The pixels for the places of the layer.
    fn room_for(&self, items: &Vec<LayoutItem>, width: u16, shift: u16) -> (r: i128)
        requires
            self@.wf(),
        ensures
            r == room(self@, places_of(items@), width, shift),
    {
        proof {
            lemma_origin(self@, width);
        }
        let n = count_shown(items, items.len());
        let gaps: usize = if n == 0 {
            0
        } else {
            n - 1
        };
        width as i128 * ONE as i128 - self.overlay_origin(width) as i128 - shift as i128
            * ONE as i128 - gaps_width(gaps)
    }

    /// Where a place begins on the bar, in pixels.
    pub(crate) fn place_left(
        &self,
        items: &Vec<LayoutItem>,
        k: usize,
        width: u16,
        shift: u16,
    ) -> (r: i128)
        requires
            self@.wf(),
            contiguous(places_of(items@)),
            moderate(self@, places_of(items@)),
            shown_before(places_of(items@), items@.len()) <= MAX_PLACES,
            k < items@.len(),
        ensures
            r == left_edge(self@, places_of(items@), k as nat, width, shift),
            -MAX_PX * 2_000_000_000 <= r <= MAX_PX * 2_000_000_000,
    {
        let ghost all = places_of(items@);
        let r = self.room_for(items, width, shift);
        let start = items[k].start;
        proof {
            assert(all[k as int] == items@[k as int]@);
            lemma_place(self@, all, k as nat, width, shift);
            lemma_origin(self@, width);
        }
        let px = scaled(start, self.virtual_button_count, r);
        let before = count_shown(items, k);
        assert(-100_000_000_000_000_000_000_000_000_000_000_000 <= px * ONE
            <= 100_000_000_000_000_000_000_000_000_000_000_000);
        px * ONE as i128 + gaps_width(before) + self.overlay_origin(width) as i128
    }

    /// How wide a place is, in whole pixels.
    pub(crate) fn place_width(
        &self,
        items: &Vec<LayoutItem>,
        k: usize,
        width: u16,
        shift: u16,
    ) -> (r: i128)
        requires
            self@.wf(),
            contiguous(places_of(items@)),
            moderate(self@, places_of(items@)),
            shown_before(places_of(items@), items@.len()) <= MAX_PLACES,
            k < items@.len(),
        ensures
            r == width_px(
                self@,
                places_of(items@)[k as int],
                room(self@, places_of(items@), width, shift),
            ),
            -MAX_PX <= r <= MAX_PX,
    {
        let ghost all = places_of(items@);
        let r = self.room_for(items, width, shift);
        proof {
            assert(all[k as int] == items@[k as int]@);
            lemma_place(self@, all, k as nat, width, shift);
        }
        let w: i128 = items[k].end - items[k].start;
        scaled(w, self.virtual_button_count, r)
    }

    /// Whether a touch lies on a place, where there is room.
    fn is_touched(&self, items: &Vec<LayoutItem>, k: usize, width: u16, x: i64) -> (r: bool)
        requires
            self@.wf(),
            contiguous(places_of(items@)),
            moderate(self@, places_of(items@)),
            0 <= room(self@, places_of(items@), width, 0),
            k < items@.len(),
        ensures
            r == touches(self@, places_of(items@), k as nat, width, x),
    {
        let ghost all = places_of(items@);
        let item = items[k];
        let r = self.room_for(items, width, 0);
        let before = count_shown(items, k);
        proof {
            assert(all[k as int] == item@);
            lemma_room(self@, all, width, 0);
            lemma_reach(self@, all, k as nat);
            lemma_shown_before(all, k as nat, all.len());
            lemma_shown_before(all, (k + 1) as nat, all.len());
            lemma_origin(self@, width);
            let c = self.virtual_button_count as int;
            let s = shown_before(all, k as nat) as int;
            let e = shown_before(all, (k + 1) as nat) as int;
            assert(4 * c * s <= 151_115_727_451_828_646_838_272 && 4 * c * e
                <= 151_115_727_451_828_646_838_272) by (nonlinear_arith)
                requires
                    0 <= c <= 9_223_372_036_854_775_807,
                    0 <= s <= 4_096,
                    0 <= e <= 4_096,
            ;
            let a = item.start as int;
            let b = item.end as int;
            assert(0 <= a <= b);
            assert(0 <= a * r <= 10_000_000_000_000_000_000_000_000_000_000_000_000 && 0 <= b * r
                <= 10_000_000_000_000_000_000_000_000_000_000_000_000) by (nonlinear_arith)
                requires
                    0 <= a <= 151_115_727_451_828_646_838_272,
                    0 <= b <= 151_115_727_451_828_646_838_272,
                    0 <= r <= 65_535_000_000_000,
            ;
        }
        let from: i128 = x as i128 - gaps_width(before) - self.overlay_origin(width) as i128;
        proof {
            let c = self.virtual_button_count as int;
            assert(-9_300_000_000_000_000_000 <= from <= 9_300_000_000_000_000_000);
            assert(-9_300_000_000_000_000_000 * 9_223_372_036_854_775_807 <= from * c && from * c
                <= 9_300_000_000_000_000_000 * 9_223_372_036_854_775_807) by (nonlinear_arith)
                requires
                    -9_300_000_000_000_000_000 <= from <= 9_300_000_000_000_000_000,
                    0 <= c <= 9_223_372_036_854_775_807,
            ;
        }
        let off: i128 = from * self.virtual_button_count as i128;
        item.end > item.start && item.start * r <= off && off <= item.end * r
    }

    /// Finds the place that a touch lies on, where there is room.
    fn find_touched(&self, items: &Vec<LayoutItem>, width: u16, x: i64) -> (r: Option<usize>)
        requires
            self@.wf(),
            contiguous(places_of(items@)),
            moderate(self@, places_of(items@)),
            0 <= room(self@, places_of(items@), width, 0),
        ensures
            match r {
                Some(k) => k < items@.len() && touched(
                    self@,
                    places_of(items@),
                    0,
                    width,
                    x,
                ) == Some(k as nat),
                None => touched(self@, places_of(items@), 0, width, x) is None,
            },
    {
        let ghost all = places_of(items@);
        let n = items.len();
        let mut i: usize = 0;
        while i < n
            invariant
                i <= n,
                n == items@.len(),
                self@.wf(),
                all == places_of(items@),
                contiguous(all),
                moderate(self@, all),
                0 <= room(self@, all, width, 0),
                touched(self@, all, 0, width, x) == touched(self@, all, i as nat, width, x),
            decreases n - i,
        {
            if self.is_touched(items, i, width, x) {
                return Some(i);
            }
            i += 1;
        }
        None
    }

    /// Finds the place that has a number.
    fn find_slot(&self, items: &Vec<LayoutItem>, slot: usize) -> (r: Option<usize>)
        requires
            self@.wf(),
        ensures
            match r {
                Some(k) => k < items@.len() && slotted(
                    self@,
                    places_of(items@),
                    0,
                    slot as int,
                ) == Some(k as nat),
                None => slotted(self@, places_of(items@), 0, slot as int) is None,
            },
    {
        let ghost all = places_of(items@);
        let n = items.len();
        let mut i: usize = 0;
        while i < n
            invariant
                i <= n,
                n == items@.len(),
                all == places_of(items@),
                slotted(self@, all, 0, slot as int) == slotted(self@, all, i as nat, slot as int),
            decreases n - i,
        {
            assert(all[i as int] == items@[i as int]@);
            let found = match items[i].kind {
                LayoutItemKind::Button(b) => b == slot,
                LayoutItemKind::NotificationAction(a) => slot >= self.buttons.len() && a == slot
                    - self.buttons.len(),
            };
            if found {
                return Some(i);
            }
            i += 1;
        }
        None
    }

    /// Where a button begins on the bar, in pixels, if it has any width.
    pub fn button_left_edge(
        &self,
        width: u16,
        button_index: usize,
        notification_mgr: Option<&NotificationManager>,
    ) -> (r: Option<i128>)
        requires
            self@.wf(),
            fits(self@, notification_mgr),
        ensures
            match r {
                Some(x) => button_edge(self@, width, button_index, notification_mgr) == Some(
                    x as int,
                ),
                None => button_edge(self@, width, button_index, notification_mgr) is None,
            },
    {
        let items = self.layout_items(notification_mgr);
        let ghost all = places_of(items@);
        proof {
            layout_is_bounded(self@, notification_mgr);
            layout_is_contiguous(self@, notification_mgr);
            lemma_shown_before(all, 0, all.len());
        }
        if button_index >= self.buttons.len() {
            return None;
        }
        match self.find_slot(&items, button_index) {
            Some(k) => {
                assert(all[k as int] == items@[k as int]@);
                if items[k].end <= items[k].start {
                    None
                } else {
                    Some(self.place_left(&items, k, width, 0))
                }
            },
            None => None,
        }
    }

    /// What a touch hits.
    pub fn hit(
        &self,
        width: u16,
        height: u16,
        x: i64,
        y: i64,
        i: Option<usize>,
        notification_mgr: Option<&NotificationManager>,
    ) -> (r: Option<usize>)
        requires
            self@.wf(),
        ensures
            match r {
                Some(s) => hits(self@, width, height, x, y, i, notification_mgr) == Some(s as int),
                None => hits(self@, width, height, x, y, i, notification_mgr) is None,
            },
    {
        let ghost l = self@;
        if self.is_overlay() && i.is_none() && x < self.overlay_origin(width) {
            return None;
        }
        let items = self.layout_items(notification_mgr);
        let ghost all = places_of(items@);
        proof {
            layout_is_bounded(l, notification_mgr);
            layout_is_contiguous(l, notification_mgr);
            lemma_room(l, all, width, 0);
        }
        if self.room_for(&items, width, 0) < 0 {
            proof {
                match looked_at(l, all, width, x, i) {
                    Some(k) => {
                        lemma_no_room(l, all, k, width, height, x, y);
                    },
                    None => {},
                }
            }
            return None;
        }
        let found = match i {
            Some(slot) => self.find_slot(&items, slot),
            None => self.find_touched(&items, width, x),
        };
        let k = match found {
            Some(k) => k,
            None => {
                return None;
            },
        };
        let item = items[k];
        assert(all[k as int] == item@);
        if item.end <= item.start {
            return None;
        }
        let left = self.place_left(&items, k, width, 0);
        let w = self.place_width(&items, k, width, 0);
        let tall: i128 = height as i128 * ONE as i128;
        if (x as i128) < left || x as i128 > left + w * ONE as i128 || 10 * (y as i128) < tall || 10
            * (y as i128) > 9 * tall {
            return None;
        }
        assert(within(l, all, k as nat, width, height, x, y));
        match item.kind {
            LayoutItemKind::Button(b) => {
                let button = &self.buttons[b].1;
                assert(l.buttons[b as int].1 == button@);
                if !button.is_interactive() {
                    return None;
                }
                if button.is_active_window() || button.is_active_workspace() {
                    return Some(b);
                }
                if !button.is_visible(None, notification_mgr) {
                    return None;
                }
                Some(b)
            },
            LayoutItemKind::NotificationAction(a) => {
                proof {
                    lemma_slot_counted(l, notification_mgr, k as nat);
                }
                Some(self.buttons.len() + a)
            },
        }
    }

    /// Where a touch lies on a slider, as a fraction of its width.
    pub fn slider_fraction(&self, width: u16, i: usize, x: i64) -> (r: i64)
        requires
            self@.wf(),
            i < self.buttons@.len(),
        ensures
            r == fraction_at(self@, width, i as int, x),
            0 <= r <= ONE,
    {
        let ghost l = self@;
        let n = self.buttons.len();
        let origin_x = self.overlay_origin(width);
        proof {
            assert(n == l.buttons.len());
            lemma_origin(l, width);
        }
        let r: i128 = width as i128 * ONE as i128 - origin_x as i128 - gaps_width(n - 1);
        let start = self.buttons[i].0;
        let units = self.button_width_units(i);
        proof {
            assert(l.buttons[i as int].0 == start);
            lemma_width_units(l, i as int);
        }
        let left: i128 = scaled(start as i128, self.virtual_button_count, r) * ONE as i128
            + gaps_width(i) + origin_x as i128;
        let w: i128 = scaled(units as i128, self.virtual_button_count, r);
        let off: i128 = x as i128 - left;
        let f: i128 = if w == 0 {
            return if off > 0 {
                ONE
            } else {
                0
            };
        } else if w > 0 {
            floor_div(off, w)
        } else {
            floor_div(-off, -w)
        };
        if f < 0 {
            0
        } else if f > ONE as i128 {
            ONE
        } else {
            f as i64
        }
    }
}

/// An action stands behind the button with the text, and so do those before it.
proof fn lemma_action_index(l: LayerView, hidden: bool, actions: nat, n: nat, k: nat)
    requires
        l.wf(),
        n <= l.buttons.len(),
        k < layout_upto(l, hidden, actions, n).len(),
    ensures
        layout_upto(l, hidden, actions, n)[k as int].kind matches PlaceKind::Action(a) ==> a + 1
            <= k && content_count(l, n) > 0,
    decreases n,
{
    if n > 0 {
        let m = (n - 1) as nat;
        let earlier = layout_upto(l, hidden, actions, m);
        let all = layout_upto(l, hidden, actions, n);
        if k < earlier.len() {
            lemma_action_index(l, hidden, actions, m, k);
            assert(all[k as int] == earlier[k as int]);
        } else if k > earlier.len() {
            let end = edge(earlier) + laid_width(l, m as int, hidden, actions);
            assert(all[k as int] == action_items(end, actions)[k - earlier.len() - 1]);
        }
    }
}

/// The number of an action is one that the places of its layer can have.
proof fn lemma_slot_counted(l: LayerView, mgr: Option<&NotificationManager>, k: nat)
    requires
        l.wf(),
        k < layout(l, mgr).len(),
    ensures
        layout(l, mgr)[k as int].kind matches PlaceKind::Action(a) ==> l.buttons.len() + a < layout(
            l,
            mgr,
        ).len(),
{
    let n = l.buttons.len();
    let actions = action_count(mgr);
    let c = content_count(l, n);
    lemma_action_index(l, nav_hidden(l, mgr), actions, n, k);
    lemma_kinds(l, nav_hidden(l, mgr), actions, n);
    lemma_layout(l, nav_hidden(l, mgr), actions, n);
    if layout(l, mgr)[k as int].kind is Action {
        assert(actions <= c * actions) by (nonlinear_arith)
            requires
                c >= 1,
                actions >= 0,
        ;
    }
}

proof fn lemma_buttons_ascend(l: LayerView, hidden: bool, actions: nat, n: nat)
    requires
        l.wf(),
        n <= l.buttons.len(),
    ensures
        forall|i: int, j: int|
            0 <= i < j < layout_upto(l, hidden, actions, n).len() && (#[trigger] layout_upto(
                l,
                hidden,
                actions,
                n,
            )[i]).kind is Button && (#[trigger] layout_upto(l, hidden, actions, n)[j]).kind is Button
                ==> layout_upto(l, hidden, actions, n)[i].kind->Button_0 < layout_upto(
                l,
                hidden,
                actions,
                n,
            )[j].kind->Button_0,
        content_count(l, n) <= 1 ==> forall|i: int, j: int|
            0 <= i < j < layout_upto(l, hidden, actions, n).len() && (#[trigger] layout_upto(
                l,
                hidden,
                actions,
                n,
            )[i]).kind is Action && (#[trigger] layout_upto(l, hidden, actions, n)[j]).kind is Action
                ==> layout_upto(l, hidden, actions, n)[i].kind->Action_0 < layout_upto(
                l,
                hidden,
                actions,
                n,
            )[j].kind->Action_0,
    decreases n,
{
    if n > 0 {
        let m = (n - 1) as nat;
        lemma_buttons_ascend(l, hidden, actions, m);
        lemma_kinds(l, hidden, actions, m);
        let earlier = layout_upto(l, hidden, actions, m);
        let all = layout_upto(l, hidden, actions, n);
        let end = edge(earlier) + laid_width(l, m as int, hidden, actions);
        assert forall|i: int, j: int|
            0 <= i < j < all.len() && (#[trigger] all[i]).kind is Button && (#[trigger] all[j]).kind
                is Button implies all[i].kind->Button_0 < all[j].kind->Button_0 by {
            if j < earlier.len() {
                assert(all[i] == earlier[i] && all[j] == earlier[j]);
            } else {
                assert(j == earlier.len());
                assert(all[i] == earlier[i]);
            }
        }
        if content_count(l, n) <= 1 {
            assert forall|i: int, j: int|
                0 <= i < j < all.len() && (#[trigger] all[i]).kind is Action && (
                #[trigger] all[j]).kind is Action implies all[i].kind->Action_0
                < all[j].kind->Action_0 by {
                if j < earlier.len() {
                    assert(all[i] == earlier[i] && all[j] == earlier[j]);
                } else {
                    assert(j > earlier.len());
                    assert(content_count(l, m) == 0);
                    assert(all[j] == action_items(end, actions)[j - earlier.len() - 1]);
                    if i < earlier.len() {
                        assert(all[i] == earlier[i]);
                        lemma_action_index(l, hidden, actions, m, i as nat);
                    } else {
                        assert(all[i] == action_items(end, actions)[i - earlier.len() - 1]);
                    }
                }
            }
        }
    }
}

proof fn lemma_slotted(l: LayerView, items: Seq<PlaceView>, from: nat, k: nat, slot: int)
    requires
        from <= k < items.len(),
        slot_of(l, items[k as int]) == slot,
        forall|j: int| from <= j < k ==> slot_of(l, #[trigger] items[j]) != slot,
    ensures
        slotted(l, items, from, slot) == Some(k),
    decreases k - from,
{
    if from < k {
        assert(slot_of(l, items[from as int]) != slot);
        lemma_slotted(l, items, from + 1, k, slot);
    }
}

proof fn lemma_touched(l: LayerView, items: Seq<PlaceView>, k: nat, width: u16, x: i64)
    ensures
        touched(l, items, k, width, x) matches Some(t) ==> k <= t < items.len() && touches(
            l,
            items,
            t,
            width,
            x,
        ),
    decreases items.len() - k,
{
    if k < items.len() && !touches(l, items, k, width, x) {
        lemma_touched(l, items, k + 1, width, x);
    }
}

/// A touch that hits a place goes on hitting it while it stays where it is: that
/// of a button always, and that of an action on a layer that shows a
/// notification's text only once.
pub proof fn hit_lasts(
    l: LayerView,
    width: u16,
    height: u16,
    x: i64,
    y: i64,
    mgr: Option<&NotificationManager>,
    slot: usize,
)
    requires
        l.wf(),
        slot < l.buttons.len() || content_count(l, l.buttons.len()) <= 1,
        hits(l, width, height, x, y, None, mgr) == Some(slot as int),
    ensures
        hits(l, width, height, x, y, Some(slot), mgr) == Some(slot as int),
{
    let items = layout(l, mgr);
    let k = touched(l, items, 0, width, x)->0;
    let n = l.buttons.len();
    lemma_touched(l, items, 0, width, x);
    lemma_kinds(l, nav_hidden(l, mgr), action_count(mgr), n);
    lemma_buttons_ascend(l, nav_hidden(l, mgr), action_count(mgr), n);
    assert(slot_of(l, items[k as int]) == slot);
    assert forall|j: int| 0 <= j < k implies slot_of(l, #[trigger] items[j]) != slot by {
        assert(items[k as int].kind is Button || items[k as int].kind is Action);
    }
    lemma_slotted(l, items, 0, k, slot as int);
}

/// What a touch hits is a place that it lies within, of a button that answers to
/// touches or of an action that is on offer.
pub proof fn hit_lies_within(
    l: LayerView,
    width: u16,
    height: u16,
    x: i64,
    y: i64,
    slot: Option<usize>,
    mgr: Option<&NotificationManager>,
)
    requires
        l.wf(),
    ensures
        hits(l, width, height, x, y, slot, mgr) matches Some(s) ==> {
            &&& 0 <= s < l.buttons.len() + action_count(mgr)
            &&& slot matches Some(wanted) ==> s == wanted
            &&& height * ONE <= 10 * y <= 9 * (height * ONE)
            &&& s < l.buttons.len() ==> l.buttons[s].1.interactive() && (l.buttons[s].1.image
                is ActiveWindow || l.buttons[s].1.image is ActiveWorkspace
                || l.buttons[s].1.visible(None, browsable(mgr)))
            &&& exists|k: nat|
                k < layout(l, mgr).len() && slot_of(l, #[trigger] layout(l, mgr)[k as int]) == s
                    && within(l, layout(l, mgr), k, width, height, x, y)
        },
{
    let items = layout(l, mgr);
    let n = l.buttons.len();
    lemma_kinds(l, nav_hidden(l, mgr), action_count(mgr), n);
    lemma_touched(l, items, 0, width, x);
    match slot {
        Some(wanted) => {
            lemma_slotted_has(l, items, 0, wanted as int);
        },
        None => {},
    }
    if hits(l, width, height, x, y, slot, mgr) is Some {
        let k = looked_at(l, items, width, x, slot)->0;
        assert(slot_of(l, items[k as int]) == hits(l, width, height, x, y, slot, mgr)->0);
    }
}

proof fn lemma_slotted_has(l: LayerView, items: Seq<PlaceView>, k: nat, slot: int)
    ensures
        slotted(l, items, k, slot) matches Some(t) ==> k <= t < items.len() && slot_of(
            l,
            items[t as int],
        ) == slot,
    decreases items.len() - k,
{
    if k < items.len() && slot_of(l, items[k as int]) != slot {
        lemma_slotted_has(l, items, k + 1, slot);
    }
}

/// A touch beside a panel hits nothing of it.
pub proof fn touch_beside_panel_misses(
    l: LayerView,
    width: u16,
    height: u16,
    x: i64,
    y: i64,
    mgr: Option<&NotificationManager>,
)
    requires
        l.is_panel(),
        x < origin(l, width),
    ensures
        hits(l, width, height, x, y, None, mgr) is None,
{
}

proof fn lemma_places_ascend(items: Seq<PlaceView>, j: int, k: int)
    requires
        contiguous(items),
        0 <= j < k < items.len(),
    ensures
        items[j].end <= items[k].start,
    decreases k - j,
{
    if j + 1 == k {
        assert(items[j].end == items[k].start);
    } else {
        lemma_places_ascend(items, j, k - 1);
        assert(items[k - 1].start <= items[k - 1].end);
        assert(items[k - 1].end == items[k].start);
    }
}

proof fn lemma_first_touched(l: LayerView, items: Seq<PlaceView>, from: nat, k: nat, width: u16, x: i64)
    requires
        from <= k < items.len(),
        touches(l, items, k, width, x),
        forall|j: nat| from <= j < k ==> !#[trigger] touches(l, items, j, width, x),
    ensures
        touched(l, items, from, width, x) == Some(k),
    decreases k - from,
{
    if from < k {
        assert(!touches(l, items, from, width, x));
        lemma_first_touched(l, items, from + 1, k, width, x);
    }
}

/// What a place covers on a bar that is not shifted: from where to where, in
/// pixels.
pub open spec fn covers(
    l: LayerView,
    mgr: Option<&NotificationManager>,
    k: int,
    width: u16,
    x: int,
) -> bool {
    let items = layout(l, mgr);
    let left = left_edge(l, items, k as nat, width, 0);
    let w = width_px(l, items[k], room(l, items, width, 0));
    left + 1_000_000_000 <= x <= left + w * 1_000_000_000
}

/// A touch of what a place covers, no nearer than a pixel to its left edge and in
/// the middle four fifths of the height, hits the place that is there, if it
/// answers to touches, and no other one.
pub proof fn touch_inside_a_place_hits_it(
    l: LayerView,
    width: u16,
    height: u16,
    x: i64,
    y: i64,
    mgr: Option<&NotificationManager>,
    k: int,
)
    requires
        l.wf(),
        0 <= k < layout(l, mgr).len(),
        shown(layout(l, mgr)[k]),
        0 <= room(l, layout(l, mgr), width, 0),
        covers(l, mgr, k, width, x as int),
        height * 1_000_000_000 <= 10 * y <= 9 * (height * 1_000_000_000),
    ensures
        match layout(l, mgr)[k].kind {
            PlaceKind::Button(b) => {
                let button = l.buttons[b].1;
                let in_view = button.image is ActiveWindow || button.image is ActiveWorkspace
                    || button.visible(None, browsable(mgr));
                hits(l, width, height, x, y, None, mgr) == if button.interactive() && in_view {
                    Some(b)
                } else {
                    None
                }
            },
            PlaceKind::Action(a) => hits(l, width, height, x, y, None, mgr) == Some(
                l.buttons.len() + a,
            ),
        },
{
    let items = layout(l, mgr);
    let n = k as nat;
    layout_is_contiguous(l, mgr);
    layout_is_bounded(l, mgr);
    let item = items[k];
    let r = room(l, items, width, 0);
    let vc = l.virtual_button_count as int;
    let d = vc * ONE;
    let gap = BUTTON_SPACING_PX * ONE * shown_before(items, n);
    let at = x - gap - origin(l, width);
    let sp = (item.start * r) / d;
    let wp = ((item.end - item.start) * r) / d;
    assert(0 <= item.start);
    lemma_origin(l, width);
    lemma_inside(item.start, item.end, r, vc, at);
    assert(item.start * r >= 0) by (nonlinear_arith)
        requires
            item.start >= 0,
            r >= 0,
    ;
    assert(sp >= 0) by (nonlinear_arith)
        requires
            sp == (item.start * r) / d,
            item.start * r >= 0,
            d > 0,
    ;
    assert(gap >= 0);
    assert(touches(l, items, n, width, x));
    assert forall|j: nat| 0 <= j < n implies !#[trigger] touches(l, items, j, width, x) by {
        let before = items[j as int];
        lemma_places_ascend(items, j as int, k);
        lemma_shown_before(items, j + 1, n);
        if shown(before) {
            assert(shown_before(items, j + 1) == shown_before(items, j) + 1);
            let off = x - BUTTON_SPACING_PX * ONE * shown_before(items, j) - origin(l, width);
            assert(off >= at + 16_000_000_000);
            assert(off * vc >= at * vc + 16_000_000_000 * vc) by (nonlinear_arith)
                requires
                    off >= at + 16_000_000_000,
                    vc > 0,
            ;
            assert(before.end * r <= item.start * r) by (nonlinear_arith)
                requires
                    before.end <= item.start,
                    r >= 0,
            ;
        }
    }
    lemma_first_touched(l, items, 0, n, width, x);
    assert(within(l, items, n, width, height, x, y));
}

proof fn lemma_inside(start: int, end: int, r: int, vc: int, at: int)
    requires
        r >= 0,
        vc > 0,
        0 <= start <= end,
        ({
            let d = vc * ONE;
            let left = (start * r) / d * ONE;
            left + 1_000_000_000 <= at <= left + ((end - start) * r) / d * ONE
        }),
    ensures
        start * r <= at * vc,
        at * vc <= end * r,
{
    let d = vc * ONE;
    assert(d > 0);
    let a = start * r;
    let b = (end - start) * r;
    let p = a / d;
    let q = b / d;
    assert(a == d * p + a % d && 0 <= a % d < d) by (nonlinear_arith)
        requires
            d > 0,
            p == a / d,
    ;
    assert(b == d * q + b % d && 0 <= b % d < d) by (nonlinear_arith)
        requires
            d > 0,
            q == b / d,
    ;
    assert(end * r == a + b) by (nonlinear_arith)
        requires
            a == start * r,
            b == (end - start) * r,
    ;
    assert(d * p == vc * (p * ONE) && d * q == vc * (q * ONE)) by (nonlinear_arith)
        requires
            d == vc * ONE,
    ;
    assert(at * vc >= vc * (p * ONE) + d) by (nonlinear_arith)
        requires
            at >= p * ONE + ONE,
            d == vc * ONE,
            vc > 0,
    ;
    assert(at * vc <= vc * (p * ONE) + vc * (q * ONE)) by (nonlinear_arith)
        requires
            at <= p * ONE + q * ONE,
            vc > 0,
    ;
}

/// Two places that follow each other on the bar keep their distance: the second
/// begins sixteen pixels behind the end of the first, or one more where rounding
/// to whole pixels leaves one over. The first place begins where the layer does.
pub proof fn places_keep_their_distance(
    l: LayerView,
    mgr: Option<&NotificationManager>,
    k: int,
    width: u16,
    shift: u16,
)
    requires
        l.wf(),
        0 <= k,
        k + 1 < layout(l, mgr).len(),
        shown(layout(l, mgr)[k]),
    ensures
        ({
            let items = layout(l, mgr);
            let r = room(l, items, width, shift);
            let end = left_edge(l, items, k as nat, width, shift) + width_px(l, items[k], r)
                * 1_000_000_000;
            let next = left_edge(l, items, (k + 1) as nat, width, shift);
            &&& next - end == 16_000_000_000 || next - end == 17_000_000_000
            &&& left_edge(l, items, 0, width, shift) == if l.overlay_parent is Some {
                width * (1_000_000_000 - l.overlay_coverage)
            } else {
                0
            }
        }),
{
    let items = layout(l, mgr);
    layout_is_contiguous(l, mgr);
    let r = room(l, items, width, shift);
    let d = l.virtual_button_count * ONE;
    assert(items[k].end == items[k + 1].start);
    assert(items[k].start <= items[k].end);
    assert(shown_before(items, (k + 1) as nat) == shown_before(items, k as nat) + 1);
    let a = items[k].start * r;
    let b = (items[k].end - items[k].start) * r;
    assert(items[k + 1].start * r == a + b) by (nonlinear_arith)
        requires
            a == items[k].start * r,
            b == (items[k].end - items[k].start) * r,
            items[k].end == items[k + 1].start,
    ;
    lemma_floors(a, b, d as int);
    assert(items[0].start == 0);
    assert(0 * r == 0);
    assert((0int) / (d as int) == 0) by (nonlinear_arith)
        requires
            d > 0,
    ;
    assert(shown_before(items, 0) == 0);
}

proof fn lemma_floors(a: int, b: int, d: int)
    requires
        d > 0,
    ensures
        (a + b) / d == a / d + b / d || (a + b) / d == a / d + b / d + 1,
{
    let p = a / d;
    let q = b / d;
    let s = (a + b) / d;
    assert(a == d * p + a % d && 0 <= a % d < d) by (nonlinear_arith)
        requires
            d > 0,
            p == a / d,
    ;
    assert(b == d * q + b % d && 0 <= b % d < d) by (nonlinear_arith)
        requires
            d > 0,
            q == b / d,
    ;
    assert(a + b == d * s + (a + b) % d && 0 <= (a + b) % d < d) by (nonlinear_arith)
        requires
            d > 0,
            s == (a + b) / d,
    ;
    assert(d * (s - p - q) == d * s - d * p - d * q) by (nonlinear_arith);
    let e = s - p - q;
    assert(-d < d * e < 2 * d);
    assert(e > -1 && e < 2) by (nonlinear_arith)
        requires
            d > 0,
            -d < d * e < 2 * d,
    ;
}

/// Where a slider that is laid out without notifications begins and how wide it
/// is, in pixels: sixteen pixels lie between buttons.
pub open spec fn is_slider_place(l: LayerView, width: u16, i: int, left: int, w: int) -> bool {
    let r = width * 1_000_000_000 - (if l.overlay_parent is Some {
        width * (1_000_000_000 - l.overlay_coverage)
    } else {
        0
    }) - 16_000_000_000 * (l.buttons.len() - 1);
    let end = if i + 1 < l.buttons.len() {
        l.buttons[i + 1].0
    } else {
        l.virtual_button_count
    };
    &&& left == (l.buttons[i].0 * r) / (l.virtual_button_count * 1_000_000_000) * 1_000_000_000
        + 16_000_000_000 * i + (if l.overlay_parent is Some {
        width * (1_000_000_000 - l.overlay_coverage)
    } else {
        0
    })
    &&& w == ((end - l.buttons[i].0) * r) / (l.virtual_button_count * 1_000_000_000)
}

/// A finger on a slider stands for a fraction of its width: nothing at its left
/// edge and left of it, one whole at its right edge and right of it, and between
/// them as much of the width as lies left of the finger, to a billionth.
pub proof fn fraction_follows_the_finger(l: LayerView, width: u16, i: int, x: i64, left: int, w: int)
    requires
        l.wf(),
        0 <= i < l.buttons.len(),
        is_slider_place(l, width, i, left, w),
        w > 0,
    ensures
        ({
            let f = fraction_at(l, width, i, x);
            &&& 0 <= f <= 1_000_000_000
            &&& x <= left ==> f == 0
            &&& x >= left + w * 1_000_000_000 ==> f == 1_000_000_000
            &&& left <= x <= left + w * 1_000_000_000 ==> f * w <= x - left < (f + 1) * w
        }),
{
    let off = x - left;
    let q = off / w;
    assert(BUTTON_SPACING_PX * ONE == 16_000_000_000);
    assert(fraction_at(l, width, i, x) == crate::slider::clamped(q));
    assert(off == w * q + off % w && 0 <= off % w < w) by (nonlinear_arith)
        requires
            w > 0,
            q == off / w,
    ;
    assert(q * w == w * q && (q + 1) * w == w * q + w) by (nonlinear_arith);
    if off < 0 {
        assert(q < 0) by (nonlinear_arith)
            requires
                w > 0,
                w * q <= off,
                off < 0,
        ;
    } else {
        assert(q >= 0) by (nonlinear_arith)
            requires
                w > 0,
                off < w * q + w,
                off >= 0,
        ;
    }
    if off >= w * 1_000_000_000 {
        assert(q >= 1_000_000_000) by (nonlinear_arith)
            requires
                w > 0,
                off < w * q + w,
                off >= w * 1_000_000_000,
        ;
    }
    if off <= w * 1_000_000_000 {
        assert(q <= 1_000_000_000) by (nonlinear_arith)
            requires
                w > 0,
                w * q <= off,
                off <= w * 1_000_000_000,
        ;
    }
    if off == 0 {
        assert(q == 0) by (nonlinear_arith)
            requires
                w > 0,
                w * q <= off < w * q + w,
                off == 0,
        ;
    }
}

/// A slide takes three tenths of a second, and keeps its pace: as much of the
/// panel has come into view, or gone out of it, as of this time has passed.
pub proof fn slide_keeps_its_pace(a: PulloutAnim, now: u64)
    ensures
        ({
            let shown = if a.collapsing {
                1_000_000_000 - a.revealed(now)
            } else {
                a.revealed(now)
            };
            let t = now - a.start;
            &&& a.over(now) <==> t >= 300_000_000
            &&& t >= 300_000_000 ==> shown == 1_000_000_000
            &&& t <= 0 ==> shown == 0
            &&& 0 <= t < 300_000_000 ==> shown * 300_000_000 <= t * 1_000_000_000 < (shown + 1)
                * 300_000_000
        }),
{
}

/// The places of a layer fill the bar: none that lies within the layer goes beyond
/// the right edge, less the pixels that are kept free, and the one that ends the
/// layer comes within two pixels of it.
pub proof fn places_fill_the_bar(
    l: LayerView,
    mgr: Option<&NotificationManager>,
    k: int,
    width: u16,
    shift: u16,
)
    requires
        l.wf(),
        0 <= k < layout(l, mgr).len(),
        shown(layout(l, mgr)[k]),
        layout(l, mgr)[k].end <= l.virtual_button_count,
        0 <= room(l, layout(l, mgr), width, shift),
    ensures
        ({
            let items = layout(l, mgr);
            let r = room(l, items, width, shift);
            let end = left_edge(l, items, k as nat, width, shift) + width_px(l, items[k], r)
                * 1_000_000_000;
            let edge = (width - shift) * 1_000_000_000;
            &&& end <= edge
            &&& items[k].end == l.virtual_button_count && (forall|j: int|
                k < j < items.len() ==> !shown(#[trigger] items[j])) ==> edge - end
                < 2_000_000_000
        }),
{
    let items = layout(l, mgr);
    layout_is_contiguous(l, mgr);
    layout_is_bounded(l, mgr);
    let r = room(l, items, width, shift);
    let vc = l.virtual_button_count as int;
    let d = vc * ONE;
    let item = items[k];
    let a = item.start * r;
    let b = (item.end - item.start) * r;
    assert(0 <= item.start);
    lemma_floors(a, b, d);
    assert(a + b == item.end * r) by (nonlinear_arith)
        requires
            a == item.start * r,
            b == (item.end - item.start) * r,
    ;
    assert(item.end * r <= vc * r) by (nonlinear_arith)
        requires
            item.end <= vc,
            r >= 0,
    ;
    let whole = (a + b) / d;
    assert(a + b == d * whole + (a + b) % d && 0 <= (a + b) % d < d) by (nonlinear_arith)
        requires
            d > 0,
            whole == (a + b) / d,
    ;
    assert(d * whole == vc * (whole * ONE)) by (nonlinear_arith)
        requires
            d == vc * ONE,
    ;
    assert(whole * ONE <= r) by (nonlinear_arith)
        requires
            vc * (whole * ONE) <= vc * r,
            vc > 0,
    ;
    let n = shown_before(items, items.len());
    let before = shown_before(items, k as nat);
    lemma_shown_before(items, (k + 1) as nat, items.len());
    assert(shown_before(items, (k + 1) as nat) == before + 1);
    assert(before + 1 <= n);
    let gaps = 16_000_000_000 * before;
    assert(BUTTON_SPACING_PX * ONE * before == gaps);
    assert(BUTTON_SPACING_PX * ONE * (n - 1) == 16_000_000_000 * (n - 1));
    if item.end == vc && forall|j: int| k < j < items.len() ==> !shown(#[trigger] items[j]) {
        lemma_none_shown(items, (k + 1) as nat, items.len());
        assert(whole * ONE > r - ONE) by (nonlinear_arith)
            requires
                vc * r < vc * (whole * ONE) + d,
                d == vc * ONE,
                vc > 0,
        ;
    }
}

proof fn lemma_none_shown(items: Seq<PlaceView>, from: nat, upto: nat)
    requires
        from <= upto <= items.len(),
        forall|j: int| from <= j < upto ==> !shown(#[trigger] items[j]),
    ensures
        shown_before(items, upto) == shown_before(items, from),
    decreases upto,
{
    if from < upto {
        assert(!shown(items[upto - 1]));
        lemma_none_shown(items, from, (upto - 1) as nat);
    }
}

/// Where a button begins is where its place does, if that has any width; a button
/// without such a place begins nowhere.
pub proof fn button_begins_at_its_place(
    l: LayerView,
    width: u16,
    button: usize,
    mgr: Option<&NotificationManager>,
)
    requires
        l.wf(),
        button < l.buttons.len(),
    ensures
        ({
            let items = layout(l, mgr);
            exists|k: int|
                {
                    &&& 0 <= k < items.len()
                    &&& (#[trigger] items[k]).kind == PlaceKind::Button(button as int)
                    &&& button_edge(l, width, button, mgr) == if items[k].start < items[k].end {
                        Some(left_edge(l, items, k as nat, width, 0))
                    } else {
                        None
                    }
                }
        }),
{
    let items = layout(l, mgr);
    let n = l.buttons.len();
    let hidden = nav_hidden(l, mgr);
    lemma_place_index(l, hidden, action_count(mgr), n, button as nat);
    lemma_kinds(l, hidden, action_count(mgr), n);
    let j = place_index(l, action_count(mgr), button as nat);
    lemma_slotted_found(l, items, 0, j as nat, button as int);
    let k = slotted(l, items, 0, button as int)->0 as int;
    lemma_slotted_has(l, items, 0, button as int);
    assert(items[k].kind == PlaceKind::Button(button as int));
}

proof fn lemma_slotted_found(l: LayerView, items: Seq<PlaceView>, from: nat, k: nat, slot: int)
    requires
        from <= k < items.len(),
        slot_of(l, items[k as int]) == slot,
    ensures
        slotted(l, items, from, slot) is Some,
    decreases k - from,
{
    if from < k && slot_of(l, items[from as int]) != slot {
        lemma_slotted_found(l, items, from + 1, k, slot);
    }
}

/// The buttons to browse notifications are there exactly while there is something to
/// browse: on a layer with notifications they take no room while there are not
/// several of these, and in any other case the room that they are given.
pub proof fn browsing_buttons_come_and_go(l: LayerView, mgr: Option<&NotificationManager>, b: nat)
    requires
        l.wf(),
        b < l.buttons.len(),
        l.buttons[b as int].1.image is Notification,
        ({
            let kind = l.buttons[b as int].1.image->Notification_0;
            kind == NotificationButton::Previous || kind == NotificationButton::Next
        }),
    ensures
        ({
            let items = layout(l, mgr);
            let end = if b + 1 < l.buttons.len() {
                l.buttons[b as int + 1].0
            } else {
                l.virtual_button_count
            };
            let hidden = l.displays_notifications && (mgr matches Some(m) && m.list().len() <= 1);
            exists|k: int|
                {
                    &&& 0 <= k < items.len()
                    &&& (#[trigger] items[k]).kind == PlaceKind::Button(b as int)
                    &&& items[k].end - items[k].start == if hidden {
                        0
                    } else {
                        end - l.buttons[b as int].0
                    }
                }
        }),
{
    let n = l.buttons.len();
    lemma_place_index(l, nav_hidden(l, mgr), action_count(mgr), n, b);
    let k = place_index(l, action_count(mgr), b);
    assert(layout(l, mgr)[k].kind == PlaceKind::Button(b as int));
}

/// A slider without any width is at its end for a finger to the right of it, and at
/// its beginning for any other one.
pub proof fn slider_without_width_has_two_ends(l: LayerView, width: u16, i: int, x: i64, left: int)
    requires
        l.wf(),
        0 <= i < l.buttons.len(),
        is_slider_place(l, width, i, left, 0),
    ensures
        x > left ==> fraction_at(l, width, i, x) == 1_000_000_000,
        x <= left ==> fraction_at(l, width, i, x) == 0,
{
    assert(BUTTON_SPACING_PX * ONE == 16_000_000_000);
}

/// A button is laid out as wide as it is, but for those of the notifications: their
/// text gives way to the actions, by two button widths for each, and keeps at least
/// half of one. Each action is two button widths wide.
pub proof fn text_gives_way_to_its_actions(
    l: LayerView,
    mgr: Option<&NotificationManager>,
    b: nat,
)
    requires
        l.wf(),
        b < l.buttons.len(),
        !(l.displays_notifications && (mgr matches Some(m) && m.list().len() <= 1)),
    ensures
        ({
            let items = layout(l, mgr);
            let own = if b + 1 < l.buttons.len() {
                l.buttons[b as int + 1].0
            } else {
                l.virtual_button_count
            } - l.buttons[b as int].0;
            let text = l.buttons[b as int].1.image matches ImageView::Notification(
                NotificationButton::Text,
                _,
                _,
            );
            let actions = match mgr {
                Some(m) => m.offered().len() as int,
                None => 0,
            };
            let room = own - 2_000_000_000 * actions;
            exists|k: int|
                {
                    &&& 0 <= k < items.len()
                    &&& (#[trigger] items[k]).kind == PlaceKind::Button(b as int)
                    &&& !text ==> items[k].end - items[k].start == own
                    &&& text && room >= 500_000_000 ==> items[k].end - items[k].start == room
                    &&& text && room < 500_000_000 ==> items[k].end - items[k].start == 500_000_000
                    &&& text ==> k + actions < items.len() && forall|a: int|
                        0 <= a < actions ==> (#[trigger] items[k + 1 + a]).kind == PlaceKind::Action(
                            a,
                        ) && items[k + 1 + a].end - items[k + 1 + a].start == 2_000_000_000
                }
        }),
{
    let n = l.buttons.len();
    lemma_place_index(l, nav_hidden(l, mgr), action_count(mgr), n, b);
    let k = place_index(l, action_count(mgr), b);
    assert(layout(l, mgr)[k].kind == PlaceKind::Button(b as int));
    assert(!nav_hidden(l, mgr));
}

} // verus!
