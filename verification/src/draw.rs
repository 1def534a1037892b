//! What is drawn of a layer, and where.

use vstd::prelude::*;
use vstd::string::*;

use crate::button::{browsable, desktop_answers, dnd_known, Button, ButtonView};
use crate::command::text_opt;
use crate::config::Config;
use crate::content::{content, system_view, time_of, weather_view, Ambient, ButtonContent, ContentView};
use crate::layer::{
    contiguous, fits, layout, layout_is_bounded, layout_is_contiguous, left_edge, lemma_shown_before,
    moderate, origin, places_of, room, shown, shown_before, width_px, FunctionLayer, LayerView,
    LayoutItem, LayoutItemKind, PlaceKind, PlaceView, MAX_PLACES,
};
use crate::notification_manager::NotificationManager;
use crate::number::{Color, ONE};
use crate::sysinfo_manager::SystemInfoManager;
use crate::weather::WeatherManager;

verus! {

/// The brightness of a button that is not pressed, and of one that is.
pub const BUTTON_COLOR_INACTIVE: u32 = 2_000;

pub const BUTTON_COLOR_ACTIVE: u32 = 4_000;

/// The radius of a button's corners, in pixels.
pub const CORNER_RADIUS_PX: u16 = 8;

/// A part of the screen, which is turned by a right angle: the first coordinate
/// of a corner runs across the bar, the second along it.
#[derive(Clone, Copy, PartialEq, Eq, Structural, Debug)]
pub struct ClipRect {
    pub x1: u16,
    pub y1: u16,
    pub x2: u16,
    pub y2: u16,
}

/// What a layer is drawn with: the settings, the size of the bar in pixels, how
/// far the picture is shifted and how many pixels are kept free for that,
/// whether everything is drawn again, the sources of what buttons show, and the
/// time in nanoseconds.
pub struct Scene<'a> {
    pub config: &'a Config,
    pub width: u16,
    pub height: u16,
    pub pixel_shift: (i64, i64),
    pub pixel_shift_width: u16,
    pub complete_redraw: bool,
    pub sysinfo_mgr: Option<&'a SystemInfoManager>,
    pub weather_mgr: Option<&'a WeatherManager>,
    pub notification_mgr: Option<&'a NotificationManager>,
    pub ambient: &'a Ambient,
    pub now: u64,
}

/// A button, or an action of a notification, to be drawn. Positions are in
/// pixels, counted in billionths; the width is in whole pixels.
pub struct ItemPlan {
    /// The number of the button, if it is one.
    pub button: Option<usize>,
    pub left: i128,
    pub width: i128,
    pub visible: bool,
    pub color: Color,
    /// How far a long press has come.
    pub hold: Option<i64>,
    pub font_size: i64,
    /// What is shown. Nothing where the button is not visible, or where the time
    /// cannot be written in its format.
    pub content: Option<ButtonContent>,
}

/// The mathematical counterpart of [`ItemPlan`].
#[verifier::ext_equal]
pub struct ItemView {
    pub button: Option<usize>,
    pub left: int,
    pub width: int,
    pub visible: bool,
    pub color: Color,
    pub hold: Option<int>,
    pub font_size: i64,
    pub content: Option<ContentView>,
}

impl View for ItemPlan {
    type V = ItemView;

    open spec fn view(&self) -> ItemView {
        ItemView {
            button: self.button,
            left: self.left as int,
            width: self.width as int,
            visible: self.visible,
            color: self.color,
            hold: match self.hold {
                Some(h) => Some(h as int),
                None => None,
            },
            font_size: self.font_size,
            content: match self.content {
                Some(c) => Some(c@),
                None => None,
            },
        }
    }
}

/// The values of a list of items.
pub open spec fn item_views(v: Seq<ItemPlan>) -> Seq<ItemView> {
    Seq::new(v.len(), |i: int| v[i]@)
}

/// How a layer is drawn: the parts of the screen that change, the part of the
/// bar that a panel covers now, whether drawing is confined to that part, and
/// the items in their order.
pub struct DrawPlan {
    pub regions: Vec<ClipRect>,
    pub covered_left: i64,
    pub covered_right: i64,
    pub confined: bool,
    pub items: Vec<ItemPlan>,
}

/// How far a layer is in view. Only a panel can be so in part.
pub open spec fn reveal_of(l: LayerView) -> int {
    if l.is_panel() {
        crate::slider::clamped(l.overlay_reveal as int)
    } else {
        ONE as int
    }
}

/// Where a panel slides in from, within its part of the bar.
pub open spec fn slide_start(l: LayerView, width: u16) -> int {
    let from = origin(l, width);
    let to = width * ONE;
    match l.overlay_slide_start_x {
        Some(x) => if !l.is_panel() {
            to
        } else if x < from {
            from
        } else if x > to {
            to
        } else {
            x as int
        },
        None => to,
    }
}

/// How far a panel still has to slide.
pub open spec fn slide_offset(l: LayerView, width: u16) -> int {
    ((ONE - reveal_of(l)) * (slide_start(l, width) - origin(l, width))) / (ONE as int)
}

/// The pixels that are kept free for shifting the picture.
pub open spec fn free_px(s: Scene) -> u16 {
    if s.config.enable_pixel_shift {
        s.pixel_shift_width
    } else {
        0
    }
}

/// Whether a place is drawn.
pub open spec fn is_drawn(l: LayerView, item: PlaceView, complete: bool) -> bool {
    shown(item) && (complete || match item.kind {
        PlaceKind::Button(b) => l.buttons[b].1.changed,
        PlaceKind::Action(_) => true,
    })
}

/// The brightness of a button's background.
pub open spec fn level_of(active: bool, config: Config) -> u32 {
    if active {
        BUTTON_COLOR_ACTIVE
    } else if config.show_button_outlines {
        BUTTON_COLOR_INACTIVE
    } else {
        0
    }
}

/// Where a place is drawn.
pub open spec fn drawn_left(l: LayerView, items: Seq<PlaceView>, k: nat, s: Scene) -> int {
    left_edge(l, items, k, s.width, free_px(s)) + s.pixel_shift.0 + (free_px(s) / 2) * ONE
        + slide_offset(l, s.width)
}

/// What a button shows, unless it shows the time and that cannot be written.
pub open spec fn shown_content(b: ButtonView, s: Scene) -> Option<ContentView> {
    match time_of(b, s.ambient.now) {
        Some(time) => Some(
            content(
                b,
                time,
                system_view(s.sysinfo_mgr),
                weather_view(s.weather_mgr),
                s.notification_mgr,
                s.ambient.charge,
                text_opt(s.ambient.power_profile),
            ),
        ),
        None => None,
    }
}

/// The label of an action of the notification on show.
pub open spec fn action_label(mgr: Option<&NotificationManager>, a: int) -> Option<Seq<char>> {
    match mgr {
        Some(m) => if a < m.offered().len() {
            Some(m.offered()[a].label)
        } else {
            None
        },
        None => None,
    }
}

/// How a place is drawn.
pub open spec fn item_drawn(l: LayerView, items: Seq<PlaceView>, k: nat, s: Scene) -> ItemView {
    let item = items[k as int];
    let left = drawn_left(l, items, k, s);
    let width = width_px(l, item, room(l, items, s.width, free_px(s)));
    match item.kind {
        PlaceKind::Button(i) => {
            let b = l.buttons[i].1;
            let visible = b.visible(desktop_answers(s.sysinfo_mgr), browsable(s.notification_mgr));
            ItemView {
                button: Some(i as usize),
                left,
                width,
                visible,
                color: b.background_with(
                    level_of(b.active, *s.config),
                    s.ambient.charge,
                    dnd_known(s.notification_mgr),
                ),
                hold: b.hold(s.now),
                font_size: match b.font_size {
                    Some(f) => f,
                    None => s.config.font_size,
                },
                content: if visible {
                    shown_content(b, s)
                } else {
                    None
                },
            }
        },
        PlaceKind::Action(a) => {
            let level = level_of(false, *s.config);
            ItemView {
                button: None,
                left,
                width,
                visible: true,
                color: (level, level, level),
                hold: None,
                font_size: s.config.font_size,
                content: match action_label(s.notification_mgr, a) {
                    Some(label) => Some(ContentView::ClippedText(label)),
                    None => None,
                },
            }
        },
    }
}

/// The first `k` places as they are drawn.
pub open spec fn items_drawn(l: LayerView, items: Seq<PlaceView>, k: nat, s: Scene) -> Seq<
    ItemView,
>
    decreases k,
{
    if k == 0 {
        Seq::empty()
    } else {
        let earlier = items_drawn(l, items, (k - 1) as nat, s);
        if is_drawn(l, items[k - 1], s.complete_redraw) {
            earlier.push(item_drawn(l, items, (k - 1) as nat, s))
        } else {
            earlier
        }
    }
}

/// A position brought to a whole number of pixels that a screen can have.
pub open spec fn whole_px(x: int) -> int {
    if x < 0 {
        0
    } else if x / (ONE as int) > u16::MAX {
        u16::MAX as int
    } else {
        x / (ONE as int)
    }
}

/// A number that a screen can have as a coordinate.
pub open spec fn coordinate(x: int) -> int {
    if x < 0 {
        0
    } else if x > u16::MAX {
        u16::MAX as int
    } else {
        x
    }
}

/// The part of the screen that an item takes: its middle seven tenths with the
/// corners. What would lie outside of the screen is cut off.
pub open spec fn region_of(item: ItemView, height: u16) -> ClipRect {
    ClipRect {
        x1: coordinate(height - height * 17 / 20 - CORNER_RADIUS_PX) as u16,
        y1: whole_px(item.left) as u16,
        x2: coordinate(height - height * 3 / 20 + CORNER_RADIUS_PX) as u16,
        y2: coordinate(whole_px(item.left) + coordinate(item.width)) as u16,
    }
}

/// The parts of the screen that change: all of it when everything is drawn.
pub open spec fn regions_of(drawn: Seq<ItemView>, s: Scene) -> Seq<ClipRect> {
    if s.complete_redraw {
        seq![ClipRect { x1: 0, y1: 0, x2: s.height, y2: s.width }]
    } else {
        Seq::new(drawn.len(), |i: int| region_of(drawn[i], s.height))
    }
}

/// A layer whose first `k` places were drawn: their buttons are up to date.
pub open spec fn settled(l: LayerView, items: Seq<PlaceView>, k: nat, complete: bool) -> LayerView
    decreases k,
{
    if k == 0 {
        l
    } else {
        let earlier = settled(l, items, (k - 1) as nat, complete);
        let item = items[k - 1];
        match item.kind {
            PlaceKind::Button(b) => if is_drawn(l, item, complete) {
                with_button(
                    earlier,
                    b,
                    ButtonView { changed: false, ..earlier.buttons[b].1 },
                )
            } else {
                earlier
            },
            PlaceKind::Action(_) => earlier,
        }
    }
}

/// A layer with one of its buttons in another state.
pub open spec fn with_button(l: LayerView, i: int, b: ButtonView) -> LayerView {
    LayerView { buttons: l.buttons.update(i, (l.buttons[i].0, b)), ..l }
}

/// How a layer is drawn in a scene.
pub open spec fn drawn_as(r: DrawPlan, l: LayerView, s: Scene) -> bool {
    let items = layout(l, s.notification_mgr);
    let drawn = items_drawn(l, items, items.len(), s);
    &&& item_views(r.items@) == drawn
    &&& r.regions@ == regions_of(drawn, s)
    &&& r.covered_left == origin(l, s.width) + slide_offset(l, s.width)
    &&& r.covered_right == s.width * ONE
    &&& r.confined == (l.is_panel() && reveal_of(l) < ONE)
}

/// A layer that was drawn in a scene.
pub open spec fn after_draw(l: LayerView, s: Scene) -> LayerView {
    let items = layout(l, s.notification_mgr);
    settled(l, items, items.len(), s.complete_redraw)
}

proof fn lemma_settled(l: LayerView, items: Seq<PlaceView>, k: nat, complete: bool)
    requires
        l.wf(),
        k <= items.len(),
        forall|i: int|
            0 <= i < items.len() ==> match (#[trigger] items[i]).kind {
                PlaceKind::Button(b) => 0 <= b < l.buttons.len(),
                PlaceKind::Action(_) => true,
            },
    ensures
        settled(l, items, k, complete).wf(),
        settled(l, items, k, complete).buttons.len() == l.buttons.len(),
    decreases k,
{
    if k > 0 {
        lemma_settled(l, items, (k - 1) as nat, complete);
        let earlier = settled(l, items, (k - 1) as nat, complete);
        let next = settled(l, items, k, complete);
        assert(items[k - 1] == items[k - 1]);
        assert forall|i: int| 0 <= i < next.buttons.len() implies 0 <= (#[trigger] next.buttons[i]).0
            <= next.virtual_button_count && next.buttons[i].1.wf() by {
            assert(earlier.buttons[i].1.wf());
        }
        assert forall|i: int, j: int| 0 <= i <= j < next.buttons.len() implies (
        #[trigger] next.buttons[i]).0 <= (#[trigger] next.buttons[j]).0 by {
            assert(earlier.buttons[i].0 <= earlier.buttons[j].0);
        }
    }
}

/// Once everything was drawn, no button in view waits to be drawn again; drawing
/// changes nothing else of a layer.
pub proof fn drawing_settles(
    l: LayerView,
    items: Seq<PlaceView>,
    k: nat,
    complete: bool,
    i: int,
)
    requires
        k <= items.len(),
        0 <= i < k,
        items[i].kind matches PlaceKind::Button(b) && 0 <= b < l.buttons.len(),
        shown(items[i]),
        forall|j: int|
            0 <= j < items.len() ==> match (#[trigger] items[j]).kind {
                PlaceKind::Button(b) => 0 <= b < l.buttons.len(),
                PlaceKind::Action(_) => true,
            },
    ensures
        !settled(l, items, k, complete).buttons[items[i].kind->Button_0].1.changed,
        settled(l, items, k, complete).buttons.len() == l.buttons.len(),
        settled(l, items, k, complete) == (LayerView {
            buttons: settled(l, items, k, complete).buttons,
            ..l
        }),
    decreases k,
{
    lemma_settled_shape(l, items, (k - 1) as nat, complete);
    if i < k - 1 {
        drawing_settles(l, items, (k - 1) as nat, complete, i);
    } else {
        lemma_unchanged_stays(l, items, (k - 1) as nat, complete, items[i].kind->Button_0);
    }
}

proof fn lemma_settled_shape(l: LayerView, items: Seq<PlaceView>, k: nat, complete: bool)
    requires
        k <= items.len(),
        forall|j: int|
            0 <= j < items.len() ==> match (#[trigger] items[j]).kind {
                PlaceKind::Button(b) => 0 <= b < l.buttons.len(),
                PlaceKind::Action(_) => true,
            },
    ensures
        settled(l, items, k, complete).buttons.len() == l.buttons.len(),
        settled(l, items, k, complete) == (LayerView {
            buttons: settled(l, items, k, complete).buttons,
            ..l
        }),
    decreases k,
{
    if k > 0 {
        lemma_settled_shape(l, items, (k - 1) as nat, complete);
        assert(items[k - 1] == items[k - 1]);
    }
}

proof fn lemma_unchanged_stays(
    l: LayerView,
    items: Seq<PlaceView>,
    k: nat,
    complete: bool,
    b: int,
)
    requires
        k <= items.len(),
        0 <= b < l.buttons.len(),
        forall|j: int|
            0 <= j < items.len() ==> match (#[trigger] items[j]).kind {
                PlaceKind::Button(b) => 0 <= b < l.buttons.len(),
                PlaceKind::Action(_) => true,
            },
    ensures
        !l.buttons[b].1.changed ==> !settled(l, items, k, complete).buttons[b].1.changed,
    decreases k,
{
    if k > 0 {
        lemma_unchanged_stays(l, items, (k - 1) as nat, complete, b);
        lemma_settled_shape(l, items, (k - 1) as nat, complete);
        assert(items[k - 1] == items[k - 1]);
    }
}

/// Writes a position as a whole number of pixels that a screen can have.
fn to_px(x: i128) -> (r: u16)
    ensures
        r == whole_px(x as int),
{
    if x < 0 {
        0
    } else {
        let px: i128 = x / ONE as i128;
        if px > u16::MAX as i128 {
            u16::MAX
        } else {
            px as u16
        }
    }
}

fn to_coordinate(x: i128) -> (r: u16)
    ensures
        r == coordinate(x as int),
{
    if x < 0 {
        0
    } else if x > u16::MAX as i128 {
        u16::MAX
    } else {
        x as u16
    }
}

/// The part of the screen that an item takes.
fn item_region(item: &ItemPlan, height: u16) -> (r: ClipRect)
    ensures
        r == region_of(item@, height),
{
    let h: i128 = height as i128;
    let y1 = to_px(item.left);
    let w = to_coordinate(item.width);
    ClipRect {
        x1: to_coordinate(h - h * 17 / 20 - CORNER_RADIUS_PX as i128),
        y1,
        x2: to_coordinate(h - h * 3 / 20 + CORNER_RADIUS_PX as i128),
        y2: to_coordinate(y1 as i128 + w as i128),
    }
}

impl FunctionLayer {
    /// How far a panel still has to slide.
    fn offset(&self, width: u16) -> (r: i64)
        requires
            self@.wf(),
        ensures
            r == slide_offset(self@, width),
            0 <= r <= width * ONE,
    {
        let from = self.overlay_origin(width);
        let to: i64 = width as i64 * ONE;
        let panel = self.is_overlay();
        let reveal: i64 = if panel {
            crate::slider::clamp_fraction(self.overlay_reveal)
        } else {
            ONE
        };
        let start: i64 = match self.overlay_slide_start_x {
            Some(x) => if !panel {
                to
            } else if x < from as i128 {
                from
            } else if x > to as i128 {
                to
            } else {
                x as i64
            },
            None => to,
        };
        let a: i128 = (ONE - reveal) as i128;
        let b: i128 = (start - from) as i128;
        proof {
            assert(0 <= a <= ONE && 0 <= b <= width * ONE);
            assert(0 <= a * b <= ONE * b) by (nonlinear_arith)
                requires
                    0 <= a <= ONE,
                    0 <= b,
            ;
            let p = a * b;
            assert(0 <= p / ONE as int <= b) by (nonlinear_arith)
                requires
                    0 <= p <= ONE * b,
                    ONE == 1_000_000_000,
            ;
        }
        (a * b / ONE as i128) as i64
    }

    /// Whether a place is drawn.
    fn draws(&self, item: LayoutItem, complete: bool) -> (r: bool)
        requires
            item.kind matches LayoutItemKind::Button(b) ==> b < self.buttons@.len(),
        ensures
            r == is_drawn(self@, item@, complete),
    {
        let changed = match item.kind {
            LayoutItemKind::Button(b) => {
                assert(self@.buttons[b as int].1 == self.buttons@[b as int].1@);
                self.buttons[b].1.changed
            },
            LayoutItemKind::NotificationAction(_) => true,
        };
        item.end > item.start && (complete || changed)
    }

    /// How a place is drawn.
    fn plan_item(&self, items: &Vec<LayoutItem>, k: usize, s: &Scene) -> (r: ItemPlan)
        requires
            self@.wf(),
            contiguous(places_of(items@)),
            moderate(self@, places_of(items@)),
            shown_before(places_of(items@), items@.len()) <= MAX_PLACES,
            k < items@.len(),
            items@[k as int].kind matches LayoutItemKind::Button(b) ==> b < self.buttons@.len(),
        ensures
            r@ == item_drawn(self@, places_of(items@), k as nat, *s),
    {
        assert(places_of(items@)[k as int] == items@[k as int]@);
        let free: u16 = if s.config.enable_pixel_shift {
            s.pixel_shift_width
        } else {
            0
        };
        let left: i128 = self.place_left(items, k, s.width, free) + s.pixel_shift.0 as i128 + (free
            / 2) as i128 * ONE as i128 + self.offset(s.width) as i128;
        let width = self.place_width(items, k, s.width, free);
        match items[k].kind {
            LayoutItemKind::Button(i) => {
                let b = &self.buttons[i].1;
                assert(self@.buttons[i as int].1 == b@);
                let level: u32 = if b.active {
                    BUTTON_COLOR_ACTIVE
                } else if s.config.show_button_outlines {
                    BUTTON_COLOR_INACTIVE
                } else {
                    0
                };
                let visible = b.is_visible(s.sysinfo_mgr, s.notification_mgr);
                let content = if visible {
                    b.get_content(s.sysinfo_mgr, s.weather_mgr, s.notification_mgr, s.ambient)
                } else {
                    None
                };
                ItemPlan {
                    button: Some(i),
                    left,
                    width,
                    visible,
                    color: b.background_color_with_notifications(
                        level,
                        s.ambient.charge,
                        s.notification_mgr,
                    ),
                    hold: b.hold_progress(s.now),
                    font_size: match b.font_size {
                        Some(f) => f,
                        None => s.config.font_size,
                    },
                    content,
                }
            },
            LayoutItemKind::NotificationAction(a) => {
                let level: u32 = if s.config.show_button_outlines {
                    BUTTON_COLOR_INACTIVE
                } else {
                    0
                };
                let content: Option<ButtonContent> = match s.notification_mgr {
                    Some(m) => {
                        let v = m.current_actions();
                        assert(v@.len() == m.offered().len());
                        if a < v.len() {
                            assert(m.offered()[a as int] == v@[a as int]@);
                            Some(ButtonContent::ClippedText(v[a].label.clone()))
                        } else {
                            None
                        }
                    },
                    None => None,
                };
                ItemPlan {
                    button: None,
                    left,
                    width,
                    visible: true,
                    color: (level, level, level),
                    hold: None,
                    font_size: s.config.font_size,
                    content,
                }
            },
        }
    }

    /// Notes that a button was drawn.
    fn settle(&mut self, b: usize)
        requires
            b < old(self).buttons@.len(),
        ensures
            final(self)@ == with_button(
                old(self)@,
                b as int,
                ButtonView { changed: false, ..old(self)@.buttons[b as int].1 },
            ),
            final(self).buttons@.len() == old(self).buttons@.len(),
    {
        self.buttons[b].1.changed = false;
        assert(self@.buttons =~= old(self)@.buttons.update(
            b as int,
            (
                old(self)@.buttons[b as int].0,
                ButtonView { changed: false, ..old(self)@.buttons[b as int].1 },
            ),
        ));
    }

    /// Plans how the layer is drawn, and notes that it was.
    pub fn draw(&mut self, s: &Scene) -> (r: DrawPlan)
        requires
            old(self)@.wf(),
            fits(old(self)@, s.notification_mgr),
        ensures
            drawn_as(r, old(self)@, *s),
            final(self)@ == after_draw(old(self)@, *s),
            final(self)@.wf(),
    {
        let ghost l = self@;
        let items = self.layout_items(s.notification_mgr);
        let ghost all = places_of(items@);
        proof {
            layout_is_bounded(l, s.notification_mgr);
            layout_is_contiguous(l, s.notification_mgr);
            lemma_shown_before(all, 0, all.len());
            assert forall|i: int| 0 <= i < items@.len() implies match (
            #[trigger] items@[i]).kind {
                LayoutItemKind::Button(b) => b < l.buttons.len(),
                LayoutItemKind::NotificationAction(_) => true,
            } by {
                assert(all[i] == items@[i]@);
            }
        }
        let n = items.len();
        let mut drawn: Vec<ItemPlan> = Vec::new();
        let mut regions: Vec<ClipRect> = Vec::new();
        if s.complete_redraw {
            regions.push(ClipRect { x1: 0, y1: 0, x2: s.height, y2: s.width });
        }
        let mut k: usize = 0;
        assert(item_views(drawn@) =~= Seq::empty());
        assert(regions@ =~= regions_of(item_views(drawn@), *s));
        while k < n
            invariant
                k <= n,
                n == items@.len(),
                l == self@,
                l.wf(),
                all == places_of(items@),
                contiguous(all),
                moderate(l, all),
                shown_before(all, all.len()) <= MAX_PLACES,
                forall|i: int|
                    0 <= i < n ==> match (#[trigger] items@[i]).kind {
                        LayoutItemKind::Button(b) => b < l.buttons.len(),
                        LayoutItemKind::NotificationAction(_) => true,
                    },
                item_views(drawn@) == items_drawn(l, all, k as nat, *s),
                regions@ == regions_of(item_views(drawn@), *s),
            decreases n - k,
        {
            assert(self.buttons@.len() == l.buttons.len());
            assert(all[k as int] == items@[k as int]@);
            if self.draws(items[k], s.complete_redraw) {
                let plan = self.plan_item(&items, k, s);
                let ghost was = item_views(drawn@);
                if !s.complete_redraw {
                    regions.push(item_region(&plan, s.height));
                }
                drawn.push(plan);
                assert(item_views(drawn@) =~= was.push(plan@));
                assert(regions@ =~= regions_of(item_views(drawn@), *s));
            }
            k += 1;
        }
        let from = self.overlay_origin(s.width);
        let offset = self.offset(s.width);
        let confined = self.is_overlay() && crate::slider::clamp_fraction(self.overlay_reveal) < ONE;
        let mut flags: Vec<bool> = Vec::new();
        let mut k: usize = 0;
        while k < n
            invariant
                k <= n,
                n == items@.len(),
                l == self@,
                forall|i: int|
                    0 <= i < n ==> match (#[trigger] items@[i]).kind {
                        LayoutItemKind::Button(b) => b < l.buttons.len(),
                        LayoutItemKind::NotificationAction(_) => true,
                    },
                flags@.len() == k,
                forall|i: int|
                    0 <= i < k ==> (#[trigger] flags@[i]) == is_drawn(
                        l,
                        items@[i]@,
                        s.complete_redraw,
                    ),
            decreases n - k,
        {
            assert(self.buttons@.len() == l.buttons.len());
            assert(items@[k as int] == items@[k as int]);
            let drawn_now = self.draws(items[k], s.complete_redraw);
            flags.push(drawn_now);
            k += 1;
        }
        let mut k: usize = 0;
        while k < n
            invariant
                k <= n,
                n == items@.len(),
                flags@.len() == n,
                all == places_of(items@),
                self@ == settled(l, all, k as nat, s.complete_redraw),
                self@.buttons.len() == l.buttons.len(),
                forall|i: int|
                    0 <= i < n ==> match (#[trigger] items@[i]).kind {
                        LayoutItemKind::Button(b) => b < l.buttons.len(),
                        LayoutItemKind::NotificationAction(_) => true,
                    },
                forall|i: int|
                    0 <= i < n ==> (#[trigger] flags@[i]) == is_drawn(
                        l,
                        items@[i]@,
                        s.complete_redraw,
                    ),
            decreases n - k,
        {
            assert(all[k as int] == items@[k as int]@);
            assert(self.buttons@.len() == l.buttons.len());
            if flags[k] {
                match items[k].kind {
                    LayoutItemKind::Button(b) => {
                        self.settle(b);
                    },
                    LayoutItemKind::NotificationAction(_) => {},
                }
            }
            k += 1;
        }
        proof {
            lemma_settled(l, all, n as nat, s.complete_redraw);
        }
        DrawPlan {
            regions,
            covered_left: from + offset,
            covered_right: s.width as i64 * ONE,
            confined,
            items: drawn,
        }
    }
}

/// Nothing moves the picture: neither a shift of pixels nor a panel that slides.
pub open spec fn stands_still(l: LayerView, s: Scene) -> bool {
    &&& !s.config.enable_pixel_shift
    &&& s.pixel_shift.0 == 0
    &&& l.is_panel() ==> l.overlay_reveal == 1_000_000_000
}

/// What is drawn of a place is drawn where the place answers to touches: its left
/// edge and its width are those that a touch is held against.
pub proof fn places_are_drawn_where_they_are_touched(
    l: LayerView,
    k: int,
    s: Scene,
    x: int,
)
    requires
        0 <= k < layout(l, s.notification_mgr).len(),
        stands_still(l, s),
    ensures
        ({
            let drawn = item_drawn(l, layout(l, s.notification_mgr), k as nat, s);
            drawn.left + 1_000_000_000 <= x <= drawn.left + drawn.width * 1_000_000_000
                <==> crate::layer::covers(l, s.notification_mgr, k, s.width, x)
        }),
{
    assert(slide_offset(l, s.width) == 0) by {
        assert(ONE - reveal_of(l) == 0);
        let w = slide_start(l, s.width) - origin(l, s.width);
        assert(0 * w == 0);
    }
}

/// A shift of pixels moves all places by as much, and changes nothing else of
/// them.
pub proof fn shift_moves_everything_alike(
    l: LayerView,
    items: Seq<PlaceView>,
    k: nat,
    a: Scene,
    b: Scene,
)
    requires
        k < items.len(),
        b == (Scene { pixel_shift: b.pixel_shift, ..a }),
    ensures
        item_drawn(l, items, k, b) == (ItemView {
            left: item_drawn(l, items, k, a).left + (b.pixel_shift.0 - a.pixel_shift.0),
            ..item_drawn(l, items, k, a)
        }),
{
}

/// A panel slides in from the right: the less of it is in view, the further to
/// the right it is drawn, but no further than where its slide begins, and in full
/// view it is where it belongs.
pub proof fn panel_slides_from_the_right(l: LayerView, width: u16, less: i64, more: i64)
    requires
        l.wf(),
        l.is_panel(),
        less <= more,
    ensures
        ({
            let at_less = LayerView { overlay_reveal: less, ..l };
            let at_more = LayerView { overlay_reveal: more, ..l };
            let far = slide_start(l, width) - origin(l, width);
            &&& 0 <= slide_offset(at_more, width) <= slide_offset(at_less, width) <= far
            &&& origin(l, width) <= slide_start(l, width) <= width * ONE
            &&& more >= 1_000_000_000 ==> slide_offset(at_more, width) == 0
            &&& less <= 0 ==> slide_offset(at_less, width) == far
        }),
{
    let at_less = LayerView { overlay_reveal: less, ..l };
    let at_more = LayerView { overlay_reveal: more, ..l };
    assert(0 <= width * (ONE - l.overlay_coverage) <= width * ONE) by (nonlinear_arith)
        requires
            0 <= l.overlay_coverage <= ONE,
            width >= 0,
    ;
    let far = slide_start(l, width) - origin(l, width);
    let one = ONE as int;
    let a = (one - reveal_of(at_less)) * far;
    let b = (one - reveal_of(at_more)) * far;
    assert(0 <= b <= a <= one * far) by (nonlinear_arith)
        requires
            far >= 0,
            0 <= one - reveal_of(at_more) <= one - reveal_of(at_less) <= one,
            a == (one - reveal_of(at_less)) * far,
            b == (one - reveal_of(at_more)) * far,
    ;
    assert(b / one <= a / one);
    assert((one * far) / one == far);
    assert(a / one <= far);
    if more >= 1_000_000_000 {
        assert(reveal_of(at_more) == one);
        assert(0 * far == 0);
        assert(b == 0);
    }
    if less <= 0 {
        assert(reveal_of(at_less) == 0);
        assert(a == one * far);
    }
}

/// A place is to be drawn: it has some width, and everything is drawn again, its
/// button has changed, or it is an action.
pub open spec fn due(l: LayerView, item: PlaceView, complete: bool) -> bool {
    &&& item.start < item.end
    &&& complete || item.kind is Action || l.buttons[item.kind->Button_0].1.changed
}

/// What is drawn is each place that is to be drawn, once and in their order, and
/// nothing else: the items before a place are as many as the places before it
/// that are to be drawn.
pub proof fn only_what_is_due_is_drawn(
    l: LayerView,
    items: Seq<PlaceView>,
    s: Scene,
    k: nat,
    n: nat,
)
    requires
        k < n <= items.len(),
    ensures
        ({
            let all = items_drawn(l, items, n, s);
            let before = items_drawn(l, items, k, s);
            let with = items_drawn(l, items, k + 1, s);
            &&& items_drawn(l, items, 0, s).len() == 0
            &&& before.len() <= all.len()
            &&& all.subrange(0, before.len() as int) == before
            &&& due(l, items[k as int], s.complete_redraw) ==> {
                &&& before.len() < all.len()
                &&& all[before.len() as int] == item_drawn(l, items, k, s)
                &&& with.len() == before.len() + 1
            }
            &&& !due(l, items[k as int], s.complete_redraw) ==> with == before
        }),
    decreases n,
{
    let before = items_drawn(l, items, k, s);
    if k + 1 < n {
        let m = (n - 1) as nat;
        only_what_is_due_is_drawn(l, items, s, k, m);
        let less = items_drawn(l, items, m, s);
        let all = items_drawn(l, items, n, s);
        assert(all.subrange(0, before.len() as int) =~= less.subrange(0, before.len() as int));
    } else {
        let all = items_drawn(l, items, n, s);
        assert(all.subrange(0, before.len() as int) =~= before);
    }
}

/// The brightness of a plain button's box: that of a pressed button is twice that
/// of one that is not, which has none where outlines are not wanted.
pub open spec fn plain_level(active: bool, outlines: bool) -> u32 {
    if active {
        4_000
    } else if outlines {
        2_000
    } else {
        0
    }
}

/// A button is drawn as what it is: by its own number, in its own font or the
/// one of the settings, with what it shows if it is in view, and with its long
/// press as far as that has come.
pub proof fn buttons_are_drawn_as_they_are(l: LayerView, items: Seq<PlaceView>, k: nat, s: Scene)
    requires
        k < items.len(),
        items[k as int].kind is Button,
        0 <= items[k as int].kind->Button_0 < l.buttons.len() <= usize::MAX,
    ensures
        ({
            let i = items[k as int].kind->Button_0;
            let b = l.buttons[i].1;
            let drawn = item_drawn(l, items, k, s);
            let desktop = match s.sysinfo_mgr {
                Some(m) => Some(m.info@.desktop_info_available),
                None => None,
            };
            let several = match s.notification_mgr {
                Some(m) => Some(m.list().len() > 1),
                None => None,
            };
            let level = plain_level(b.active, s.config.show_button_outlines);
            &&& drawn.button == Some(i as usize)
            &&& drawn.visible == b.visible(desktop, several)
            &&& drawn.content == if drawn.visible {
                shown_content(b, s)
            } else {
                None
            }
            &&& drawn.hold == b.hold(s.now)
            &&& b.font_size matches Some(f) ==> drawn.font_size == f
            &&& b.font_size is None ==> drawn.font_size == s.config.font_size
            &&& !(b.image is Battery || b.image is LayerToggle || b.image is Notification)
                ==> drawn.color == (level, level, level)
        }),
{
}

/// An action is drawn as its label, within its place, as a button that is not
/// pressed.
pub proof fn actions_are_drawn_as_their_labels(
    l: LayerView,
    items: Seq<PlaceView>,
    k: nat,
    s: Scene,
)
    requires
        k < items.len(),
        items[k as int].kind is Action,
    ensures
        ({
            let a = items[k as int].kind->Action_0;
            let drawn = item_drawn(l, items, k, s);
            let level = plain_level(false, s.config.show_button_outlines);
            &&& drawn.button is None
            &&& drawn.visible
            &&& drawn.hold is None
            &&& drawn.color == (level, level, level)
            &&& drawn.font_size == s.config.font_size
            &&& s.notification_mgr matches Some(m) ==> 0 <= a < m.offered().len() ==> drawn.content
                == Some(ContentView::ClippedText(m.offered()[a].label))
        }),
{
}

/// All of the screen changes where everything is drawn again. Else what changes
/// is a part for each item: along the bar from its left edge on, as wide as the
/// item, and across the bar the middle seven tenths with eight pixels on either
/// side.
pub proof fn regions_cover_what_is_drawn(drawn: Seq<ItemView>, s: Scene, i: int)
    requires
        0 <= i < drawn.len(),
        54 <= s.height <= 65_000,
        0 <= drawn[i].left,
        0 <= drawn[i].width,
        drawn[i].left + drawn[i].width * 1_000_000_000 <= 65_000_000_000_000,
    ensures
        ({
            let regions = regions_of(drawn, s);
            if s.complete_redraw {
                &&& regions.len() == 1
                &&& regions[0].x1 == 0 && regions[0].y1 == 0
                &&& regions[0].x2 == s.height && regions[0].y2 == s.width
            } else {
                let r = regions[i];
                &&& regions.len() == drawn.len()
                &&& r.y1 * 1_000_000_000 <= drawn[i].left < (r.y1 + 1) * 1_000_000_000
                &&& r.y2 - r.y1 == drawn[i].width
                &&& 20 * (r.x1 + 8) <= 3 * s.height + 20
                &&& 20 * (r.x1 + 8) >= 3 * s.height
                &&& 20 * (r.x2 - 8) >= 17 * s.height
                &&& 20 * (r.x2 - 8) <= 17 * s.height + 20
            }
        }),
{
    let h = s.height as int;
    let left = drawn[i].left;
    assert(left / (ONE as int) * 1_000_000_000 <= left < (left / (ONE as int) + 1) * 1_000_000_000);
    assert(left / (ONE as int) <= 65_000);
    assert(drawn[i].width <= 65_000);
    assert(20 * (h * 17 / 20) <= 17 * h < 20 * (h * 17 / 20) + 20);
    assert(20 * (h * 3 / 20) <= 3 * h < 20 * (h * 3 / 20) + 20);
}

proof fn lemma_settled_button(
    l: LayerView,
    items: Seq<PlaceView>,
    k: nat,
    complete: bool,
    b: int,
)
    requires
        k <= items.len(),
        0 <= b < l.buttons.len(),
        forall|j: int|
            0 <= j < items.len() ==> match (#[trigger] items[j]).kind {
                PlaceKind::Button(b) => 0 <= b < l.buttons.len(),
                PlaceKind::Action(_) => true,
            },
    ensures
        ({
            let after = settled(l, items, k, complete).buttons[b];
            let drawn = exists|j: int|
                0 <= j < k && #[trigger] items[j].kind == PlaceKind::Button(b) && due(
                    l,
                    items[j],
                    complete,
                );
            &&& after.0 == l.buttons[b].0
            &&& after.1 == if drawn {
                ButtonView { changed: false, ..l.buttons[b].1 }
            } else {
                l.buttons[b].1
            }
        }),
    decreases k,
{
    if k > 0 {
        let m = (k - 1) as nat;
        lemma_settled_button(l, items, m, complete, b);
        lemma_settled_shape(l, items, m, complete);
        let item = items[k - 1];
        assert(items[k - 1] == item);
        let before = exists|j: int|
            0 <= j < m && #[trigger] items[j].kind == PlaceKind::Button(b) && due(
                l,
                items[j],
                complete,
            );
        let now = exists|j: int|
            0 <= j < k && #[trigger] items[j].kind == PlaceKind::Button(b) && due(
                l,
                items[j],
                complete,
            );
        if item.kind == PlaceKind::Button(b) && due(l, item, complete) {
            assert(now);
        } else {
            if now {
                let j = choose|j: int|
                    0 <= j < k && #[trigger] items[j].kind == PlaceKind::Button(b) && due(
                        l,
                        items[j],
                        complete,
                    );
                assert(j < m);
            }
        }
    }
}

/// Drawing a layer marks the buttons that were drawn as up to date, and changes
/// nothing else: a button that was not drawn waits on.
pub proof fn drawn_buttons_are_up_to_date(l: LayerView, s: Scene, b: int)
    requires
        l.wf(),
        0 <= b < l.buttons.len(),
    ensures
        ({
            let items = layout(l, s.notification_mgr);
            let after = after_draw(l, s).buttons[b];
            let drawn = exists|j: int|
                0 <= j < items.len() && #[trigger] items[j].kind == PlaceKind::Button(b) && due(
                    l,
                    items[j],
                    s.complete_redraw,
                );
            &&& after.0 == l.buttons[b].0
            &&& after.1 == if drawn {
                ButtonView { changed: false, ..l.buttons[b].1 }
            } else {
                l.buttons[b].1
            }
            &&& after_draw(l, s).buttons.len() == l.buttons.len()
        }),
{
    let items = layout(l, s.notification_mgr);
    layout_is_bounded(l, s.notification_mgr);
    lemma_settled_button(l, items, items.len(), s.complete_redraw, b);
    lemma_settled_shape(l, items, items.len(), s.complete_redraw);
}

/// What a button shows is drawn from what there is: the system, the weather and the
/// notifications of the scene, the charge and the power profile of its surroundings,
/// and for a time the present moment in its format and its locale.
pub proof fn shown_is_what_there_is(b: ButtonView, s: Scene)
    ensures
        ({
            let system = match s.sysinfo_mgr {
                Some(m) => Some(m.info@),
                None => None,
            };
            let weather = match s.weather_mgr {
                Some(m) => Some(m.weather@),
                None => None,
            };
            let profile = match s.ambient.power_profile {
                Some(p) => Some(p@),
                None => None,
            };
            let shown_at = |time: Seq<char>| content(
                b,
                time,
                system,
                weather,
                s.notification_mgr,
                s.ambient.charge,
                profile,
            );
            match b.image {
                crate::button::ImageView::Time(format, locale) => match crate::clock::moment_text(
                    s.ambient.now.secs,
                    s.ambient.now.nanos,
                    s.ambient.now.offset,
                    format,
                    locale,
                ) {
                    Some(t) => shown_content(b, s) == Some(shown_at(t)),
                    None => shown_content(b, s) is None,
                },
                _ => shown_content(b, s) == Some(shown_at(Seq::empty())),
            }
        }),
{
}

/// A plan for drawing a layer covers the bar up to its right edge: all of it, or for
/// a panel the part that the panel covers and has come to. It is confined to that
/// exactly while a panel is not in full view.
pub proof fn plan_covers_the_layer(r: DrawPlan, l: LayerView, s: Scene)
    requires
        drawn_as(r, l, s),
    ensures
        r.covered_right == s.width * 1_000_000_000,
        l.overlay_parent is None ==> r.covered_left == 0 && !r.confined,
        l.overlay_parent is Some && l.overlay_reveal >= 1_000_000_000 ==> !r.confined
            && r.covered_left == s.width * (1_000_000_000 - l.overlay_coverage),
        l.overlay_parent is Some && l.overlay_reveal < 1_000_000_000 ==> r.confined,
        item_views(r.items@).len() == r.items@.len(),
        s.complete_redraw ==> r.regions@.len() == 1,
        !s.complete_redraw ==> r.regions@.len() == r.items@.len(),
{
    let w = slide_start(l, s.width) - origin(l, s.width);
    assert(0 * w == 0);
}

/// A picture that is shifted by no more than half of the pixels that are kept free
/// for it stays on the bar: no place of a layer that is no panel begins before the
/// left edge, or ends behind the right one.
pub proof fn shifted_picture_stays_on_the_bar(l: LayerView, k: int, s: Scene)
    requires
        l.wf(),
        l.overlay_parent is None,
        s.config.enable_pixel_shift,
        s.pixel_shift_width % 2 == 0,
        -(s.pixel_shift_width * 1_000_000_000) <= 2 * s.pixel_shift.0 <= s.pixel_shift_width
            * 1_000_000_000,
        0 <= k < layout(l, s.notification_mgr).len(),
        shown(layout(l, s.notification_mgr)[k]),
        layout(l, s.notification_mgr)[k].end <= l.virtual_button_count,
        0 <= room(l, layout(l, s.notification_mgr), s.width, s.pixel_shift_width),
    ensures
        ({
            let drawn = item_drawn(l, layout(l, s.notification_mgr), k as nat, s);
            &&& 0 <= drawn.left
            &&& drawn.left + drawn.width * 1_000_000_000 <= s.width * 1_000_000_000
        }),
{
    let items = layout(l, s.notification_mgr);
    let w = s.pixel_shift_width;
    crate::layer::places_fill_the_bar(l, s.notification_mgr, k, s.width, w);
    layout_is_bounded(l, s.notification_mgr);
    let r = room(l, items, s.width, w);
    let item = items[k];
    let d = l.virtual_button_count * ONE;
    assert(item.start >= 0);
    assert((item.start * r) / (d as int) >= 0) by (nonlinear_arith)
        requires
            item.start >= 0,
            r >= 0,
            d > 0,
    ;
    let far = slide_start(l, s.width) - origin(l, s.width);
    assert(0 * far == 0);
    assert(slide_offset(l, s.width) == 0);
}

} // verus!
