//! Where what buttons show is painted: text, icons, bitmaps and bars. Positions
//! and sizes are in pixels, counted in billionths and exact to one of them.

use vstd::prelude::*;
use vstd::string::*;

use crate::button::{BatteryState, Button, ButtonView};
use crate::content::{content, ButtonContent, ContentView};
use crate::draw::{DrawPlan, ItemPlan, ItemView, CORNER_RADIUS_PX};
use crate::image::DEFAULT_ICON_SIZE;
use crate::notification_manager::NotificationManager;
use crate::number::{half_up, Color, ONE};
use crate::sysinfo_manager::SystemView;
use crate::text::{decimal, decimal_text, texts};
use crate::weather::WeatherView;

verus! {

/// The gap between an icon and the text beside it, and that between lines.
pub const ICON_GAP: i64 = 4_000_000_000;

pub const LINE_GAP: i64 = 2_000_000_000;

/// How much larger a first line that stands out is.
pub const EMPHASIS: i64 = 2_000_000_000;

/// The measures of a slider: the margin at its ends, its icon, the gap behind
/// that, the gap before the text, the least width and the thickness of its track,
/// and the radius of its thumb.
pub const SLIDER_PAD: i64 = 14_000_000_000;

pub const SLIDER_ICON: i64 = 26_000_000_000;

pub const SLIDER_ICON_GAP: i64 = 10_000_000_000;

pub const SLIDER_TEXT_GAP: i64 = 12_000_000_000;

pub const MIN_TRACK: i64 = 10_000_000_000;

pub const TRACK_HEIGHT: i64 = 6_000_000_000;

pub const THUMB_RADIUS: i64 = 8_000_000_000;

/// The width of the line at the edge of a panel.
pub const DIVIDER: i64 = 2_000_000_000;

/// Colours of what is painted.
pub const BLACK: Color = (0, 0, 0);

pub const GREY: Color = (3_000, 3_000, 3_000);

pub const HOLD_GREY: Color = (5_500, 5_500, 5_500);

pub const DIMMED: Color = (5_000, 5_000, 5_000);

pub const BRIGHT: Color = (10_000, 10_000, 10_000);

pub const MUTED_RED: Color = (10_000, 0, 0);

/// The largest size of a text, and the farthest that a button lies to the left or
/// right.
pub const MAX_EXTENT: i64 = 1_000_000_000_000_000_000;

pub const MAX_LEFT: i128 = 1_000_000_000_000_000_000_000_000_000_000;

/// The size of a text as it would be painted.
#[derive(Clone, Copy, PartialEq, Eq, Structural, Debug)]
pub struct Extents {
    pub width: i64,
    pub height: i64,
}

/// Where a button is painted: its left edge, its width and height in whole
/// pixels, and how far the picture is shifted down.
#[derive(Clone, Copy, PartialEq, Eq, Structural, Debug)]
pub struct Place {
    pub left: i128,
    pub width: u64,
    pub height: i32,
    pub y_shift: i64,
}

/// One step of painting. Text is white, and its position is where it begins on its
/// base line.
pub enum RenderOp {
    /// Paints everything black.
    Clear,
    Text { text: String, x: i128, y: i128, size: i64 },
    Icon { icon: u32, x: i128, y: i128, size: i128, tint: Option<Color> },
    Bitmap { image: u32, x: i128, y: i128, width: i128, height: i128 },
    Fill { x: i128, y: i128, width: i128, height: i128, color: Color },
    /// A box with round corners, given by the centres of these.
    RoundBox { left: i128, right: i128, upper: i128, lower: i128, radius: i128, color: Color },
    Disc { x: i128, y: i128, radius: i128, color: Color },
    /// Confines what follows, until [`RenderOp::Unclip`] if there is one.
    Clip { x: i128, y: i128, width: i128, height: i128 },
    Unclip,
}

/// The mathematical counterpart of [`RenderOp`].
#[verifier::ext_equal]
pub enum OpView {
    Clear,
    Text { text: Seq<char>, x: int, y: int, size: int },
    Icon { icon: u32, x: int, y: int, size: int, tint: Option<Color> },
    Bitmap { image: u32, x: int, y: int, width: int, height: int },
    Fill { x: int, y: int, width: int, height: int, color: Color },
    RoundBox { left: int, right: int, upper: int, lower: int, radius: int, color: Color },
    Disc { x: int, y: int, radius: int, color: Color },
    Clip { x: int, y: int, width: int, height: int },
    Unclip,
}

impl View for RenderOp {
    type V = OpView;

    open spec fn view(&self) -> OpView {
        match self {
            RenderOp::Clear => OpView::Clear,
            RenderOp::Text { text, x, y, size } => OpView::Text {
                text: text@,
                x: *x as int,
                y: *y as int,
                size: *size as int,
            },
            RenderOp::Icon { icon, x, y, size, tint } => OpView::Icon {
                icon: *icon,
                x: *x as int,
                y: *y as int,
                size: *size as int,
                tint: *tint,
            },
            RenderOp::Bitmap { image, x, y, width, height } => OpView::Bitmap {
                image: *image,
                x: *x as int,
                y: *y as int,
                width: *width as int,
                height: *height as int,
            },
            RenderOp::Fill { x, y, width, height, color } => OpView::Fill {
                x: *x as int,
                y: *y as int,
                width: *width as int,
                height: *height as int,
                color: *color,
            },
            RenderOp::RoundBox { left, right, upper, lower, radius, color } => OpView::RoundBox {
                left: *left as int,
                right: *right as int,
                upper: *upper as int,
                lower: *lower as int,
                radius: *radius as int,
                color: *color,
            },
            RenderOp::Disc { x, y, radius, color } => OpView::Disc {
                x: *x as int,
                y: *y as int,
                radius: *radius as int,
                color: *color,
            },
            RenderOp::Clip { x, y, width, height } => OpView::Clip {
                x: *x as int,
                y: *y as int,
                width: *width as int,
                height: *height as int,
            },
            RenderOp::Unclip => OpView::Unclip,
        }
    }
}

/// The values of a list of steps.
pub open spec fn op_views(v: Seq<RenderOp>) -> Seq<OpView> {
    Seq::new(v.len(), |i: int| v[i]@)
}

/// Half of a length in whole pixels, to the nearest and away from zero where two
/// are equally near.
pub open spec fn half_px(n: int) -> int {
    if n >= 0 {
        half_up(n as nat, (2 * ONE) as nat) * ONE
    } else {
        -(half_up((-n) as nat, (2 * ONE) as nat) * ONE)
    }
}

impl Place {
    /// The place lies within reach.
    pub open spec fn wf(self) -> bool {
        -MAX_LEFT <= self.left <= MAX_LEFT
    }

    /// Where something of a width begins when it stands in the middle.
    pub open spec fn middle_x(self, width: int) -> int {
        self.left + half_px(self.width * ONE - width)
    }

    /// Where something of a height begins when it stands in the middle.
    pub open spec fn middle_y(self, height: int) -> int {
        self.y_shift + half_px(self.height * ONE - height)
    }

    /// The base line of text that stands in the middle.
    pub open spec fn base_line(self, height: int) -> int {
        self.y_shift + half_px(self.height * ONE + height)
    }

    /// The middle between top and bottom.
    pub open spec fn center_y(self) -> int {
        self.y_shift + self.height * (ONE as int) / 2
    }
}

/// Halves a length.
fn half(n: i128) -> (r: i128)
    requires
        -60_000_000_000_000_000_000_000_000_000_000_000_000 <= n
            <= 60_000_000_000_000_000_000_000_000_000_000_000_000,
    ensures
        r == half_px(n as int),
        n >= 0 ==> 0 <= r <= n + ONE,
        n < 0 ==> n - ONE <= r <= 0,
{
    let neg = n < 0;
    let m: i128 = if neg {
        -n
    } else {
        n
    };
    let d: i128 = 2_000_000_000;
    let q: i128 = m / d;
    let rest: i128 = m % d;
    let up: i128 = if 2 * rest < d {
        q
    } else {
        q + 1
    };
    assert(up == half_up(m as nat, (2 * ONE) as nat));
    assert(up * 1_000_000_000 <= m + 1_000_000_000);
    if neg {
        -(up * 1_000_000_000)
    } else {
        up * 1_000_000_000
    }
}

impl Place {
    /// Where something of a width begins when it stands in the middle.
    fn start_x(&self, width: i128) -> (r: i128)
        requires
            self.wf(),
            -MAX_LEFT <= width <= MAX_LEFT,
        ensures
            r == self.middle_x(width as int),
            -4 * MAX_LEFT <= r <= 4 * MAX_LEFT,
    {
        self.left + half(self.width as i128 * 1_000_000_000 - width)
    }

    /// Where something of a height begins when it stands in the middle.
    fn start_y(&self, height: i128) -> (r: i128)
        requires
            -40_000_000 * MAX_LEFT <= height <= 40_000_000 * MAX_LEFT,
        ensures
            r == self.middle_y(height as int),
            -50_000_000 * MAX_LEFT <= r <= 50_000_000 * MAX_LEFT,
    {
        self.y_shift as i128 + half(self.height as i128 * 1_000_000_000 - height)
    }

    /// The base line of text that stands in the middle.
    fn text_y(&self, height: i64) -> (r: i128)
        ensures
            r == self.base_line(height as int),
    {
        self.y_shift as i128 + half(self.height as i128 * 1_000_000_000 + height as i128)
    }
}

/// The size of a line of text. A first line may stand out.
pub open spec fn line_size(font_size: int, emphasize_first: bool, i: int) -> int {
    if emphasize_first && i == 0 {
        font_size + EMPHASIS
    } else {
        font_size
    }
}

/// What a slider has written on it.
pub open spec fn percent_label(percent: u32) -> Seq<char> {
    decimal(percent as nat) + "%"@
}

/// The texts that are painted, each with the size of its font.
pub open spec fn measured(content: ContentView, font_size: int) -> Seq<(Seq<char>, int)> {
    match content {
        ContentView::SimpleText(text) => seq![(text, font_size)],
        ContentView::IconWithText { text, .. } => seq![(text, font_size)],
        ContentView::ColoredIconWithText { text, .. } => seq![(text, font_size)],
        ContentView::IconWithCenteredText { text, .. } => seq![(text, font_size)],
        ContentView::IconWithMultilineText { lines, emphasize_first, .. } => sized_lines(
            lines,
            emphasize_first,
            font_size,
        ),
        ContentView::ColoredIconWithMultilineText { lines, emphasize_first, .. } => sized_lines(
            lines,
            emphasize_first,
            font_size,
        ),
        ContentView::ClippedText(text) => seq![(text, font_size)],
        ContentView::IconWithClippedText { text, .. } => seq![(text, font_size)],
        ContentView::MultilineText(lines) => sized_lines(lines, false, font_size),
        ContentView::SliderBar { percent, .. } => seq![(percent_label(percent), font_size)],
        _ => Seq::empty(),
    }
}

/// Lines of text, each with the size of its font.
pub open spec fn sized_lines(
    lines: Seq<Seq<char>>,
    emphasize_first: bool,
    font_size: int,
) -> Seq<(Seq<char>, int)> {
    Seq::new(lines.len(), |i: int| (lines[i], line_size(font_size, emphasize_first, i)))
}

/// The values of a list of texts with their sizes.
pub open spec fn sized(v: Seq<(String, i64)>) -> Seq<(Seq<char>, int)> {
    Seq::new(v.len(), |i: int| (v[i].0@, v[i].1 as int))
}

/// Sizes are within reach.
pub open spec fn extents_fit(e: Seq<Extents>) -> bool {
    forall|i: int|
        0 <= i < e.len() ==> -MAX_EXTENT <= (#[trigger] e[i]).width <= MAX_EXTENT && -MAX_EXTENT
            <= e[i].height <= MAX_EXTENT
}

/// The widest of the first lines.
pub open spec fn widest(e: Seq<Extents>, n: nat) -> int
    decreases n,
{
    if n == 0 {
        0
    } else {
        let w = widest(e, (n - 1) as nat);
        if e[n - 1].width > w {
            e[n - 1].width as int
        } else {
            w
        }
    }
}

/// The height of the first lines, with the gap behind each.
pub open spec fn above(e: Seq<Extents>, n: nat) -> int
    decreases n,
{
    if n == 0 {
        0
    } else {
        above(e, (n - 1) as nat) + e[n - 1].height + LINE_GAP
    }
}

/// The height of all lines.
pub open spec fn total_height(e: Seq<Extents>, n: nat) -> int {
    if n == 0 {
        0
    } else {
        above(e, n) - LINE_GAP
    }
}

/// An icon, with another one over it if there is one.
pub open spec fn icons(
    icon: u32,
    tint: Option<Color>,
    overlay: Option<u32>,
    overlay_tint: Color,
    x: int,
    y: int,
    size: int,
) -> Seq<OpView> {
    let base = Seq::empty().push(OpView::Icon { icon, x, y, size, tint });
    match overlay {
        Some(o) => base.push(OpView::Icon { icon: o, x, y, size, tint: Some(overlay_tint) }),
        None => base,
    }
}

/// Text that stands in the middle of a button.
pub open spec fn text_op(p: Place, text: Seq<char>, e: Extents, font_size: int) -> OpView {
    OpView::Text {
        text,
        x: p.middle_x(e.width as int),
        y: p.base_line(e.height as int),
        size: font_size,
    }
}

/// An icon with text beside it; both together stand in the middle.
pub open spec fn row(
    p: Place,
    icon: u32,
    tint: Option<Color>,
    overlay: Option<u32>,
    overlay_tint: Color,
    size: int,
    text: Seq<char>,
    e: Extents,
    font_size: int,
) -> Seq<OpView> {
    let x = p.middle_x(size + ICON_GAP + e.width);
    icons(icon, tint, overlay, overlay_tint, x, p.middle_y(size), size).push(
        OpView::Text {
            text,
            x: x + size + ICON_GAP,
            y: p.base_line(e.height as int),
            size: font_size,
        },
    )
}

/// Lines of text below each other, from the top: at one place, or each in the
/// middle.
pub open spec fn line_ops(
    p: Place,
    lines: Seq<Seq<char>>,
    e: Seq<Extents>,
    n: nat,
    x: Option<int>,
    top: int,
    emphasize_first: bool,
    font_size: int,
) -> Seq<OpView>
    decreases n,
{
    if n == 0 {
        Seq::empty()
    } else {
        line_ops(p, lines, e, (n - 1) as nat, x, top, emphasize_first, font_size).push(
            OpView::Text {
                text: lines[n - 1],
                x: match x {
                    Some(at) => at,
                    None => p.middle_x(e[n - 1].width as int),
                },
                y: top + above(e, (n - 1) as nat) + e[n - 1].height,
                size: line_size(font_size, emphasize_first, n - 1),
            },
        )
    }
}

/// An icon with lines of text beside it; both together stand in the middle.
pub open spec fn block(
    p: Place,
    icon: u32,
    tint: Option<Color>,
    overlay: Option<u32>,
    overlay_tint: Color,
    size: int,
    lines: Seq<Seq<char>>,
    e: Seq<Extents>,
    emphasize_first: bool,
    font_size: int,
) -> Seq<OpView> {
    let n = lines.len();
    let x = p.middle_x(size + ICON_GAP + widest(e, n));
    icons(icon, tint, overlay, overlay_tint, x, p.middle_y(size), size) + line_ops(
        p,
        lines,
        e,
        n,
        Some(x + size + ICON_GAP),
        p.middle_y(total_height(e, n)),
        emphasize_first,
        font_size,
    )
}

/// What is confined to the button.
pub open spec fn clipped(p: Place, ops: Seq<OpView>) -> Seq<OpView> {
    Seq::empty().push(
        OpView::Clip {
            x: p.left as int,
            y: p.y_shift as int,
            width: p.width * ONE,
            height: p.height * ONE,
        },
    ) + ops.push(OpView::Unclip)
}

/// The icon of a slider.
pub open spec fn slider_icon(muted: bool, icon: Option<u32>, muted_icon: Option<u32>) -> Option<u32> {
    if muted && muted_icon is Some {
        muted_icon
    } else {
        icon
    }
}

/// A slider: its icon, its track up to the text at its end, the part of the track
/// that is filled, the thumb, and the text.
pub open spec fn slider_ops(
    p: Place,
    fraction: int,
    muted: bool,
    percent: u32,
    icon_color: Option<Color>,
    icon: Option<u32>,
    e: Extents,
    font_size: int,
) -> Seq<OpView> {
    let cy = p.center_y();
    let first = p.left + SLIDER_PAD;
    let head = match icon {
        Some(i) => Seq::empty().push(
            OpView::Icon {
                icon: i,
                x: first,
                y: cy - SLIDER_ICON as int / 2,
                size: SLIDER_ICON as int,
                tint: if muted {
                    Some(MUTED_RED)
                } else {
                    icon_color
                },
            },
        ),
        None => Seq::empty(),
    };
    let left = if icon is Some {
        first + SLIDER_ICON + SLIDER_ICON_GAP
    } else {
        first
    };
    let text_x = p.left + p.width * ONE - SLIDER_PAD - e.width;
    let room = text_x - SLIDER_TEXT_GAP - left;
    let track = if room < MIN_TRACK {
        MIN_TRACK as int
    } else {
        room
    };
    let top = cy - TRACK_HEIGHT as int / 2;
    let filled = track * fraction / (ONE as int);
    head.push(
        OpView::Fill { x: left, y: top, width: track, height: TRACK_HEIGHT as int, color: GREY },
    ).push(
        OpView::Fill {
            x: left,
            y: top,
            width: filled,
            height: TRACK_HEIGHT as int,
            color: if muted {
                DIMMED
            } else {
                BRIGHT
            },
        },
    ).push(
        OpView::Disc { x: left + filled, y: cy, radius: THUMB_RADIUS as int, color: BRIGHT },
    ).push(
        OpView::Text {
            text: percent_label(percent),
            x: text_x,
            y: cy + e.height as int / 2,
            size: font_size,
        },
    )
}

/// How the content of a button is painted, given the sizes of its texts.
pub open spec fn painted(
    content: ContentView,
    p: Place,
    font_size: int,
    e: Seq<Extents>,
) -> Seq<OpView> {
    match content {
        ContentView::SimpleText(text) => seq![text_op(p, text, e[0], font_size)],
        ContentView::Icon(icon, size) => icons(
            icon,
            None,
            None,
            BLACK,
            p.middle_x(size * ONE),
            p.middle_y(size * ONE),
            size * ONE,
        ),
        ContentView::Bitmap(image, width, height) => seq![
            OpView::Bitmap {
                image,
                x: p.middle_x(width * ONE),
                y: p.middle_y(height * ONE),
                width: width * ONE,
                height: height * ONE,
            },
        ],
        ContentView::IconWithText { icon, icon_size, text } => row(
            p,
            icon,
            None,
            None,
            BLACK,
            icon_size * ONE,
            text,
            e[0],
            font_size,
        ),
        ContentView::ColoredIconWithText {
            icon,
            icon_size,
            icon_color,
            overlay_icon,
            overlay_color,
            text,
        } => row(
            p,
            icon,
            Some(icon_color),
            overlay_icon,
            overlay_color,
            icon_size * ONE,
            text,
            e[0],
            font_size,
        ),
        ContentView::IconWithCenteredText { icon, icon_color, icon_size, text } => icons(
            icon,
            icon_color,
            None,
            BLACK,
            p.middle_x(icon_size * ONE),
            p.middle_y(icon_size * ONE),
            icon_size * ONE,
        ).push(text_op(p, text, e[0], font_size)),
        ContentView::IconWithMultilineText { icon, icon_size, lines, emphasize_first } => block(
            p,
            icon,
            None,
            None,
            BLACK,
            icon_size * ONE,
            lines,
            e,
            emphasize_first,
            font_size,
        ),
        ContentView::ColoredIconWithMultilineText {
            icon,
            icon_size,
            icon_color,
            overlay_icon,
            overlay_color,
            lines,
            emphasize_first,
        } => block(
            p,
            icon,
            Some(icon_color),
            overlay_icon,
            overlay_color,
            icon_size * ONE,
            lines,
            e,
            emphasize_first,
            font_size,
        ),
        ContentView::ClippedText(text) => clipped(p, seq![text_op(p, text, e[0], font_size)]),
        ContentView::IconWithClippedText { icon, icon_color, text } => clipped(
            p,
            row(
                p,
                icon,
                icon_color,
                None,
                BLACK,
                DEFAULT_ICON_SIZE * ONE,
                text,
                e[0],
                font_size,
            ),
        ),
        ContentView::MultilineText(lines) => line_ops(
            p,
            lines,
            e,
            lines.len(),
            None,
            p.middle_y(total_height(e, lines.len())),
            false,
            font_size,
        ),
        ContentView::SliderBar { fraction, muted, percent, icon_color, icon, muted_icon } =>
            slider_ops(
            p,
            fraction as int,
            muted,
            percent,
            icon_color,
            slider_icon(muted, icon, muted_icon),
            e[0],
            font_size,
        ),
        ContentView::Empty => Seq::empty(),
    }
}

/// The part of a slider that is filled is a part of it.
pub open spec fn paintable(content: ContentView) -> bool {
    content matches ContentView::SliderBar { fraction, .. } ==> 0 <= fraction <= ONE
}

/// Adds a step.
fn paint(ops: &mut Vec<RenderOp>, op: RenderOp)
    ensures
        op_views(final(ops)@) == op_views(old(ops)@).push(op@),
{
    ops.push(op);
    assert(op_views(ops@) =~= op_views(old(ops)@).push(op@));
}

/// No steps yet.
fn nothing() -> (r: Vec<RenderOp>)
    ensures
        op_views(r@) == Seq::<OpView>::empty(),
{
    let r: Vec<RenderOp> = Vec::new();
    assert(op_views(r@) =~= Seq::<OpView>::empty());
    r
}

/// The size of a line of text.
fn size_of_line(font_size: i64, emphasize_first: bool, i: usize) -> (r: i64)
    requires
        font_size <= i64::MAX - EMPHASIS,
    ensures
        r == line_size(font_size as int, emphasize_first, i as int),
{
    if emphasize_first && i == 0 {
        font_size + EMPHASIS
    } else {
        font_size
    }
}

/// Lists lines of text with the size of each.
fn size_lines(lines: &Vec<String>, emphasize_first: bool, font_size: i64) -> (r: Vec<(String, i64)>)
    requires
        font_size <= i64::MAX - EMPHASIS,
    ensures
        sized(r@) == sized_lines(texts(lines@), emphasize_first, font_size as int),
{
    let mut r: Vec<(String, i64)> = Vec::new();
    let n = lines.len();
    let mut i: usize = 0;
    while i < n
        invariant
            i <= n,
            n == lines@.len(),
            r@.len() == i,
            font_size <= i64::MAX - EMPHASIS,
            forall|k: int|
                0 <= k < i ==> (#[trigger] r@[k]).0@ == lines@[k]@ && r@[k].1 == line_size(
                    font_size as int,
                    emphasize_first,
                    k,
                ),
        decreases n - i,
    {
        r.push((lines[i].clone(), size_of_line(font_size, emphasize_first, i)));
        i += 1;
    }
    assert(sized(r@) =~= sized_lines(texts(lines@), emphasize_first, font_size as int));
    r
}

/// One text with its size.
fn size_one(text: &String, font_size: i64) -> (r: Vec<(String, i64)>)
    ensures
        sized(r@) == seq![(text@, font_size as int)],
{
    let mut r: Vec<(String, i64)> = Vec::new();
    r.push((text.clone(), font_size));
    assert(sized(r@) =~= seq![(text@, font_size as int)]);
    r
}

/// Writes what a slider has on it.
fn percent_text(percent: u32) -> (r: String)
    ensures
        r@ == percent_label(percent),
{
    let mut s = decimal_text(percent as u64);
    s.append("%");
    s
}

/// The texts of a content that have to be measured before it is painted, each
/// with the size of its font.
pub fn texts_to_measure(content: &ButtonContent, font_size: i64) -> (r: Vec<(String, i64)>)
    requires
        font_size <= i64::MAX - EMPHASIS,
    ensures
        sized(r@) == measured(content@, font_size as int),
{
    match content {
        ButtonContent::SimpleText(text) => size_one(text, font_size),
        ButtonContent::IconWithText { text, .. } => size_one(text, font_size),
        ButtonContent::ColoredIconWithText { text, .. } => size_one(text, font_size),
        ButtonContent::IconWithCenteredText { text, .. } => size_one(text, font_size),
        ButtonContent::IconWithMultilineText { lines, emphasize_first, .. } => size_lines(
            lines,
            *emphasize_first,
            font_size,
        ),
        ButtonContent::ColoredIconWithMultilineText { lines, emphasize_first, .. } => size_lines(
            lines,
            *emphasize_first,
            font_size,
        ),
        ButtonContent::ClippedText(text) => size_one(text, font_size),
        ButtonContent::IconWithClippedText { text, .. } => size_one(text, font_size),
        ButtonContent::MultilineText(lines) => size_lines(lines, false, font_size),
        ButtonContent::SliderBar { percent, .. } => {
            let text = percent_text(*percent);
            size_one(&text, font_size)
        },
        _ => {
            let r: Vec<(String, i64)> = Vec::new();
            assert(sized(r@) =~= Seq::empty());
            r
        },
    }
}

/// Paints an icon, and another one over it if there is one.
fn paint_icons(
    icon: u32,
    tint: Option<Color>,
    overlay: Option<u32>,
    overlay_tint: Color,
    x: i128,
    y: i128,
    size: i128,
) -> (r: Vec<RenderOp>)
    ensures
        op_views(r@) == icons(
            icon,
            tint,
            overlay,
            overlay_tint,
            x as int,
            y as int,
            size as int,
        ),
{
    let mut ops = nothing();
    paint(&mut ops, RenderOp::Icon { icon, x, y, size, tint });
    match overlay {
        Some(o) => {
            paint(&mut ops, RenderOp::Icon { icon: o, x, y, size, tint: Some(overlay_tint) });
        },
        None => {},
    }
    ops
}

impl Place {
    /// Paints text in the middle.
    fn paint_text(&self, ops: &mut Vec<RenderOp>, text: &String, e: Extents, font_size: i64)
        requires
            self.wf(),
            -MAX_EXTENT <= e.width <= MAX_EXTENT,
        ensures
            op_views(final(ops)@) == op_views(old(ops)@).push(
                text_op(*self, text@, e, font_size as int),
            ),
    {
        let x = self.start_x(e.width as i128);
        let y = self.text_y(e.height);
        paint(ops, RenderOp::Text { text: text.clone(), x, y, size: font_size });
    }

    /// Paints an icon in the middle.
    fn paint_icon(&self, icon: u32, tint: Option<Color>, px: i32) -> (r: Vec<RenderOp>)
        requires
            self.wf(),
        ensures
            op_views(r@) == icons(
                icon,
                tint,
                None,
                BLACK,
                self.middle_x(px * ONE),
                self.middle_y(px * ONE),
                px * ONE,
            ),
    {
        let size: i128 = px as i128 * 1_000_000_000;
        paint_icons(icon, tint, None, BLACK, self.start_x(size), self.start_y(size), size)
    }

    /// Paints an icon with text beside it.
    fn paint_row(
        &self,
        icon: u32,
        tint: Option<Color>,
        overlay: Option<u32>,
        overlay_tint: Color,
        px: i32,
        text: &String,
        e: Extents,
        font_size: i64,
    ) -> (r: Vec<RenderOp>)
        requires
            self.wf(),
            -MAX_EXTENT <= e.width <= MAX_EXTENT,
        ensures
            op_views(r@) == row(
                *self,
                icon,
                tint,
                overlay,
                overlay_tint,
                px * ONE,
                text@,
                e,
                font_size as int,
            ),
    {
        let size: i128 = px as i128 * 1_000_000_000;
        let x = self.start_x(size + ICON_GAP as i128 + e.width as i128);
        let mut ops = paint_icons(icon, tint, overlay, overlay_tint, x, self.start_y(size), size);
        let y = self.text_y(e.height);
        paint(
            &mut ops,
            RenderOp::Text {
                text: text.clone(),
                x: x + size + ICON_GAP as i128,
                y,
                size: font_size,
            },
        );
        ops
    }

    /// Confines what is painted to the button.
    fn clip(&self, inner: Vec<RenderOp>) -> (r: Vec<RenderOp>)
        ensures
            op_views(r@) == clipped(*self, op_views(inner@)),
    {
        let ghost given = op_views(inner@);
        let mut ops = nothing();
        paint(
            &mut ops,
            RenderOp::Clip {
                x: self.left,
                y: self.y_shift as i128,
                width: self.width as i128 * 1_000_000_000,
                height: self.height as i128 * 1_000_000_000,
            },
        );
        let ghost head = op_views(ops@);
        let mut inner = inner;
        paint(&mut inner, RenderOp::Unclip);
        let ghost v = ops@;
        let ghost w = inner@;
        ops.append(&mut inner);
        assert(op_views(ops@) =~= op_views(v) + op_views(w));
        ops
    }
}

proof fn lemma_above(e: Seq<Extents>, n: nat)
    requires
        extents_fit(e),
        n <= e.len(),
    ensures
        -(n * (MAX_EXTENT + LINE_GAP)) <= above(e, n) <= n * (MAX_EXTENT + LINE_GAP),
        0 <= widest(e, n) <= MAX_EXTENT,
    decreases n,
{
    if n > 0 {
        lemma_above(e, (n - 1) as nat);
        assert(n * (MAX_EXTENT + LINE_GAP) == (n - 1) * (MAX_EXTENT + LINE_GAP) + (MAX_EXTENT
            + LINE_GAP)) by (nonlinear_arith);
        assert(-MAX_EXTENT <= e[n - 1].width <= MAX_EXTENT);
    }
}

/// Measures lines of text: the widest, and the height of all.
fn measure(e: &Vec<Extents>) -> (r: (i128, i128))
    requires
        extents_fit(e@),
    ensures
        r.0 == widest(e@, e@.len()),
        r.1 == total_height(e@, e@.len()),
        0 <= r.0 <= MAX_EXTENT,
        -40_000_000 * MAX_LEFT <= r.1 <= 40_000_000 * MAX_LEFT,
{
    let n = e.len();
    let mut w: i128 = 0;
    let mut h: i128 = 0;
    let mut i: usize = 0;
    while i < n
        invariant
            i <= n,
            n == e@.len(),
            extents_fit(e@),
            w == widest(e@, i as nat),
            h == above(e@, i as nat),
        decreases n - i,
    {
        proof {
            lemma_above(e@, i as nat);
            lemma_above(e@, (i + 1) as nat);
            assert(i * (MAX_EXTENT + LINE_GAP) <= 18_446_744_073_709_551_615 * (MAX_EXTENT
                + LINE_GAP)) by (nonlinear_arith)
                requires
                    i <= 18_446_744_073_709_551_615,
            ;
        }
        let x = e[i];
        assert(-MAX_EXTENT <= e@[i as int].height <= MAX_EXTENT);
        if x.width as i128 > w {
            w = x.width as i128;
        }
        h = h + x.height as i128 + LINE_GAP as i128;
        i += 1;
    }
    proof {
        lemma_above(e@, n as nat);
        assert(n * (MAX_EXTENT + LINE_GAP) <= 18_446_744_073_709_551_615 * (MAX_EXTENT + LINE_GAP))
            by (nonlinear_arith)
            requires
                n <= 18_446_744_073_709_551_615,
        ;
    }
    if n == 0 {
        (w, 0)
    } else {
        (w, h - LINE_GAP as i128)
    }
}

impl Place {
    /// Paints lines of text below each other.
    fn paint_lines(
        &self,
        ops: &mut Vec<RenderOp>,
        lines: &Vec<String>,
        e: &Vec<Extents>,
        x: Option<i128>,
        top: i128,
        emphasize_first: bool,
        font_size: i64,
    )
        requires
            self.wf(),
            extents_fit(e@),
            e@.len() == lines@.len(),
            -50_000_000 * MAX_LEFT <= top <= 50_000_000 * MAX_LEFT,
            font_size <= i64::MAX - EMPHASIS,
        ensures
            op_views(final(ops)@) == op_views(old(ops)@) + line_ops(
                *self,
                texts(lines@),
                e@,
                lines@.len(),
                match x {
                    Some(at) => Some(at as int),
                    None => None,
                },
                top as int,
                emphasize_first,
                font_size as int,
            ),
    {
        let ghost at = match x {
            Some(at) => Some(at as int),
            None => None,
        };
        let ghost before = op_views(ops@);
        let n = lines.len();
        let mut y: i128 = 0;
        let mut i: usize = 0;
        assert(before + Seq::<OpView>::empty() =~= before);
        while i < n
            invariant
                i <= n,
                n == lines@.len(),
                n == e@.len(),
                self.wf(),
                extents_fit(e@),
                -50_000_000 * MAX_LEFT <= top <= 50_000_000 * MAX_LEFT,
                font_size <= i64::MAX - EMPHASIS,
                y == above(e@, i as nat),
                at == match x {
                    Some(at) => Some(at as int),
                    None => None,
                },
                op_views(ops@) == before + line_ops(
                    *self,
                    texts(lines@),
                    e@,
                    i as nat,
                    at,
                    top as int,
                    emphasize_first,
                    font_size as int,
                ),
            decreases n - i,
        {
            proof {
                lemma_above(e@, i as nat);
                assert(i * (MAX_EXTENT + LINE_GAP) <= 18_446_744_073_709_551_615 * (MAX_EXTENT
                    + LINE_GAP)) by (nonlinear_arith)
                    requires
                        i <= 18_446_744_073_709_551_615,
                ;
            }
            let box_ = e[i];
            assert(-MAX_EXTENT <= e@[i as int].height <= MAX_EXTENT && -MAX_EXTENT
                <= e@[i as int].width <= MAX_EXTENT);
            let left: i128 = match x {
                Some(at) => at,
                None => self.start_x(box_.width as i128),
            };
            let ghost earlier = op_views(ops@);
            paint(
                ops,
                RenderOp::Text {
                    text: lines[i].clone(),
                    x: left,
                    y: top + y + box_.height as i128,
                    size: size_of_line(font_size, emphasize_first, i),
                },
            );
            assert(texts(lines@)[i as int] == lines@[i as int]@);
            assert(op_views(ops@) =~= before + line_ops(
                *self,
                texts(lines@),
                e@,
                (i + 1) as nat,
                at,
                top as int,
                emphasize_first,
                font_size as int,
            ));
            y = y + box_.height as i128 + LINE_GAP as i128;
            i += 1;
        }
    }

    /// Paints an icon with lines of text beside it.
    fn paint_block(
        &self,
        icon: u32,
        tint: Option<Color>,
        overlay: Option<u32>,
        overlay_tint: Color,
        px: i32,
        lines: &Vec<String>,
        e: &Vec<Extents>,
        emphasize_first: bool,
        font_size: i64,
    ) -> (r: Vec<RenderOp>)
        requires
            self.wf(),
            extents_fit(e@),
            e@.len() == lines@.len(),
            font_size <= i64::MAX - EMPHASIS,
        ensures
            op_views(r@) == block(
                *self,
                icon,
                tint,
                overlay,
                overlay_tint,
                px * ONE,
                texts(lines@),
                e@,
                emphasize_first,
                font_size as int,
            ),
    {
        let size: i128 = px as i128 * 1_000_000_000;
        let (w, h) = measure(e);
        let x = self.start_x(size + ICON_GAP as i128 + w);
        let mut ops = paint_icons(icon, tint, overlay, overlay_tint, x, self.start_y(size), size);
        let top = self.start_y(h);
        self.paint_lines(
            &mut ops,
            lines,
            e,
            Some(x + size + ICON_GAP as i128),
            top,
            emphasize_first,
            font_size,
        );
        ops
    }

    /// Paints a slider.
    fn paint_slider(
        &self,
        fraction: i64,
        muted: bool,
        percent: u32,
        icon_color: Option<Color>,
        icon: Option<u32>,
        e: Extents,
        font_size: i64,
    ) -> (r: Vec<RenderOp>)
        requires
            self.wf(),
            0 <= fraction <= ONE,
            -MAX_EXTENT <= e.width <= MAX_EXTENT,
        ensures
            op_views(r@) == slider_ops(
                *self,
                fraction as int,
                muted,
                percent,
                icon_color,
                icon,
                e,
                font_size as int,
            ),
    {
        let cy: i128 = self.y_shift as i128 + self.height as i128 * 500_000_000;
        assert(cy == self.center_y());
        let mut left: i128 = self.left + SLIDER_PAD as i128;
        let mut ops = nothing();
        match icon {
            Some(i) => {
                let tint = if muted {
                    Some(MUTED_RED)
                } else {
                    icon_color
                };
                paint(
                    &mut ops,
                    RenderOp::Icon {
                        icon: i,
                        x: left,
                        y: cy - SLIDER_ICON as i128 / 2,
                        size: SLIDER_ICON as i128,
                        tint,
                    },
                );
                left = left + SLIDER_ICON as i128 + SLIDER_ICON_GAP as i128;
            },
            None => {},
        }
        let text_x: i128 = self.left + self.width as i128 * 1_000_000_000 - SLIDER_PAD as i128
            - e.width as i128;
        let room: i128 = text_x - SLIDER_TEXT_GAP as i128 - left;
        let track: i128 = if room < MIN_TRACK as i128 {
            MIN_TRACK as i128
        } else {
            room
        };
        assert(0 <= track * fraction <= 100_000_000_000_000_000_000_000_000_000 * 1_000_000_000)
            by (nonlinear_arith)
            requires
                0 <= track <= 100_000_000_000_000_000_000_000_000_000,
                0 <= fraction <= 1_000_000_000,
        ;
        let filled: i128 = track * fraction as i128 / ONE as i128;
        let top: i128 = cy - TRACK_HEIGHT as i128 / 2;
        paint(
            &mut ops,
            RenderOp::Fill {
                x: left,
                y: top,
                width: track,
                height: TRACK_HEIGHT as i128,
                color: GREY,
            },
        );
        let level = if muted {
            DIMMED
        } else {
            BRIGHT
        };
        paint(
            &mut ops,
            RenderOp::Fill {
                x: left,
                y: top,
                width: filled,
                height: TRACK_HEIGHT as i128,
                color: level,
            },
        );
        paint(
            &mut ops,
            RenderOp::Disc {
                x: left + filled,
                y: cy,
                radius: THUMB_RADIUS as i128,
                color: BRIGHT,
            },
        );
        let h: i128 = e.height as i128;
        let half_height: i128 = if h >= 0 {
            h / 2
        } else {
            -((1 - h) / 2)
        };
        paint(
            &mut ops,
            RenderOp::Text {
                text: percent_text(percent),
                x: text_x,
                y: cy + half_height,
                size: font_size,
            },
        );
        ops
    }

    /// Paints what a button shows.
    fn paint_content(
        &self,
        content: &ButtonContent,
        font_size: i64,
        extents: &Vec<Extents>,
    ) -> (r: Vec<RenderOp>)
        requires
            self.wf(),
            paintable(content@),
            extents_fit(extents@),
            extents@.len() == measured(content@, font_size as int).len(),
            font_size <= i64::MAX - EMPHASIS,
        ensures
            op_views(r@) == painted(content@, *self, font_size as int, extents@),
    {
        assert(extents@.len() > 0 ==> -MAX_EXTENT <= extents@[0].width <= MAX_EXTENT);
        match content {
            ButtonContent::SimpleText(text) => {
                let mut ops = nothing();
                self.paint_text(&mut ops, text, extents[0], font_size);
                ops
            },
            ButtonContent::Icon(icon, size) => self.paint_icon(*icon, None, *size),
            ButtonContent::Bitmap(image, width, height) => {
                let w: i128 = *width as i128 * 1_000_000_000;
                let h: i128 = *height as i128 * 1_000_000_000;
                let mut ops = nothing();
                paint(
                    &mut ops,
                    RenderOp::Bitmap {
                        image: *image,
                        x: self.start_x(w),
                        y: self.start_y(h),
                        width: w,
                        height: h,
                    },
                );
                ops
            },
            ButtonContent::IconWithText { icon, icon_size, text } => self.paint_row(
                *icon,
                None,
                None,
                BLACK,
                *icon_size,
                text,
                extents[0],
                font_size,
            ),
            ButtonContent::ColoredIconWithText {
                icon,
                icon_size,
                icon_color,
                overlay_icon,
                overlay_color,
                text,
            } => self.paint_row(
                *icon,
                Some(*icon_color),
                *overlay_icon,
                *overlay_color,
                *icon_size,
                text,
                extents[0],
                font_size,
            ),
            ButtonContent::IconWithCenteredText { icon, icon_color, icon_size, text } => {
                let mut ops = self.paint_icon(*icon, *icon_color, *icon_size);
                self.paint_text(&mut ops, text, extents[0], font_size);
                ops
            },
            ButtonContent::IconWithMultilineText { icon, icon_size, lines, emphasize_first } => self.paint_block(
                *icon,
                None,
                None,
                BLACK,
                *icon_size,
                lines,
                extents,
                *emphasize_first,
                font_size,
            ),
            ButtonContent::ColoredIconWithMultilineText {
                icon,
                icon_size,
                icon_color,
                overlay_icon,
                overlay_color,
                lines,
                emphasize_first,
            } => self.paint_block(
                *icon,
                Some(*icon_color),
                *overlay_icon,
                *overlay_color,
                *icon_size,
                lines,
                extents,
                *emphasize_first,
                font_size,
            ),
            ButtonContent::ClippedText(text) => {
                let mut ops = nothing();
                self.paint_text(&mut ops, text, extents[0], font_size);
                self.clip(ops)
            },
            ButtonContent::IconWithClippedText { icon, icon_color, text } => {
                let ops = self.paint_row(
                    *icon,
                    *icon_color,
                    None,
                    BLACK,
                    DEFAULT_ICON_SIZE,
                    text,
                    extents[0],
                    font_size,
                );
                self.clip(ops)
            },
            ButtonContent::MultilineText(lines) => {
                let (_, h) = measure(extents);
                let top = self.start_y(h);
                let mut ops = nothing();
                self.paint_lines(&mut ops, lines, extents, None, top, false, font_size);
                assert(Seq::<OpView>::empty() + painted(
                    content@,
                    *self,
                    font_size as int,
                    extents@,
                ) =~= painted(content@, *self, font_size as int, extents@));
                ops
            },
            ButtonContent::SliderBar { fraction, muted, percent, icon_color, icon, muted_icon } => {
                let shown = if *muted && muted_icon.is_some() {
                    *muted_icon
                } else {
                    *icon
                };
                self.paint_slider(
                    *fraction,
                    *muted,
                    *percent,
                    *icon_color,
                    shown,
                    extents[0],
                    font_size,
                )
            },
            ButtonContent::Empty => nothing(),
        }
    }
}

/// The corners of a button lie between these parts of the height.
pub open spec fn upper(height: u16) -> int {
    height * 150_000_000
}

pub open spec fn lower(height: u16) -> int {
    height * 850_000_000
}

/// A stripe of a layer as high as a button.
pub open spec fn stripe(left: int, width: int, height: u16, color: Color) -> OpView {
    OpView::Fill {
        x: left,
        y: upper(height) - CORNER_RADIUS_PX * ONE,
        width,
        height: lower(height) - upper(height) + 2 * (CORNER_RADIUS_PX * ONE),
        color,
    }
}

/// What lies under the buttons of a layer: black, for a panel only where it
/// covers the bar and with a line at its edge; and nothing unless everything is
/// drawn again. A panel that slides confines what follows to where it is.
pub open spec fn background_ops(
    covered_left: int,
    covered_right: int,
    confined: bool,
    panel: bool,
    complete: bool,
    height: u16,
) -> Seq<OpView> {
    let width = covered_right - covered_left;
    let base = if !complete {
        Seq::empty()
    } else if panel {
        Seq::empty().push(
            OpView::Fill {
                x: covered_left,
                y: 0,
                width,
                height: height * ONE,
                color: BLACK,
            },
        ).push(stripe(covered_left, DIVIDER as int, height, GREY))
    } else {
        Seq::empty().push(OpView::Clear)
    };
    if confined {
        base.push(OpView::Clip { x: covered_left, y: 0, width, height: height * ONE })
    } else {
        base
    }
}

/// What lies under what a button shows: its box and how far a long press has
/// come, over black where not everything is drawn again.
pub open spec fn box_ops(item: ItemView, complete: bool, height: u16) -> Seq<OpView> {
    let r = CORNER_RADIUS_PX * ONE;
    let width = item.width * ONE;
    let base = if complete {
        Seq::empty()
    } else {
        Seq::empty().push(stripe(item.left, width, height, BLACK))
    };
    if !item.visible {
        base
    } else {
        let boxed = base.push(
            OpView::RoundBox {
                left: item.left + r,
                right: item.left + width - r,
                upper: upper(height),
                lower: lower(height),
                radius: r,
                color: item.color,
            },
        );
        match item.hold {
            Some(h) => boxed.push(stripe(item.left, item.width * h, height, HOLD_GREY)),
            None => boxed,
        }
    }
}

/// Paints a stripe of a layer as high as a button.
fn paint_stripe(ops: &mut Vec<RenderOp>, left: i128, width: i128, height: u16, color: Color)
    ensures
        op_views(final(ops)@) == op_views(old(ops)@).push(
            stripe(left as int, width as int, height, color),
        ),
{
    let r: i128 = CORNER_RADIUS_PX as i128 * 1_000_000_000;
    let h: i128 = height as i128;
    paint(
        ops,
        RenderOp::Fill {
            x: left,
            y: h * 150_000_000 - r,
            width,
            height: h * 850_000_000 - h * 150_000_000 + 2 * r,
            color,
        },
    );
}

/// Paints what lies under the buttons of a layer.
pub fn render_background(plan: &DrawPlan, panel: bool, complete: bool, height: u16) -> (r: Vec<
    RenderOp,
>)
    ensures
        op_views(r@) == background_ops(
            plan.covered_left as int,
            plan.covered_right as int,
            plan.confined,
            panel,
            complete,
            height,
        ),
{
    let left: i128 = plan.covered_left as i128;
    let width: i128 = plan.covered_right as i128 - left;
    let tall: i128 = height as i128 * 1_000_000_000;
    let mut ops = nothing();
    if complete {
        if panel {
            paint(&mut ops, RenderOp::Fill { x: left, y: 0, width, height: tall, color: BLACK });
            paint_stripe(&mut ops, left, DIVIDER as i128, height, GREY);
        } else {
            paint(&mut ops, RenderOp::Clear);
        }
    }
    if plan.confined {
        paint(&mut ops, RenderOp::Clip { x: left, y: 0, width, height: tall });
    }
    ops
}

/// Paints what lies under what a button shows.
pub fn render_box(item: &ItemPlan, complete: bool, height: u16) -> (r: Vec<RenderOp>)
    requires
        -MAX_LEFT <= item.left <= MAX_LEFT,
        0 <= item.width <= u64::MAX,
        item.hold matches Some(h) ==> 0 <= h <= ONE,
    ensures
        op_views(r@) == box_ops(item@, complete, height),
{
    let radius: i128 = CORNER_RADIUS_PX as i128 * 1_000_000_000;
    let width: i128 = item.width * 1_000_000_000;
    let mut ops = nothing();
    if !complete {
        paint_stripe(&mut ops, item.left, width, height, BLACK);
    }
    if item.visible {
        paint(
            &mut ops,
            RenderOp::RoundBox {
                left: item.left + radius,
                right: item.left + width - radius,
                upper: height as i128 * 150_000_000,
                lower: height as i128 * 850_000_000,
                radius,
                color: item.color,
            },
        );
        match item.hold {
            Some(h) => {
                assert(0 <= item.width * h <= u64::MAX * 1_000_000_000) by (nonlinear_arith)
                    requires
                        0 <= item.width <= u64::MAX,
                        0 <= h <= 1_000_000_000,
                ;
                paint_stripe(&mut ops, item.left, item.width * h as i128, height, HOLD_GREY);
            },
            None => {},
        }
    }
    ops
}

impl Button {
    /// Paints what the button shows. `extents` are the sizes of its texts, in the
    /// order of [`texts_to_measure`].
    pub fn render_content(
        &self,
        content: &ButtonContent,
        place: &Place,
        font_size: i64,
        extents: &Vec<Extents>,
    ) -> (r: Vec<RenderOp>)
        requires
            place.wf(),
            paintable(content@),
            extents_fit(extents@),
            extents@.len() == measured(content@, font_size as int).len(),
            font_size <= i64::MAX - EMPHASIS,
        ensures
            op_views(r@) == painted(content@, *place, font_size as int, extents@),
    {
        place.paint_content(content, font_size, extents)
    }
}

/// Whether sizes are within reach, so that text of them can be placed.
pub fn check_extents(e: &Vec<Extents>) -> (r: bool)
    ensures
        r == extents_fit(e@),
{
    let n = e.len();
    let mut i: usize = 0;
    while i < n
        invariant
            i <= n,
            n == e@.len(),
            forall|k: int|
                0 <= k < i ==> -MAX_EXTENT <= (#[trigger] e@[k]).width <= MAX_EXTENT && -MAX_EXTENT
                    <= e@[k].height <= MAX_EXTENT,
        decreases n - i,
    {
        let x = e[i];
        if x.width < -MAX_EXTENT || x.width > MAX_EXTENT || x.height < -MAX_EXTENT || x.height
            > MAX_EXTENT {
            assert(x == e@[i as int]);
            return false;
        }
        i += 1;
    }
    true
}

/// What a valid button shows can be painted.
pub proof fn shown_content_is_paintable(
    b: ButtonView,
    time: Seq<char>,
    system: Option<SystemView>,
    weather: Option<WeatherView>,
    mgr: Option<&NotificationManager>,
    charge: (u32, BatteryState),
    profile: Option<Seq<char>>,
)
    requires
        b.wf(),
    ensures
        paintable(content(b, time, system, weather, mgr, charge, profile)),
{
}

/// What confines painting is lifted again: it comes first, its end comes last, and
/// neither stands in between.
pub proof fn clips_are_lifted(c: ContentView, p: Place, font_size: int, e: Seq<Extents>)
    ensures
        ({
            let ops = painted(c, p, font_size, e);
            if c is ClippedText || c is IconWithClippedText {
                &&& ops.len() >= 2
                &&& ops[0] is Clip
                &&& ops[ops.len() - 1] is Unclip
                &&& forall|i: int|
                    0 < i < ops.len() - 1 ==> !((#[trigger] ops[i]) is Clip) && !(ops[i] is Unclip)
            } else {
                forall|i: int|
                    0 <= i < ops.len() ==> !((#[trigger] ops[i]) is Clip) && !(ops[i] is Unclip)
            }
        }),
{
    match c {
        ContentView::IconWithMultilineText { lines, emphasize_first, icon_size, .. } => {
            let x = p.middle_x(icon_size * ONE + ICON_GAP + widest(e, lines.len()));
            lemma_lines_are_text(
                p,
                lines,
                e,
                lines.len(),
                Some(x + icon_size * ONE + ICON_GAP),
                p.middle_y(total_height(e, lines.len())),
                emphasize_first,
                font_size,
            );
        },
        ContentView::ColoredIconWithMultilineText { lines, emphasize_first, icon_size, .. } => {
            let x = p.middle_x(icon_size * ONE + ICON_GAP + widest(e, lines.len()));
            lemma_lines_are_text(
                p,
                lines,
                e,
                lines.len(),
                Some(x + icon_size * ONE + ICON_GAP),
                p.middle_y(total_height(e, lines.len())),
                emphasize_first,
                font_size,
            );
        },
        ContentView::MultilineText(lines) => {
            lemma_lines_are_text(
                p,
                lines,
                e,
                lines.len(),
                None,
                p.middle_y(total_height(e, lines.len())),
                false,
                font_size,
            );
        },
        _ => {},
    }
}

proof fn lemma_lines_are_text(
    p: Place,
    lines: Seq<Seq<char>>,
    e: Seq<Extents>,
    n: nat,
    x: Option<int>,
    top: int,
    emphasize_first: bool,
    font_size: int,
)
    ensures
        line_ops(p, lines, e, n, x, top, emphasize_first, font_size).len() == n,
        forall|i: int|
            0 <= i < n ==> (#[trigger] line_ops(
                p,
                lines,
                e,
                n,
                x,
                top,
                emphasize_first,
                font_size,
            )[i]) is Text,
    decreases n,
{
    if n > 0 {
        lemma_lines_are_text(
            p,
            lines,
            e,
            (n - 1) as nat,
            x,
            top,
            emphasize_first,
            font_size,
        );
    }
}

/// The thumb of a slider stays on its track: it stands where the filled part ends,
/// from one end to the other.
pub proof fn thumb_stays_on_track(
    p: Place,
    fraction: int,
    muted: bool,
    percent: u32,
    icon_color: Option<Color>,
    icon: Option<u32>,
    e: Extents,
    font_size: int,
)
    requires
        0 <= fraction <= ONE,
    ensures
        ({
            let ops = slider_ops(p, fraction, muted, percent, icon_color, icon, e, font_size);
            let n = ops.len();
            &&& n >= 4
            &&& ops[n - 4] matches OpView::Fill { x: track_x, width: track, .. }
            &&& ops[n - 3] matches OpView::Fill { x: filled_x, width: filled, .. }
            &&& ops[n - 2] matches OpView::Disc { x: thumb, .. }
            &&& filled_x == track_x
            &&& 0 <= filled <= track
            &&& thumb == track_x + filled
            &&& fraction == 0 ==> filled == 0
            &&& fraction == ONE ==> filled == track
        }),
{
    let ops = slider_ops(p, fraction, muted, percent, icon_color, icon, e, font_size);
    let track = ops[ops.len() - 4]->Fill_width;
    assert(0 <= track * fraction <= track * ONE) by (nonlinear_arith)
        requires
            0 <= fraction <= ONE,
            track >= 0,
    ;
    assert(fraction == 0 ==> track * fraction == 0) by (nonlinear_arith);
    assert((track * ONE) / (ONE as int) == track);
    assert(0 <= (track * fraction) / (ONE as int) <= track);
}

/// Something stands in the middle of a stretch: the room before it and the room
/// behind it differ by no more than a pixel.
pub open spec fn centered(at: int, size: int, from: int, stretch: int) -> bool {
    let before = at - from;
    let behind = (from + stretch) - (at + size);
    -1_000_000_000 <= before - behind <= 1_000_000_000
}

/// Something stands in the middle of a button, from left to right.
pub open spec fn centered_across(p: Place, x: int, width: int) -> bool {
    centered(x, width, p.left as int, p.width * 1_000_000_000)
}

/// Something stands in the middle of a button, from top to bottom.
pub open spec fn centered_down(p: Place, y: int, height: int) -> bool {
    centered(y, height, p.y_shift as int, p.height * 1_000_000_000)
}

proof fn lemma_middle(n: int)
    ensures
        -1_000_000_000 <= 2 * half_px(n) - n <= 1_000_000_000,
        half_px(n) % 1_000_000_000 == 0,
{
    let d: int = 2_000_000_000;
    let m = if n >= 0 {
        n
    } else {
        -n
    };
    let h = half_up(m as nat, (2 * ONE) as nat);
    assert(h == m / d || h == m / d + 1);
    assert(m == d * (m / d) + m % d);
    assert((h * 1_000_000_000) % 1_000_000_000 == 0);
    assert((-(h * 1_000_000_000)) % 1_000_000_000 == 0);
}

/// A button's icon is painted once, plain, in its own size, in the middle of the
/// button and at a whole number of pixels from its edges.
pub proof fn icon_stands_in_the_middle(
    icon: u32,
    size: i32,
    p: Place,
    font_size: int,
    e: Seq<Extents>,
)
    ensures
        ({
            let ops = painted(ContentView::Icon(icon, size), p, font_size, e);
            &&& ops.len() == 1
            &&& ops[0] matches OpView::Icon { icon: painted_icon, x, y, size: side, tint }
            &&& painted_icon == icon
            &&& side == size * 1_000_000_000
            &&& tint is None
            &&& centered_across(p, x, side)
            &&& centered_down(p, y, side)
            &&& (x - p.left) % 1_000_000_000 == 0
            &&& (y - p.y_shift) % 1_000_000_000 == 0
        }),
{
    lemma_middle(p.width * ONE - size * ONE);
    lemma_middle(p.height * ONE - size * ONE);
}

/// A bitmap is painted once, in its own size, in the middle of the button.
pub proof fn bitmap_stands_in_the_middle(
    image: u32,
    width: i32,
    height: i32,
    p: Place,
    font_size: int,
    e: Seq<Extents>,
)
    ensures
        ({
            let ops = painted(ContentView::Bitmap(image, width, height), p, font_size, e);
            &&& ops.len() == 1
            &&& ops[0] matches OpView::Bitmap { image: painted_image, x, y, width: w, height: h }
            &&& painted_image == image
            &&& w == width * 1_000_000_000
            &&& h == height * 1_000_000_000
            &&& centered_across(p, x, w)
            &&& centered_down(p, y, h)
            &&& (x - p.left) % 1_000_000_000 == 0
            &&& (y - p.y_shift) % 1_000_000_000 == 0
        }),
{
    lemma_middle(p.width * ONE - width * ONE);
    lemma_middle(p.height * ONE - height * ONE);
}

/// A text of a size stands in the middle of a button: the box from its top to its
/// base line and from where it begins to where it ends.
pub open spec fn is_middle_text(
    op: OpView,
    p: Place,
    text: Seq<char>,
    e: Extents,
    font_size: int,
) -> bool {
    &&& op matches OpView::Text { text: painted_text, x, y, size }
    &&& painted_text == text
    &&& size == font_size
    &&& centered_across(p, x, e.width as int)
    &&& centered_down(p, y - e.height, e.height as int)
    &&& (x - p.left) % 1_000_000_000 == 0
    &&& (y - p.y_shift) % 1_000_000_000 == 0
}

/// Plain text is painted once, in the middle of the button; nothing else is.
pub proof fn text_stands_in_the_middle(
    text: Seq<char>,
    p: Place,
    font_size: int,
    e: Seq<Extents>,
)
    requires
        e.len() == 1,
    ensures
        ({
            let ops = painted(ContentView::SimpleText(text), p, font_size, e);
            &&& ops.len() == 1
            &&& is_middle_text(ops[0], p, text, e[0], font_size)
        }),
{
    lemma_middle(p.width * ONE - e[0].width);
    lemma_middle(p.height * ONE + e[0].height);
}

/// What is confined to a button: the clip is the button itself, and it is lifted
/// behind what it confines.
pub open spec fn is_confined(ops: Seq<OpView>, p: Place) -> bool {
    &&& ops.len() >= 2
    &&& ops[0] matches OpView::Clip { x, y, width, height }
    &&& x == p.left
    &&& y == p.y_shift
    &&& width == p.width * 1_000_000_000
    &&& height == p.height * 1_000_000_000
    &&& ops.last() is Unclip
}

/// Text that may be too long is painted as plain text is, but not beyond the
/// button.
pub proof fn long_text_stays_within_its_button(
    text: Seq<char>,
    p: Place,
    font_size: int,
    e: Seq<Extents>,
)
    requires
        e.len() == 1,
    ensures
        ({
            let ops = painted(ContentView::ClippedText(text), p, font_size, e);
            &&& ops.len() == 3
            &&& is_confined(ops, p)
            &&& is_middle_text(ops[1], p, text, e[0], font_size)
        }),
{
    lemma_middle(p.width * ONE - e[0].width);
    lemma_middle(p.height * ONE + e[0].height);
}

/// An icon on its left with a text on its right: the icon comes first, an overlay
/// covers it exactly, four pixels lie between icon and text, and both together
/// stand in the middle.
pub open spec fn is_row(
    ops: Seq<OpView>,
    p: Place,
    icon: u32,
    tint: Option<Color>,
    overlay: Option<(u32, Color)>,
    side: int,
    text: Seq<char>,
    e: Extents,
    font_size: int,
) -> bool {
    &&& ops.len() == if overlay is Some {
        3int
    } else {
        2
    }
    &&& ops[0] matches OpView::Icon { icon: first, x, y, size, tint: first_tint }
    &&& first == icon
    &&& first_tint == tint
    &&& size == side
    &&& overlay matches Some(o) ==> {
        &&& ops[1] matches OpView::Icon { icon: second, x: ox, y: oy, size: osize, tint: otint }
        &&& second == o.0
        &&& otint == Some(o.1)
        &&& ox == x
        &&& oy == y
        &&& osize == size
    }
    &&& ops.last() matches OpView::Text { text: painted_text, x: tx, y: ty, size: text_size }
    &&& painted_text == text
    &&& text_size == font_size
    &&& tx == x + side + 4_000_000_000
    &&& centered_across(p, x, (tx + e.width) - x)
    &&& centered_down(p, y, side)
    &&& centered_down(p, ty - e.height, e.height as int)
}

/// An icon with text beside it is painted as a row, uncoloured, whatever its size.
pub proof fn text_stands_beside_its_icon(
    icon: u32,
    icon_size: i32,
    text: Seq<char>,
    p: Place,
    font_size: int,
    e: Seq<Extents>,
)
    requires
        e.len() == 1,
    ensures
        is_row(
            painted(ContentView::IconWithText { icon, icon_size, text }, p, font_size, e),
            p,
            icon,
            None,
            None,
            icon_size * 1_000_000_000,
            text,
            e[0],
            font_size,
        ),
{
    lemma_middle(p.width * ONE - (icon_size * ONE + ICON_GAP + e[0].width));
    lemma_middle(p.height * ONE - icon_size * ONE);
    lemma_middle(p.height * ONE + e[0].height);
}

/// A coloured icon with text beside it is painted as a row: the icon in its
/// colour, and the other icon over it in its own colour.
pub proof fn text_stands_beside_its_coloured_icon(
    icon: u32,
    icon_size: i32,
    icon_color: Color,
    overlay_icon: Option<u32>,
    overlay_color: Color,
    text: Seq<char>,
    p: Place,
    font_size: int,
    e: Seq<Extents>,
)
    requires
        e.len() == 1,
    ensures
        is_row(
            painted(
                ContentView::ColoredIconWithText {
                    icon,
                    icon_size,
                    icon_color,
                    overlay_icon,
                    overlay_color,
                    text,
                },
                p,
                font_size,
                e,
            ),
            p,
            icon,
            Some(icon_color),
            match overlay_icon {
                Some(o) => Some((o, overlay_color)),
                None => None,
            },
            icon_size * 1_000_000_000,
            text,
            e[0],
            font_size,
        ),
{
    lemma_middle(p.width * ONE - (icon_size * ONE + ICON_GAP + e[0].width));
    lemma_middle(p.height * ONE - icon_size * ONE);
    lemma_middle(p.height * ONE + e[0].height);
}

/// A title with an icon is painted as a row with an icon of 48 pixels, but not
/// beyond the button.
pub proof fn title_stays_within_its_button(
    icon: u32,
    icon_color: Option<Color>,
    text: Seq<char>,
    p: Place,
    font_size: int,
    e: Seq<Extents>,
)
    requires
        e.len() == 1,
    ensures
        ({
            let ops = painted(
                ContentView::IconWithClippedText { icon, icon_color, text },
                p,
                font_size,
                e,
            );
            &&& is_confined(ops, p)
            &&& is_row(
                ops.subrange(1, ops.len() - 1),
                p,
                icon,
                icon_color,
                None,
                48_000_000_000,
                text,
                e[0],
                font_size,
            )
        }),
{
    let side = DEFAULT_ICON_SIZE * ONE;
    lemma_middle(p.width * ONE - (side + ICON_GAP + e[0].width));
    lemma_middle(p.height * ONE - side);
    lemma_middle(p.height * ONE + e[0].height);
    let ops = painted(
        ContentView::IconWithClippedText { icon, icon_color, text },
        p,
        font_size,
        e,
    );
    assert(ops.len() == 4);
}

/// An icon with text over it: each stands in the middle, and the text is painted
/// last.
pub proof fn text_stands_over_its_icon(
    icon: u32,
    icon_color: Option<Color>,
    icon_size: i32,
    text: Seq<char>,
    p: Place,
    font_size: int,
    e: Seq<Extents>,
)
    requires
        e.len() == 1,
    ensures
        ({
            let ops = painted(
                ContentView::IconWithCenteredText { icon, icon_color, icon_size, text },
                p,
                font_size,
                e,
            );
            &&& ops.len() == 2
            &&& ops[0] matches OpView::Icon { icon: painted_icon, x, y, size, tint }
            &&& painted_icon == icon
            &&& tint == icon_color
            &&& size == icon_size * 1_000_000_000
            &&& centered_across(p, x, size)
            &&& centered_down(p, y, size)
            &&& is_middle_text(ops[1], p, text, e[0], font_size)
        }),
{
    lemma_middle(p.width * ONE - icon_size * ONE);
    lemma_middle(p.height * ONE - icon_size * ONE);
    lemma_middle(p.width * ONE - e[0].width);
    lemma_middle(p.height * ONE + e[0].height);
}

/// Nothing is painted where there is nothing to show.
pub proof fn nothing_is_painted_of_nothing(p: Place, font_size: int, e: Seq<Extents>)
    ensures
        painted(ContentView::Empty, p, font_size, e).len() == 0,
{
}

/// Lines of text below each other, each painted once and in their order: the base
/// line of each lies its own height and two pixels below the last one, and the
/// lines together stand in the middle from top to bottom. A first line that
/// stands out is two pixels larger.
pub open spec fn are_lines(
    ops: Seq<OpView>,
    p: Place,
    lines: Seq<Seq<char>>,
    e: Seq<Extents>,
    emphasize_first: bool,
    font_size: int,
) -> bool {
    &&& ops.len() == lines.len()
    &&& forall|i: int|
        0 <= i < lines.len() ==> {
            &&& #[trigger] ops[i] matches OpView::Text { text, size, .. }
            &&& text == lines[i]
            &&& size == if i == 0 && emphasize_first {
                font_size + 2_000_000_000
            } else {
                font_size
            }
        }
    &&& forall|i: int, j: int|
        0 <= i && j == i + 1 && j < lines.len() ==> #[trigger] ops[j]->Text_y == #[trigger] ops[i]->Text_y
            + 2_000_000_000 + e[j].height
    &&& lines.len() > 0 ==> {
        let top = ops[0]->Text_y - e[0].height;
        centered_down(p, top, ops.last()->Text_y - top)
    }
}

proof fn lemma_lines(
    p: Place,
    lines: Seq<Seq<char>>,
    e: Seq<Extents>,
    n: nat,
    x: Option<int>,
    emphasize_first: bool,
    font_size: int,
)
    requires
        n == lines.len(),
    ensures
        ({
            let ops = line_ops(
                p,
                lines,
                e,
                n,
                x,
                p.middle_y(total_height(e, n)),
                emphasize_first,
                font_size,
            );
            &&& are_lines(ops, p, lines, e, emphasize_first, font_size)
            &&& forall|i: int|
                0 <= i < n ==> (#[trigger] ops[i])->Text_x == match x {
                    Some(at) => at,
                    None => p.middle_x(e[i].width as int),
                }
        }),
{
    let top = p.middle_y(total_height(e, n));
    lemma_line_at(p, lines, e, n, x, top, emphasize_first, font_size);
    let ops = line_ops(p, lines, e, n, x, top, emphasize_first, font_size);
    assert forall|i: int, j: int| 0 <= i && j == i + 1 && j < lines.len() implies #[trigger] ops[j]->Text_y
        == #[trigger] ops[i]->Text_y + 2_000_000_000 + e[j].height by {
        assert(above(e, j as nat) == above(e, i as nat) + e[i].height + LINE_GAP);
    }
    lemma_middle(p.height * ONE - total_height(e, n));
    if n > 0 {
        assert(above(e, n) == above(e, (n - 1) as nat) + e[n - 1].height + LINE_GAP);
        assert(above(e, 0) == 0);
        assert(ops[0]->Text_y == top + e[0].height);
        assert(ops.last()->Text_y == top + total_height(e, n));
    }
}

proof fn lemma_line_at(
    p: Place,
    lines: Seq<Seq<char>>,
    e: Seq<Extents>,
    n: nat,
    x: Option<int>,
    top: int,
    emphasize_first: bool,
    font_size: int,
)
    ensures
        line_ops(p, lines, e, n, x, top, emphasize_first, font_size).len() == n,
        forall|i: int|
            0 <= i < n ==> (#[trigger] line_ops(
                p,
                lines,
                e,
                n,
                x,
                top,
                emphasize_first,
                font_size,
            )[i]) == (OpView::Text {
                text: lines[i],
                x: match x {
                    Some(at) => at,
                    None => p.middle_x(e[i].width as int),
                },
                y: top + above(e, i as nat) + e[i].height,
                size: line_size(font_size, emphasize_first, i),
            }),
    decreases n,
{
    if n > 0 {
        lemma_line_at(p, lines, e, (n - 1) as nat, x, top, emphasize_first, font_size);
    }
}

/// Lines of text without an icon stand below each other, each in the middle from
/// left to right.
pub proof fn lines_stand_below_each_other(
    lines: Seq<Seq<char>>,
    p: Place,
    font_size: int,
    e: Seq<Extents>,
)
    requires
        e.len() == lines.len(),
    ensures
        ({
            let ops = painted(ContentView::MultilineText(lines), p, font_size, e);
            &&& are_lines(ops, p, lines, e, false, font_size)
            &&& forall|i: int|
                0 <= i < lines.len() ==> centered_across(
                    p,
                    (#[trigger] ops[i])->Text_x,
                    e[i].width as int,
                )
        }),
{
    lemma_lines(p, lines, e, lines.len(), None, false, font_size);
    assert forall|i: int| 0 <= i < lines.len() implies centered_across(
        p,
        (#[trigger] painted(ContentView::MultilineText(lines), p, font_size, e)[i])->Text_x,
        e[i].width as int,
    ) by {
        lemma_middle(p.width * ONE - e[i].width);
    }
}

/// The width of a block of lines: no line is wider, and one is as wide unless none
/// has any width.
pub open spec fn is_widest(width: int, e: Seq<Extents>) -> bool {
    &&& width >= 0
    &&& forall|i: int| 0 <= i < e.len() ==> (#[trigger] e[i]).width <= width
    &&& width > 0 ==> exists|i: int| 0 <= i < e.len() && (#[trigger] e[i]).width == width
}

proof fn lemma_widest(e: Seq<Extents>, n: nat)
    requires
        n <= e.len(),
    ensures
        widest(e, n) >= 0,
        forall|i: int| 0 <= i < n ==> (#[trigger] e[i]).width <= widest(e, n),
        widest(e, n) > 0 ==> exists|i: int| 0 <= i < n && (#[trigger] e[i]).width == widest(e, n),
    decreases n,
{
    if n > 0 {
        lemma_widest(e, (n - 1) as nat);
        if e[n - 1].width > widest(e, (n - 1) as nat) {
            assert(e[n - 1].width == widest(e, n));
        }
    }
}

/// An icon with lines beside it: the icon comes first, an overlay covers it
/// exactly, all lines begin four pixels behind it, and the icon with the widest
/// line stands in the middle.
pub open spec fn is_block(
    ops: Seq<OpView>,
    p: Place,
    icon: u32,
    tint: Option<Color>,
    overlay: Option<(u32, Color)>,
    side: int,
    lines: Seq<Seq<char>>,
    e: Seq<Extents>,
    emphasize_first: bool,
    font_size: int,
    width: int,
) -> bool {
    let n = if overlay is Some {
        2int
    } else {
        1
    };
    &&& ops.len() == n + lines.len()
    &&& ops[0] matches OpView::Icon { icon: first, x, y, size, tint: first_tint }
    &&& first == icon
    &&& first_tint == tint
    &&& size == side
    &&& overlay matches Some(o) ==> {
        &&& ops[1] matches OpView::Icon { icon: second, x: ox, y: oy, size: osize, tint: otint }
        &&& second == o.0
        &&& otint == Some(o.1)
        &&& ox == x
        &&& oy == y
        &&& osize == size
    }
    &&& centered_across(p, x, side + 4_000_000_000 + width)
    &&& centered_down(p, y, side)
    &&& are_lines(ops.subrange(n, ops.len() as int), p, lines, e, emphasize_first, font_size)
    &&& forall|i: int|
        n <= i < ops.len() ==> (#[trigger] ops[i])->Text_x == x + side + 4_000_000_000
}

proof fn lemma_block(
    p: Place,
    icon: u32,
    tint: Option<Color>,
    overlay: Option<u32>,
    overlay_tint: Color,
    side: int,
    lines: Seq<Seq<char>>,
    e: Seq<Extents>,
    emphasize_first: bool,
    font_size: int,
)
    requires
        e.len() == lines.len(),
    ensures
        is_widest(widest(e, lines.len()), e),
        is_block(
            block(
                p,
                icon,
                tint,
                overlay,
                overlay_tint,
                side,
                lines,
                e,
                emphasize_first,
                font_size,
            ),
            p,
            icon,
            tint,
            match overlay {
                Some(o) => Some((o, overlay_tint)),
                None => None,
            },
            side,
            lines,
            e,
            emphasize_first,
            font_size,
            widest(e, lines.len()),
        ),
{
    let n = lines.len();
    lemma_widest(e, n);
    let x = p.middle_x(side + ICON_GAP + widest(e, n));
    lemma_middle(p.width * ONE - (side + ICON_GAP + widest(e, n)));
    lemma_middle(p.height * ONE - side);
    lemma_lines(p, lines, e, n, Some(x + side + ICON_GAP), emphasize_first, font_size);
    let head = icons(icon, tint, overlay, overlay_tint, x, p.middle_y(side), side);
    let tail = line_ops(
        p,
        lines,
        e,
        n,
        Some(x + side + ICON_GAP),
        p.middle_y(total_height(e, n)),
        emphasize_first,
        font_size,
    );
    let ops = head + tail;
    assert(ops.subrange(head.len() as int, ops.len() as int) =~= tail);
    assert forall|i: int| head.len() <= i < ops.len() implies (#[trigger] ops[i])->Text_x == x + side
        + 4_000_000_000 by {
        assert(ops[i] == tail[i - head.len()]);
    }
}

/// Lines beside an icon are painted as a block, the icon uncoloured.
pub proof fn lines_stand_beside_their_icon(
    icon: u32,
    icon_size: i32,
    lines: Seq<Seq<char>>,
    emphasize_first: bool,
    p: Place,
    font_size: int,
    e: Seq<Extents>,
)
    requires
        e.len() == lines.len(),
    ensures
        exists|width: int|
            #[trigger] is_widest(width, e) && is_block(
                painted(
                    ContentView::IconWithMultilineText { icon, icon_size, lines, emphasize_first },
                    p,
                    font_size,
                    e,
                ),
                p,
                icon,
                None,
                None,
                icon_size * 1_000_000_000,
                lines,
                e,
                emphasize_first,
                font_size,
                width,
            ),
{
    lemma_block(
        p,
        icon,
        None,
        None,
        BLACK,
        icon_size * ONE,
        lines,
        e,
        emphasize_first,
        font_size,
    );
}

/// Lines beside a coloured icon are painted as a block: the icon in its colour,
/// and the other icon over it in its own colour.
pub proof fn lines_stand_beside_their_coloured_icon(
    icon: u32,
    icon_size: i32,
    icon_color: Color,
    overlay_icon: Option<u32>,
    overlay_color: Color,
    lines: Seq<Seq<char>>,
    emphasize_first: bool,
    p: Place,
    font_size: int,
    e: Seq<Extents>,
)
    requires
        e.len() == lines.len(),
    ensures
        exists|width: int|
            #[trigger] is_widest(width, e) && is_block(
                painted(
                    ContentView::ColoredIconWithMultilineText {
                        icon,
                        icon_size,
                        icon_color,
                        overlay_icon,
                        overlay_color,
                        lines,
                        emphasize_first,
                    },
                    p,
                    font_size,
                    e,
                ),
                p,
                icon,
                Some(icon_color),
                match overlay_icon {
                    Some(o) => Some((o, overlay_color)),
                    None => None,
                },
                icon_size * 1_000_000_000,
                lines,
                e,
                emphasize_first,
                font_size,
                width,
            ),
{
    lemma_block(
        p,
        icon,
        Some(icon_color),
        overlay_icon,
        overlay_color,
        icon_size * ONE,
        lines,
        e,
        emphasize_first,
        font_size,
    );
}

/// What a slider shows, from left to right: its icon where it has one, its track,
/// as much of it filled as the slider says, the thumb where that ends, and the
/// share in per cent at the right edge. A slider that is muted has its own icon,
/// if there is one, in red, and its filled part is dimmed.
pub open spec fn is_bar(
    ops: Seq<OpView>,
    p: Place,
    fraction: int,
    muted: bool,
    percent: u32,
    icon_color: Option<Color>,
    icon: Option<u32>,
    e: Extents,
    font_size: int,
) -> bool {
    let n = ops.len() - 4;
    &&& n == if icon is Some {
        1int
    } else {
        0
    }
    &&& icon matches Some(i) ==> {
        &&& ops[0] matches OpView::Icon { icon: painted_icon, x, y, size, tint }
        &&& painted_icon == i
        &&& x == p.left + 14_000_000_000
        &&& size == 26_000_000_000
        &&& centered_down(p, y, size)
        &&& tint == if muted {
            Some((10_000u32, 0u32, 0u32))
        } else {
            icon_color
        }
    }
    &&& ops[n] matches OpView::Fill { x: track_x, y: track_y, width: track, height, color: track_color }
    &&& ops[n + 1] matches OpView::Fill {
        x: filled_x,
        y: filled_y,
        width: filled,
        height: filled_height,
        color: filled_color,
    }
    &&& ops[n + 2] matches OpView::Disc { x: thumb_x, y: thumb_y, radius, color: thumb_color }
    &&& ops[n + 3] matches OpView::Text { text, x: text_x, y: text_y, size: text_size }
    &&& track_x == p.left + if icon is Some {
        50_000_000_000int
    } else {
        14_000_000_000
    }
    &&& track >= 10_000_000_000
    &&& track > 10_000_000_000 ==> track_x + track + 12_000_000_000 == text_x
    &&& track_x + 10_000_000_000 + 12_000_000_000 <= text_x ==> track_x + track + 12_000_000_000
        == text_x
    &&& track_color == (3_000u32, 3_000u32, 3_000u32)
    &&& height == 6_000_000_000
    &&& centered_down(p, track_y, height)
    &&& filled_x == track_x
    &&& filled_y == track_y
    &&& filled_height == height
    &&& filled * 1_000_000_000 <= track * fraction < (filled + 1) * 1_000_000_000
    &&& filled_color == if muted {
        (5_000u32, 5_000u32, 5_000u32)
    } else {
        (10_000u32, 10_000u32, 10_000u32)
    }
    &&& thumb_x == filled_x + filled
    &&& radius == 8_000_000_000
    &&& centered_down(p, thumb_y - radius, 2 * radius)
    &&& thumb_color == (10_000u32, 10_000u32, 10_000u32)
    &&& text == decimal(percent as nat) + "%"@
    &&& text_size == font_size
    &&& text_x + e.width + 14_000_000_000 == p.left + p.width * 1_000_000_000
    &&& centered_down(p, text_y - e.height, e.height as int)
}

/// A slider is painted as a bar, with the icon for when it is muted only while it
/// is.
pub proof fn slider_is_a_bar(
    fraction: i64,
    muted: bool,
    percent: u32,
    icon_color: Option<Color>,
    icon: Option<u32>,
    muted_icon: Option<u32>,
    p: Place,
    font_size: int,
    e: Seq<Extents>,
)
    requires
        e.len() == 1,
        0 <= fraction <= ONE,
    ensures
        is_bar(
            painted(
                ContentView::SliderBar { fraction, muted, percent, icon_color, icon, muted_icon },
                p,
                font_size,
                e,
            ),
            p,
            fraction as int,
            muted,
            percent,
            icon_color,
            match (muted, muted_icon) {
                (true, Some(i)) => Some(i),
                _ => icon,
            },
            e[0],
            font_size,
        ),
{
    let ops = painted(
        ContentView::SliderBar { fraction, muted, percent, icon_color, icon, muted_icon },
        p,
        font_size,
        e,
    );
    let track = ops[ops.len() - 4]->Fill_width;
    assert(track >= 10_000_000_000);
    let all = track * fraction;
    let filled = all / (ONE as int);
    assert(filled * 1_000_000_000 <= all < (filled + 1) * 1_000_000_000);
}

/// The texts among steps of painting, each with the size of its font.
pub open spec fn texts_in(ops: Seq<OpView>) -> Seq<(Seq<char>, int)>
    decreases ops.len(),
{
    if ops.len() == 0 {
        Seq::empty()
    } else {
        let earlier = texts_in(ops.drop_last());
        match ops.last() {
            OpView::Text { text, size, .. } => earlier.push((text, size)),
            _ => earlier,
        }
    }
}

proof fn lemma_texts_joined(a: Seq<OpView>, b: Seq<OpView>)
    ensures
        texts_in(a + b) == texts_in(a) + texts_in(b),
    decreases b.len(),
{
    if b.len() == 0 {
        assert(a + b =~= a);
        assert(texts_in(a) + texts_in(b) =~= texts_in(a));
    } else {
        assert((a + b).drop_last() =~= a + b.drop_last());
        lemma_texts_joined(a, b.drop_last());
        assert((a + b).last() == b.last());
        assert(texts_in(a + b) =~= texts_in(a) + texts_in(b));
    }
}

proof fn lemma_text_added(ops: Seq<OpView>, op: OpView)
    ensures
        texts_in(ops.push(op)) == match op {
            OpView::Text { text, size, .. } => texts_in(ops).push((text, size)),
            _ => texts_in(ops),
        },
{
    assert(ops.push(op).drop_last() =~= ops);
}

proof fn lemma_texts_of_lines(
    p: Place,
    lines: Seq<Seq<char>>,
    e: Seq<Extents>,
    n: nat,
    x: Option<int>,
    top: int,
    emphasize_first: bool,
    font_size: int,
)
    requires
        n <= lines.len(),
    ensures
        texts_in(line_ops(p, lines, e, n, x, top, emphasize_first, font_size)) == sized_lines(
            lines.subrange(0, n as int),
            emphasize_first,
            font_size,
        ),
    decreases n,
{
    let all = sized_lines(lines.subrange(0, n as int), emphasize_first, font_size);
    if n == 0 {
        assert(all =~= Seq::empty());
    } else {
        let m = (n - 1) as nat;
        lemma_texts_of_lines(p, lines, e, m, x, top, emphasize_first, font_size);
        let ops = line_ops(p, lines, e, n, x, top, emphasize_first, font_size);
        lemma_text_added(line_ops(p, lines, e, m, x, top, emphasize_first, font_size), ops.last());
        assert(all =~= sized_lines(
            lines.subrange(0, m as int),
            emphasize_first,
            font_size,
        ).push((lines[n - 1], line_size(font_size, emphasize_first, n - 1))));
    }
}

proof fn lemma_texts_of_icons(
    icon: u32,
    tint: Option<Color>,
    overlay: Option<u32>,
    overlay_tint: Color,
    x: int,
    y: int,
    size: int,
)
    ensures
        texts_in(icons(icon, tint, overlay, overlay_tint, x, y, size)) == Seq::<
            (Seq<char>, int),
        >::empty(),
{
    reveal_with_fuel(texts_in, 2);
    let base = Seq::empty().push(OpView::Icon { icon, x, y, size, tint });
    lemma_text_added(Seq::empty(), base[0]);
    match overlay {
        Some(o) => {
            lemma_text_added(base, OpView::Icon { icon: o, x, y, size, tint: Some(overlay_tint) });
        },
        None => {},
    }
}

proof fn lemma_texts_of_block(
    p: Place,
    icon: u32,
    tint: Option<Color>,
    overlay: Option<u32>,
    overlay_tint: Color,
    side: int,
    lines: Seq<Seq<char>>,
    e: Seq<Extents>,
    emphasize_first: bool,
    font_size: int,
)
    ensures
        texts_in(
            block(p, icon, tint, overlay, overlay_tint, side, lines, e, emphasize_first, font_size),
        ) == sized_lines(lines, emphasize_first, font_size),
{
    let n = lines.len();
    let x = p.middle_x(side + ICON_GAP + widest(e, n));
    let head = icons(icon, tint, overlay, overlay_tint, x, p.middle_y(side), side);
    let at = Some(x + side + ICON_GAP);
    let top = p.middle_y(total_height(e, n));
    let tail = line_ops(p, lines, e, n, at, top, emphasize_first, font_size);
    lemma_texts_of_icons(icon, tint, overlay, overlay_tint, x, p.middle_y(side), side);
    lemma_texts_of_lines(p, lines, e, n, at, top, emphasize_first, font_size);
    lemma_texts_joined(head, tail);
    assert(lines.subrange(0, n as int) =~= lines);
    assert(texts_in(head) + texts_in(tail) =~= texts_in(tail));
}

proof fn lemma_texts_of_row(
    p: Place,
    icon: u32,
    tint: Option<Color>,
    overlay: Option<u32>,
    overlay_tint: Color,
    side: int,
    text: Seq<char>,
    e: Extents,
    font_size: int,
)
    ensures
        texts_in(row(p, icon, tint, overlay, overlay_tint, side, text, e, font_size)) == seq![
            (text, font_size),
        ],
{
    let ops = row(p, icon, tint, overlay, overlay_tint, side, text, e, font_size);
    let x = p.middle_x(side + ICON_GAP + e.width);
    let head = icons(icon, tint, overlay, overlay_tint, x, p.middle_y(side), side);
    lemma_texts_of_icons(icon, tint, overlay, overlay_tint, x, p.middle_y(side), side);
    lemma_text_added(head, ops.last());
    assert(texts_in(ops) =~= seq![(text, font_size)]);
}

proof fn lemma_texts_of_clipped(p: Place, ops: Seq<OpView>)
    ensures
        texts_in(clipped(p, ops)) == texts_in(ops),
{
    let all = clipped(p, ops);
    let head = Seq::empty().push(all[0]);
    lemma_text_added(Seq::empty(), all[0]);
    lemma_text_added(ops, OpView::Unclip);
    assert(all =~= head + ops.push(OpView::Unclip));
    lemma_texts_joined(head, ops.push(OpView::Unclip));
    assert(texts_in(Seq::<OpView>::empty()) =~= Seq::empty());
    assert(texts_in(head) + texts_in(ops) =~= texts_in(ops));
}

/// The texts that are measured are those that are painted, in the same order and
/// with the same sizes: no text is painted with another's measure.
pub proof fn what_is_painted_was_measured(
    c: ContentView,
    p: Place,
    font_size: int,
    e: Seq<Extents>,
)
    ensures
        texts_in(painted(c, p, font_size, e)) == measured(c, font_size),
{
    let ops = painted(c, p, font_size, e);
    let none = Seq::<OpView>::empty();
    assert(texts_in(none) =~= Seq::empty());
    match c {
        ContentView::SimpleText(text) => {
            assert(ops =~= none.push(ops[0]));
            lemma_text_added(none, ops[0]);
            assert(texts_in(ops) =~= measured(c, font_size));
        },
        ContentView::Icon(icon, size) => {
            lemma_texts_of_icons(
                icon,
                None,
                None,
                BLACK,
                p.middle_x(size * ONE),
                p.middle_y(size * ONE),
                size * ONE,
            );
        },
        ContentView::Bitmap(_, _, _) => {
            assert(ops =~= none.push(ops[0]));
            lemma_text_added(none, ops[0]);
        },
        ContentView::IconWithText { icon, icon_size, text } => {
            lemma_texts_of_row(
                p,
                icon,
                None,
                None,
                BLACK,
                icon_size * ONE,
                text,
                e[0],
                font_size,
            );
        },
        ContentView::ColoredIconWithText {
            icon,
            icon_size,
            icon_color,
            overlay_icon,
            overlay_color,
            text,
        } => {
            lemma_texts_of_row(
                p,
                icon,
                Some(icon_color),
                overlay_icon,
                overlay_color,
                icon_size * ONE,
                text,
                e[0],
                font_size,
            );
        },
        ContentView::IconWithCenteredText { icon, icon_color, icon_size, text } => {
            let head = icons(
                icon,
                icon_color,
                None,
                BLACK,
                p.middle_x(icon_size * ONE),
                p.middle_y(icon_size * ONE),
                icon_size * ONE,
            );
            lemma_texts_of_icons(
                icon,
                icon_color,
                None,
                BLACK,
                p.middle_x(icon_size * ONE),
                p.middle_y(icon_size * ONE),
                icon_size * ONE,
            );
            lemma_text_added(head, ops.last());
            assert(texts_in(ops) =~= measured(c, font_size));
        },
        ContentView::IconWithMultilineText { icon, icon_size, lines, emphasize_first } => {
            lemma_texts_of_block(
                p,
                icon,
                None,
                None,
                BLACK,
                icon_size * ONE,
                lines,
                e,
                emphasize_first,
                font_size,
            );
        },
        ContentView::ColoredIconWithMultilineText {
            icon,
            icon_size,
            icon_color,
            overlay_icon,
            overlay_color,
            lines,
            emphasize_first,
        } => {
            lemma_texts_of_block(
                p,
                icon,
                Some(icon_color),
                overlay_icon,
                overlay_color,
                icon_size * ONE,
                lines,
                e,
                emphasize_first,
                font_size,
            );
        },
        ContentView::ClippedText(text) => {
            let inner = seq![text_op(p, text, e[0], font_size)];
            lemma_texts_of_clipped(p, inner);
            assert(inner =~= none.push(inner[0]));
            lemma_text_added(none, inner[0]);
            assert(texts_in(ops) =~= measured(c, font_size));
        },
        ContentView::IconWithClippedText { icon, icon_color, text } => {
            let side = DEFAULT_ICON_SIZE * ONE;
            lemma_texts_of_row(p, icon, icon_color, None, BLACK, side, text, e[0], font_size);
            lemma_texts_of_clipped(
                p,
                row(p, icon, icon_color, None, BLACK, side, text, e[0], font_size),
            );
        },
        ContentView::MultilineText(lines) => {
            let n = lines.len();
            let top = p.middle_y(total_height(e, n));
            lemma_texts_of_lines(p, lines, e, n, None, top, false, font_size);
            assert(lines.subrange(0, n as int) =~= lines);
        },
        ContentView::SliderBar { .. } => {
            let n = ops.len();
            let last = ops[n - 1];
            let disc = ops[n - 2];
            let filled = ops[n - 3];
            let track = ops[n - 4];
            let head = ops.subrange(0, n - 4);
            lemma_text_added(head, track);
            lemma_text_added(head.push(track), filled);
            lemma_text_added(head.push(track).push(filled), disc);
            lemma_text_added(head.push(track).push(filled).push(disc), last);
            assert(ops =~= head.push(track).push(filled).push(disc).push(last));
            if n == 5 {
                assert(head =~= none.push(ops[0]));
                lemma_text_added(none, ops[0]);
            } else {
                assert(head =~= none);
            }
            assert(texts_in(ops) =~= measured(c, font_size));
        },
        ContentView::Empty => {
            assert(ops =~= none);
        },
    }
}

/// The box of a button that is shown reaches from its left to its right edge, has
/// the button's colour and corners of eight pixels, and stands as far from the top
/// as from the bottom; seven tenths of the height lie between its corners. A
/// button that is not shown has none.
pub proof fn box_fills_its_button(item: ItemView, complete: bool, height: u16)
    ensures
        ({
            let ops = box_ops(item, complete, height);
            let n = if complete {
                0int
            } else {
                1
            };
            if item.visible {
                &&& ops.len() == n + if item.hold is Some {
                    2int
                } else {
                    1
                }
                &&& ops[n] matches OpView::RoundBox { left, right, upper, lower, radius, color }
                &&& radius == 8_000_000_000
                &&& left - radius == item.left
                &&& right + radius == item.left + item.width * 1_000_000_000
                &&& upper + lower == height * 1_000_000_000
                &&& 10 * (lower - upper) == 7 * (height * 1_000_000_000)
                &&& color == item.color
            } else {
                ops.len() == n
            }
        }),
{
}

/// A stripe that hides the box of a button, in a colour: it begins where that box
/// does, and is as high.
pub open spec fn hides_from(op: OpView, left: int, width: int, height: u16, color: Color) -> bool {
    &&& op matches OpView::Fill { x, y, width: w, height: h, color: c }
    &&& x == left
    &&& w == width
    &&& 20 * (y + 8_000_000_000) == 3 * (height * 1_000_000_000)
    &&& 20 * (y + h - 8_000_000_000) == 17 * (height * 1_000_000_000)
    &&& c == color
}

/// Where not everything is drawn again, what a button showed before is hidden
/// first, from its left to its right edge.
pub proof fn what_was_there_is_hidden(item: ItemView, height: u16)
    ensures
        box_ops(item, false, height).len() >= 1,
        hides_from(
            box_ops(item, false, height)[0],
            item.left,
            item.width * 1_000_000_000,
            height,
            (0, 0, 0),
        ),
{
}

/// A long press is painted over its button from the left: as much of the width as
/// of the time has passed.
pub proof fn long_press_grows_from_the_left(item: ItemView, complete: bool, height: u16)
    requires
        item.visible,
    ensures
        item.hold matches Some(h) ==> hides_from(
            box_ops(item, complete, height).last(),
            item.left,
            item.width * h,
            height,
            (5_500, 5_500, 5_500),
        ),
        item.hold is None ==> box_ops(item, complete, height).last() is RoundBox,
{
}

/// What lies under the buttons: a layer that is drawn again begins with a clear
/// bar, a panel only with black where it covers the bar and a grey line of two
/// pixels at its edge; a layer that is not, with neither. Painting is confined to
/// where the panel is while it slides.
pub proof fn layer_begins_on_black(
    covered_left: int,
    covered_right: int,
    confined: bool,
    panel: bool,
    complete: bool,
    height: u16,
)
    ensures
        ({
            let ops = background_ops(
                covered_left,
                covered_right,
                confined,
                panel,
                complete,
                height,
            );
            let n = if complete && panel {
                2int
            } else if complete {
                1
            } else {
                0
            };
            &&& ops.len() == n + if confined {
                1int
            } else {
                0
            }
            &&& complete && !panel ==> ops[0] is Clear
            &&& complete && panel ==> {
                &&& ops[0] matches OpView::Fill { x, y, width, height: h, color }
                &&& x == covered_left
                &&& x + width == covered_right
                &&& y == 0
                &&& h == height * 1_000_000_000
                &&& color == (0u32, 0u32, 0u32)
                &&& hides_from(ops[1], covered_left, 2_000_000_000, height, (3_000, 3_000, 3_000))
            }
            &&& confined ==> {
                &&& ops[n] matches OpView::Clip { x, y, width, height: h }
                &&& x == covered_left
                &&& x + width == covered_right
                &&& y == 0
                &&& h == height * 1_000_000_000
            }
        }),
{
}

} // verus!
