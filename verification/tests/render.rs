//! Where things are painted.

use tiny_dfr::draw::{DrawPlan, ItemPlan};
use tiny_dfr::number::ONE;
use tiny_dfr::render::{
    check_extents, render_background, render_box, texts_to_measure, Extents, Place, RenderOp, BLACK,
    BRIGHT, GREY, MUTED_RED,
};
use tiny_dfr::{Button, ButtonContent};

const PX: i128 = ONE as i128;

fn place() -> Place {
    Place { left: 100 * PX, width: 200, height: 60, y_shift: 0 }
}

fn extents(w: i64, h: i64) -> Extents {
    Extents { width: w * ONE, height: h * ONE }
}

fn paint(content: ButtonContent, e: Vec<Extents>) -> Vec<RenderOp> {
    assert_eq!(texts_to_measure(&content, 32 * ONE).len(), e.len());
    assert!(check_extents(&e));
    Button::new_spacer().render_content(&content, &place(), 32 * ONE, &e)
}

#[test]
fn text_stands_in_the_middle() {
    let ops = paint(ButtonContent::SimpleText("hi".to_string()), vec![extents(51, 21)]);
    match &ops[0] {
        RenderOp::Text { text, x, y, size } => {
            assert_eq!(text, "hi");
            // (200 - 51) / 2 and (60 + 21) / 2, rounded up.
            assert_eq!((*x, *y, *size), (175 * PX, 41 * PX, 32 * ONE));
        }
        _ => panic!("no text"),
    }
}

#[test]
fn an_icon_stands_beside_its_text() {
    let content =
        ButtonContent::IconWithText { icon: 7, icon_size: 48, text: "42%".to_string() };
    let ops = paint(content, vec![extents(50, 20)]);
    match (&ops[0], &ops[1]) {
        (RenderOp::Icon { icon, x, y, size, tint }, RenderOp::Text { x: tx, y: ty, .. }) => {
            assert_eq!((*icon, *x, *y, *size, *tint), (7, 149 * PX, 6 * PX, 48 * PX, None));
            assert_eq!((*tx, *ty), (201 * PX, 40 * PX));
        }
        _ => panic!("no icon with text"),
    }
}

#[test]
fn lines_stand_below_each_other() {
    let content = ButtonContent::MultilineText(vec!["a".to_string(), "b".to_string()]);
    let ops = paint(content, vec![extents(20, 10), extents(40, 12)]);
    let at: Vec<(i128, i128)> = ops
        .iter()
        .map(|op| match op {
            RenderOp::Text { x, y, .. } => (*x / PX, *y / PX),
            _ => panic!("no text"),
        })
        .collect();
    // The block is 10 + 2 + 12 high, so it begins at 18.
    assert_eq!(at, [(190, 28), (180, 42)]);
}

#[test]
fn a_first_line_may_stand_out() {
    let content = ButtonContent::IconWithMultilineText {
        icon: 1,
        icon_size: 48,
        lines: vec!["Mon".to_string(), "3".to_string()],
        emphasize_first: true,
    };
    let sizes: Vec<i64> = texts_to_measure(&content, 20 * ONE).iter().map(|t| t.1).collect();
    assert_eq!(sizes, [22 * ONE, 20 * ONE]);
}

#[test]
fn clipped_text_is_confined_to_its_button() {
    let ops = paint(ButtonContent::ClippedText("long".to_string()), vec![extents(500, 20)]);
    assert!(matches!(
        &ops[0],
        RenderOp::Clip { x, width, height, .. } if *x == 100 * PX && *width == 200 * PX && *height == 60 * PX
    ));
    assert!(matches!(&ops[1], RenderOp::Text { x, .. } if *x == -50 * PX));
    assert!(matches!(&ops[2], RenderOp::Unclip));
}

#[test]
fn a_muted_slider_is_dimmed() {
    let content = ButtonContent::SliderBar {
        fraction: ONE / 2,
        muted: true,
        percent: 50,
        icon_color: None,
        icon: Some(1),
        muted_icon: Some(2),
    };
    let ops = paint(content, vec![extents(40, 20)]);
    assert!(matches!(
        &ops[0],
        RenderOp::Icon { icon: 2, tint: Some(c), x, y, .. } if *c == MUTED_RED && *x == 114 * PX && *y == 17 * PX
    ));
    // From 150 to where the text at 246 leaves twelve pixels free.
    assert!(matches!(
        &ops[1],
        RenderOp::Fill { x, width, color, .. } if *x == 150 * PX && *width == 84 * PX && *color == GREY
    ));
    assert!(matches!(&ops[2], RenderOp::Fill { width, .. } if *width == 42 * PX));
    assert!(matches!(
        &ops[3],
        RenderOp::Disc { x, y, color, .. } if *x == 192 * PX && *y == 30 * PX && *color == BRIGHT
    ));
    assert!(matches!(&ops[4], RenderOp::Text { text, .. } if text == "50%"));
}

#[test]
fn a_narrow_slider_keeps_a_track() {
    let content = ButtonContent::SliderBar {
        fraction: ONE,
        muted: false,
        percent: 100,
        icon_color: None,
        icon: None,
        muted_icon: None,
    };
    let e = vec![extents(190, 20)];
    let ops = Button::new_spacer().render_content(&content, &place(), 32 * ONE, &e);
    assert!(matches!(&ops[0], RenderOp::Fill { width, .. } if *width == 10 * PX));
}

#[test]
fn a_panel_covers_its_part_of_the_bar() {
    let plan = DrawPlan {
        regions: vec![],
        covered_left: 600 * ONE,
        covered_right: 1000 * ONE,
        confined: true,
        items: vec![],
    };
    let ops = render_background(&plan, true, true, 60);
    assert!(matches!(
        &ops[0],
        RenderOp::Fill { x, width, color, .. } if *x == 600 * PX && *width == 400 * PX && *color == BLACK
    ));
    assert!(matches!(&ops[1], RenderOp::Fill { width, .. } if *width == 2 * PX));
    assert!(matches!(&ops[2], RenderOp::Clip { x, .. } if *x == 600 * PX));
    let plain = DrawPlan { confined: false, ..plan };
    assert!(matches!(render_background(&plain, false, true, 60)[..], [RenderOp::Clear]));
    assert!(render_background(&plain, false, false, 60).is_empty());
}

#[test]
fn a_box_shows_how_far_a_long_press_has_come() {
    let item = ItemPlan {
        button: Some(0),
        left: 10 * PX,
        width: 100,
        visible: true,
        color: (2_000, 2_000, 2_000),
        hold: Some(ONE / 4),
        font_size: 32 * ONE,
        content: None,
    };
    let ops = render_box(&item, true, 60);
    assert!(matches!(
        &ops[0],
        RenderOp::RoundBox { left, right, upper, lower, .. }
            if *left == 18 * PX && *right == 102 * PX && *upper == 9 * PX && *lower == 51 * PX
    ));
    assert!(matches!(
        &ops[1],
        RenderOp::Fill { x, width, y, height, .. }
            if *x == 10 * PX && *width == 25 * PX && *y == PX && *height == 58 * PX
    ));
    let hidden = ItemPlan { visible: false, ..item };
    assert!(render_box(&hidden, true, 60).is_empty());
    assert_eq!(render_box(&hidden, false, 60).len(), 1);
}
