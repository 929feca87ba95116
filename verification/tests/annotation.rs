use cosmicsnip::annotation::{
    f32_bits_equal, tool_hotkey, Document, Point, Shape, Tool, HIGHLIGHT_ALPHA_BITS,
};
use cosmicsnip::config::{MAX_STROKE_POINTS, MAX_UNDO_HISTORY};

const RED: [f32; 4] = [0.93, 0.16, 0.16, 1.0];

fn bits(rgba: [f32; 4]) -> [u32; 4] {
    rgba.map(f32::to_bits)
}

fn pt(x: f32, y: f32) -> Point {
    Point::new(x.to_bits(), y.to_bits())
}

#[test]
fn a_drag_is_one_undo_step() {
    let mut doc = Document::default();
    doc.begin(Tool::Pen, bits(RED), 3.0f32.to_bits(), pt(1.0, 1.0));
    doc.extend(pt(5.0, 5.0));
    doc.extend(pt(9.0, 2.0));
    doc.finish();
    assert_eq!(doc.committed().len(), 1);
    assert!(doc.undo());
    assert!(doc.committed().is_empty());
    assert!(!doc.undo(), "nothing left to undo");
}

#[test]
fn a_click_without_a_drag_leaves_nothing_behind() {
    let mut doc = Document::default();
    for tool in Tool::ALL {
        doc.begin(tool, bits(RED), 3.0f32.to_bits(), pt(4.0, 4.0));
        doc.finish();
    }
    assert!(doc.committed().is_empty());
}

#[test]
fn the_highlighter_is_translucent_and_the_pen_is_not() {
    let mut doc = Document::default();
    doc.begin(Tool::Highlighter, bits(RED), 20.0f32.to_bits(), pt(0.0, 0.0));
    doc.extend(pt(10.0, 0.0));
    doc.finish();
    doc.begin(Tool::Pen, bits(RED), 3.0f32.to_bits(), pt(0.0, 0.0));
    doc.extend(pt(10.0, 0.0));
    doc.finish();
    assert_eq!(doc.committed()[0].rgba[3], HIGHLIGHT_ALPHA_BITS);
    assert_eq!(f32::from_bits(doc.committed()[0].rgba[3]), 0.35);
    assert_eq!(f32::from_bits(doc.committed()[1].rgba[3]), 1.0);
}

#[test]
fn a_rectangle_keeps_only_its_last_corner() {
    let mut doc = Document::default();
    doc.begin(Tool::Rect, bits(RED), 3.0f32.to_bits(), pt(2.0, 2.0));
    doc.extend(pt(8.0, 8.0));
    doc.extend(pt(12.0, 6.0));
    doc.finish();
    assert_eq!(
        doc.committed()[0].shape,
        Shape::Rect {
            start: pt(2.0, 2.0),
            end: pt(12.0, 6.0)
        }
    );
}

#[test]
fn the_history_is_bounded() {
    let mut doc = Document::default();
    for i in 0..(MAX_UNDO_HISTORY + 5) {
        doc.begin(Tool::Arrow, bits(RED), 3.0f32.to_bits(), pt(0.0, 0.0));
        doc.extend(pt(i as f32 + 1.0, 0.0));
        doc.finish();
    }
    assert_eq!(doc.committed().len(), MAX_UNDO_HISTORY);
}

#[test]
fn the_oldest_stroke_leaves_a_full_history() {
    let mut doc = Document::default();
    for i in 0..(MAX_UNDO_HISTORY + 1) {
        doc.begin(Tool::Arrow, bits(RED), 3.0f32.to_bits(), pt(0.0, 0.0));
        doc.extend(pt(i as f32 + 1.0, 0.0));
        doc.finish();
    }
    let committed = doc.committed();
    assert_eq!(
        committed[0].shape,
        Shape::Arrow {
            start: pt(0.0, 0.0),
            end: pt(2.0, 0.0)
        }
    );
    assert_eq!(
        committed[MAX_UNDO_HISTORY - 1].shape,
        Shape::Arrow {
            start: pt(0.0, 0.0),
            end: pt((MAX_UNDO_HISTORY + 1) as f32, 0.0)
        }
    );
}

#[test]
fn hotkeys_match_cosmicsnip() {
    assert_eq!(Tool::from_hotkey('P'), Some(Tool::Pen));
    assert_eq!(Tool::from_hotkey('h'), Some(Tool::Highlighter));
    assert_eq!(Tool::from_hotkey('a'), Some(Tool::Arrow));
    assert_eq!(Tool::from_hotkey('r'), Some(Tool::Rect));
    assert_eq!(Tool::from_hotkey('x'), None);
}

#[test]
fn every_tool_has_its_label_icon_and_key() {
    assert_eq!(Tool::Pen.label(), "Pen (P)");
    assert_eq!(Tool::Highlighter.label(), "Highlighter (H)");
    assert_eq!(Tool::Arrow.label(), "Arrow (A)");
    assert_eq!(Tool::Rect.label(), "Rectangle (R)");
    assert_eq!(Tool::Pen.icon(), "edit-symbolic");
    assert_eq!(Tool::Highlighter.icon(), "format-text-highlight-symbolic");
    assert_eq!(Tool::Arrow.icon(), "go-next-symbolic");
    assert_eq!(Tool::Rect.icon(), "checkbox-symbolic");
    for tool in Tool::ALL {
        assert_eq!(Tool::from_hotkey(tool_hotkey(tool)), Some(tool));
    }
    assert!(Tool::Highlighter.uses_highlight_width());
    assert!(!Tool::Arrow.uses_highlight_width());
}

#[test]
fn a_freehand_path_skips_repeated_points() {
    let mut doc = Document::default();
    doc.begin(Tool::Pen, bits(RED), 3.0f32.to_bits(), pt(1.0, 1.0));
    doc.extend(pt(1.0, 1.0));
    doc.extend(pt(2.0, 1.0));
    doc.extend(pt(2.0, 1.0));
    // -0.0 is the same coordinate as 0.0.
    doc.extend(pt(0.0, 3.0));
    doc.extend(pt(-0.0, 3.0));
    doc.finish();
    assert_eq!(
        doc.committed()[0].shape,
        Shape::Path(vec![pt(1.0, 1.0), pt(2.0, 1.0), pt(0.0, 3.0)])
    );
}

#[test]
fn a_freehand_path_stops_growing_when_full() {
    let mut doc = Document::default();
    doc.begin(Tool::Pen, bits(RED), 3.0f32.to_bits(), pt(0.0, 0.0));
    for i in 1..(MAX_STROKE_POINTS + 10) {
        doc.extend(pt(i as f32, 0.0));
    }
    doc.finish();
    match &doc.committed()[0].shape {
        Shape::Path(points) => assert_eq!(points.len(), MAX_STROKE_POINTS),
        other => panic!("not a path: {other:?}"),
    }
}

#[test]
fn a_click_at_an_undefined_point_is_kept() {
    // NaN equals nothing, not even itself, so a line "from NaN to NaN" is not
    // a click in place.
    let mut doc = Document::default();
    doc.begin(Tool::Arrow, bits(RED), 3.0f32.to_bits(), pt(f32::NAN, 0.0));
    doc.finish();
    assert_eq!(doc.committed().len(), 1);
}

#[test]
fn undo_drops_the_stroke_in_progress() {
    let mut doc = Document::default();
    doc.begin(Tool::Rect, bits(RED), 3.0f32.to_bits(), pt(0.0, 0.0));
    doc.extend(pt(5.0, 5.0));
    doc.finish();
    doc.begin(Tool::Pen, bits(RED), 3.0f32.to_bits(), pt(0.0, 0.0));
    assert!(doc.is_drawing());
    assert_eq!(doc.all().len(), 2);
    assert!(doc.undo());
    assert!(!doc.is_drawing());
    assert!(doc.committed().is_empty());
    assert!(doc.all().is_empty());
}

#[test]
fn everything_to_draw_ends_with_the_stroke_in_progress() {
    let mut doc = Document::default();
    doc.begin(Tool::Arrow, bits(RED), 3.0f32.to_bits(), pt(0.0, 0.0));
    doc.extend(pt(5.0, 5.0));
    doc.finish();
    doc.begin(Tool::Highlighter, bits(RED), 20.0f32.to_bits(), pt(1.0, 1.0));
    let all = doc.all();
    assert_eq!(all.len(), 2);
    assert!(matches!(all[0].shape, Shape::Arrow { .. }));
    assert_eq!(all[1].shape, Shape::Path(vec![pt(1.0, 1.0)]));
    assert_eq!(all[1].width, 20.0f32.to_bits());
}

#[test]
fn float_equality_on_bits() {
    let eq = |a: f32, b: f32| f32_bits_equal(a.to_bits(), b.to_bits());
    assert!(eq(1.5, 1.5));
    assert!(eq(0.0, -0.0));
    assert!(!eq(f32::NAN, f32::NAN));
    assert!(!eq(1.0, 2.0));
    assert!(eq(f32::INFINITY, f32::INFINITY));
    assert!(!eq(f32::INFINITY, f32::NEG_INFINITY));
}

#[test]
fn points_compare_as_floats() {
    assert_eq!(pt(0.0, 1.0), pt(-0.0, 1.0));
    assert_ne!(pt(f32::NAN, 1.0), pt(f32::NAN, 1.0));
    assert_ne!(pt(1.0, 2.0), pt(2.0, 1.0));
    assert_eq!(
        Shape::Arrow { start: pt(0.0, 0.0), end: pt(3.0, -0.0) },
        Shape::Arrow { start: pt(-0.0, 0.0), end: pt(3.0, 0.0) }
    );
}
