use brightness_ctrl::geometry::Rect;
use brightness_ctrl::monitor::{AppState, MonitorInfo};
use brightness_ctrl::paint::{
    draw_text, make_font, on_paint, Font, FontSpec, PaintOp, ACCENT, BG, DIMTXT, TEXT, TITLEBAR,
    TRACK, WHITE,
};

fn monitor(brightness: u32, supported: bool) -> MonitorInfo {
    MonitorInfo { handle: 1, name: "Monitor 1".to_string(), brightness, supported }
}

fn rect(left: i32, top: i32, right: i32, bottom: i32) -> Rect {
    Rect { left, top, right, bottom }
}

fn text(s: &str, x: i32, y: i32, color: u32) -> PaintOp {
    PaintOp::Text { units: s.encode_utf16().collect(), x, y, color }
}

fn header(client: Rect) -> Vec<PaintOp> {
    vec![
        PaintOp::TransparentText,
        PaintOp::Fill { rect: client, color: BG },
        PaintOp::Fill { rect: rect(0, 0, client.right, 50), color: TITLEBAR },
        PaintOp::SelectFont(Font::Title),
        text("  Monitor Brightness", 10, 17, TEXT),
        text("\u{d7}", client.right - 28, 17, DIMTXT),
    ]
}

#[test]
fn empty_panel() {
    let client = rect(0, 0, 420, 180);
    let mut expected = header(client);
    expected.push(PaintOp::RestoreFont);
    assert_eq!(on_paint(&AppState::new(vec![]), client), expected);
}

#[test]
fn supported_monitor() {
    let client = rect(0, 0, 420, 180);
    let mut expected = header(client);
    expected.extend(vec![
        PaintOp::SelectFont(Font::Name),
        text("Monitor 1", 30, 72, DIMTXT),
        PaintOp::SelectFont(Font::Percent),
        text("50%", 334, 70, ACCENT),
        PaintOp::SelectNullPen,
        PaintOp::RoundRect { rect: rect(30, 126, 390, 134), corner: 8, color: TRACK },
        PaintOp::RoundRect { rect: rect(30, 126, 210, 134), corner: 8, color: ACCENT },
        PaintOp::Ellipse { rect: rect(200, 120, 220, 140), color: WHITE },
        PaintOp::SelectFont(Font::Name),
        text("0", 30, 144, DIMTXT),
        text("100", 368, 144, DIMTXT),
        PaintOp::RestoreFont,
    ]);
    assert_eq!(on_paint(&AppState::new(vec![monitor(50, true)]), client), expected);
}

#[test]
fn unsupported_monitor_below_another() {
    let client = rect(0, 0, 420, 290);
    let ops = on_paint(&AppState::new(vec![monitor(50, true), monitor(0, false)]), client);
    let n = ops.len();
    assert_eq!(n, 6 + 11 + 3 + 1);
    assert_eq!(ops[n - 4], PaintOp::SelectFont(Font::Name));
    assert_eq!(ops[n - 3], text("Monitor 1", 30, 182, DIMTXT));
    assert_eq!(ops[n - 2], text("DDC/CI not supported", 30, 208, DIMTXT));
    assert_eq!(ops[n - 1], PaintOp::RestoreFont);
}

#[test]
fn the_filled_part_needs_room() {
    let filled = |bri: u32, w: i32| {
        on_paint(&AppState::new(vec![monitor(bri, true)]), rect(0, 0, w, 180)).iter().any(
            |op| match op {
                PaintOp::RoundRect { color, .. } => *color == ACCENT,
                _ => false,
            },
        )
    };
    // The thumb is 2 px from the left end.
    assert!(!filled(1, 260));
    // It is 3 px from the left end.
    assert!(filled(1, 420));
    assert!(!filled(100, 60));
}

#[test]
fn one_thumb_per_supported_monitor() {
    let state = AppState::new(vec![monitor(5, true), monitor(0, false), monitor(99, true)]);
    let thumbs = on_paint(&state, rect(0, 0, 420, 400))
        .iter()
        .filter(|op| matches!(op, PaintOp::Ellipse { .. }))
        .count();
    assert_eq!(thumbs, 2);
}

#[test]
fn fonts() {
    let font = |height: i32, weight: i32| FontSpec {
        height,
        width: 0,
        escapement: 0,
        orientation: 0,
        weight,
        italic: 0,
        underline: 0,
        strike_out: 0,
        face: "Segoe UI",
    };
    assert_eq!(make_font(9, true), font(9, 600));
    assert_eq!(make_font(9, false), font(9, 400));
    assert_eq!(Font::Title.params(), font(16, 600));
    assert_eq!(Font::Name.params(), font(13, 400));
    assert_eq!(Font::Percent.params(), font(22, 600));
}

#[test]
fn text_operation() {
    assert_eq!(draw_text("x", 1, -2, 3), PaintOp::Text { units: vec![0x78], x: 1, y: -2, color: 3 });
}

#[test]
fn colors() {
    assert_eq!(
        [BG, TITLEBAR, ACCENT, TRACK, TEXT, DIMTXT, WHITE],
        [0x1e0f0f, 0x3e1a1a, 0xf16363, 0x4e2d2d, 0xf8f0f0, 0xb8a394, 0xffffff]
    );
}

#[test]
fn sections_follow_one_another() {
    let client = rect(0, 0, 420, 400);
    let ms = || vec![monitor(5, true), monitor(0, false), monitor(99, true)];
    let all = on_paint(&AppState::new(ms()), client);
    let mut start = 6;
    for n in 1..=3usize {
        let first = on_paint(&AppState::new(ms().into_iter().take(n).collect()), client);
        let end = first.len() - 1;
        assert_eq!(all[..end], first[..end]);
        assert_eq!(all[start], PaintOp::SelectFont(Font::Name));
        start = end;
    }
    assert_eq!(all.len(), start + 1);
}
