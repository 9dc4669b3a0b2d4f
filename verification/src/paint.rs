//! What is painted, as a list of drawing operations.
use crate::arith::{fits_i32, low_i32};
use crate::geometry::{
    law_thumb_divides_track, law_thumb_on_track, section_defined, section_top, section_y, slider_y,
    slx1, thumb_at, thumb_defined, thumb_x, track_end, Rect, SLIDER_DY, SLX0, THUMB_R, TITLE_H, TRK_H,
};
use crate::monitor::{monitor_views, AppState, MonitorInfo, MonitorView, StateView};
use crate::text::{decimal, percent, utf16, wide};
use vstd::prelude::*;

verus! {

// Colors, stored as BGR.
pub const BG: u32 = 0x1e0f0f;

pub const TITLEBAR: u32 = 0x3e1a1a;

pub const ACCENT: u32 = 0xf16363;

pub const TRACK: u32 = 0x4e2d2d;

pub const TEXT: u32 = 0xf8f0f0;

pub const DIMTXT: u32 = 0xb8a394;

pub const WHITE: u32 = 0xffffff;

/// The fonts of the panel.
#[derive(Clone, Copy, Debug, PartialEq, Eq, Structural)]
pub enum Font {
    Title,
    Name,
    Percent,
}

/// The typeface of the panel.
pub const FONT_FACE: &'static str = "Segoe UI";

/// The parameters with which a font is created.
#[derive(Clone, Copy, Debug, PartialEq, Eq)]
pub struct FontSpec {
    pub height: i32,
    pub width: i32,
    pub escapement: i32,
    pub orientation: i32,
    pub weight: i32,
    pub italic: u32,
    pub underline: u32,
    pub strike_out: u32,
    pub face: &'static str,
}

/// An upright font of the panel's typeface and the given size, semi-bold or
/// regular, with no lines and its natural width.
pub open spec fn upright(size: i32, bold: bool) -> FontSpec {
    FontSpec {
        height: size,
        width: 0,
        escapement: 0,
        orientation: 0,
        weight: if bold {
            600
        } else {
            400
        },
        italic: 0,
        underline: 0,
        strike_out: 0,
        face: FONT_FACE,
    }
}

/// A font of the given size, semi-bold or regular.
pub fn make_font(size: i32, bold: bool) -> (params: FontSpec)
    ensures
        params == upright(size, bold),
        params.height == size,
        params.width == 0 && params.escapement == 0 && params.orientation == 0,
        params.italic == 0 && params.underline == 0 && params.strike_out == 0,
        params.weight == if bold {
            600int
        } else {
            400int
        },
        params.face@ == "Segoe UI"@,
{
    FontSpec {
        height: size,
        width: 0,
        escapement: 0,
        orientation: 0,
        weight: if bold {
            600
        } else {
            400
        },
        italic: 0,
        underline: 0,
        strike_out: 0,
        face: FONT_FACE,
    }
}

impl Font {
    /// How the font is created.
    pub fn params(self) -> (params: FontSpec)
        ensures
            params == match self {
                Font::Title => upright(16, true),
                Font::Name => upright(13, false),
                Font::Percent => upright(22, true),
            },
    {
        match self {
            Font::Title => make_font(16, true),
            Font::Name => make_font(13, false),
            Font::Percent => make_font(22, true),
        }
    }
}

/// A drawing operation. Shapes are drawn with a solid brush of their color, and
/// text with the font selected last.
#[derive(Debug, PartialEq, Eq)]
pub enum PaintOp {
    /// Draw text without filling its background.
    TransparentText,
    Fill { rect: Rect, color: u32 },
    SelectFont(Font),
    /// Draw shapes without an outline.
    SelectNullPen,
    Text { units: Vec<u16>, x: i32, y: i32, color: u32 },
    RoundRect { rect: Rect, corner: i32, color: u32 },
    Ellipse { rect: Rect, color: u32 },
    /// Select the font that was selected before painting began.
    RestoreFont,
}

/// A rectangle over mathematical integers.
pub ghost struct RectView {
    pub left: int,
    pub top: int,
    pub right: int,
    pub bottom: int,
}

impl View for Rect {
    type V = RectView;

    open spec fn view(&self) -> RectView {
        RectView {
            left: self.left as int,
            top: self.top as int,
            right: self.right as int,
            bottom: self.bottom as int,
        }
    }
}

/// What a [`PaintOp`] draws.
pub ghost enum PaintView {
    TransparentText,
    Fill { rect: RectView, color: u32 },
    SelectFont(Font),
    SelectNullPen,
    Text { units: Seq<u16>, x: int, y: int, color: u32 },
    RoundRect { rect: RectView, corner: int, color: u32 },
    Ellipse { rect: RectView, color: u32 },
    RestoreFont,
}

impl View for PaintOp {
    type V = PaintView;

    open spec fn view(&self) -> PaintView {
        match *self {
            PaintOp::TransparentText => PaintView::TransparentText,
            PaintOp::Fill { rect, color } => PaintView::Fill { rect: rect@, color },
            PaintOp::SelectFont(font) => PaintView::SelectFont(font),
            PaintOp::SelectNullPen => PaintView::SelectNullPen,
            PaintOp::Text { units, x, y, color } => PaintView::Text {
                units: units@,
                x: x as int,
                y: y as int,
                color,
            },
            PaintOp::RoundRect { rect, corner, color } => PaintView::RoundRect {
                rect: rect@,
                corner: corner as int,
                color,
            },
            PaintOp::Ellipse { rect, color } => PaintView::Ellipse { rect: rect@, color },
            PaintOp::RestoreFont => PaintView::RestoreFont,
        }
    }
}

/// What a list of operations draws.
pub open spec fn paint_views(ops: Seq<PaintOp>) -> Seq<PaintView> {
    ops.map_values(|op: PaintOp| op@)
}

/// Text drawn with its top left corner at a point.
pub open spec fn text_at(text: Seq<char>, x: int, y: int, color: u32) -> PaintView {
    PaintView::Text { units: utf16(text), x, y, color }
}

/// The operation that draws a text with its top left corner at a point.
pub fn draw_text(text: &str, x: i32, y: i32, color: u32) -> (op: PaintOp)
    ensures
        op@ == text_at(text@, x as int, y as int, color),
        op matches PaintOp::Text { units, x: left, y: top, color: c } && units@ == utf16(text@)
            && left == x && top == y && c == color,
{
    PaintOp::Text { units: wide(text), x, y, color }
}

/// The background, the title bar with its caption, and the close button.
pub open spec fn header_view(client: RectView) -> Seq<PaintView> {
    seq![
        PaintView::TransparentText,
        PaintView::Fill { rect: client, color: BG },
        PaintView::Fill {
            rect: RectView { left: 0, top: 0, right: client.right, bottom: TITLE_H as int },
            color: TITLEBAR,
        },
        PaintView::SelectFont(Font::Title),
        text_at("  Monitor Brightness"@, 10, 17, TEXT),
        text_at("\u{00D7}"@, client.right - 28, 17, DIMTXT),
    ]
}

/// A stretch of slider track from `left` to `right`, centred at the height `sy`.
pub open spec fn track_view(left: int, right: int, sy: int, color: u32) -> PaintView {
    PaintView::RoundRect {
        rect: RectView { left, top: sy - TRK_H / 2, right, bottom: sy + TRK_H / 2 },
        corner: TRK_H as int,
        color,
    }
}

/// The slider of a controllable monitor: its percentage, the track, the part of
/// the track left of the thumb where there is room for it, the thumb, and the
/// scale's ends.
pub open spec fn slider_view(bri: u32, idx: int, w: int) -> Seq<PaintView> {
    let sy = slider_y(idx);
    let x1 = track_end(w);
    let tx = thumb_at(low_i32(bri as int), SLX0 as int, x1);
    seq![
        PaintView::SelectFont(Font::Percent),
        text_at(decimal(bri as nat) + "%"@, x1 - 56, section_y(idx), ACCENT),
        PaintView::SelectNullPen,
        track_view(SLX0 as int, x1, sy, TRACK),
    ] + (if tx > SLX0 + 2 {
        seq![track_view(SLX0 as int, tx, sy, ACCENT)]
    } else {
        Seq::empty()
    }) + seq![
        PaintView::Ellipse {
            rect: RectView {
                left: tx - THUMB_R,
                top: sy - THUMB_R,
                right: tx + THUMB_R,
                bottom: sy + THUMB_R,
            },
            color: WHITE,
        },
        PaintView::SelectFont(Font::Name),
        text_at("0"@, SLX0 as int, sy + THUMB_R + 4, DIMTXT),
        text_at("100"@, x1 - 22, sy + THUMB_R + 4, DIMTXT),
    ]
}

/// The section of the monitor at `idx`: its name, and its slider or a note that
/// it has none.
pub open spec fn section_view(m: MonitorView, idx: int, w: int) -> Seq<PaintView> {
    seq![
        PaintView::SelectFont(Font::Name),
        text_at(m.name, SLX0 as int, section_y(idx) + 2, DIMTXT),
    ] + (if m.supported {
        slider_view(m.brightness, idx, w)
    } else {
        seq![text_at("DDC/CI not supported"@, SLX0 as int, section_y(idx) + 28, DIMTXT)]
    })
}

/// The sections of all monitors, from the top down.
pub open spec fn sections_view(monitors: Seq<MonitorView>, w: int) -> Seq<PaintView>
    decreases monitors.len(),
{
    if monitors.len() == 0 {
        Seq::empty()
    } else {
        sections_view(monitors.drop_last(), w) + section_view(
            monitors.last(),
            monitors.len() - 1,
            w,
        )
    }
}

/// All that is painted of a panel whose client area is `client`.
pub open spec fn panel_view(state: StateView, client: RectView) -> Seq<PaintView> {
    (header_view(client) + sections_view(state.monitors, client.right)).push(
        PaintView::RestoreFont,
    )
}

/// Whether the section's positions can be computed in 32 bits.
pub open spec fn section_paintable(m: MonitorView, idx: int, w: int) -> bool {
    let x1 = track_end(w);
    let bri = low_i32(m.brightness as int);
    let tx = thumb_at(bri, SLX0 as int, x1);
    &&& section_defined(idx)
    &&& fits_i32(x1)
    &&& thumb_defined(bri, SLX0 as int, x1)
    &&& m.supported ==> {
        &&& fits_i32(x1 - 56)
        &&& fits_i32(tx - THUMB_R)
        &&& fits_i32(tx + THUMB_R)
        &&& fits_i32(slider_y(idx) + THUMB_R + 4)
    }
}

/// Whether all positions on the panel can be computed in 32 bits.
pub open spec fn paintable(state: StateView, client: RectView) -> bool {
    &&& fits_i32(client.right - 28)
    &&& forall|i: int|
        0 <= i < state.monitors.len() ==> section_paintable(
            #[trigger] state.monitors[i],
            i,
            client.right,
        )
}

fn emit(ops: &mut Vec<PaintOp>, op: PaintOp)
    ensures
        paint_views(final(ops)@) == paint_views(old(ops)@).push(op@),
{
    ops.push(op);
    assert(paint_views(ops@) =~= paint_views(old(ops)@).push(op@));
}

fn emit_track(ops: &mut Vec<PaintOp>, left: i32, right: i32, sy: i32, color: u32)
    requires
        fits_i32(sy - TRK_H / 2),
        fits_i32(sy + TRK_H / 2),
    ensures
        paint_views(final(ops)@) == paint_views(old(ops)@).push(
            track_view(left as int, right as int, sy as int, color),
        ),
{
    emit(
        ops,
        PaintOp::RoundRect {
            rect: Rect { left, top: sy - TRK_H / 2, right, bottom: sy + TRK_H / 2 },
            corner: TRK_H,
            color,
        },
    );
}

fn emit_header(ops: &mut Vec<PaintOp>, client: Rect)
    requires
        fits_i32(client.right - 28),
    ensures
        paint_views(final(ops)@) == paint_views(old(ops)@) + header_view(client@),
{
    let w: i32 = client.right;
    emit(ops, PaintOp::TransparentText);
    emit(ops, PaintOp::Fill { rect: client, color: BG });
    emit(
        ops,
        PaintOp::Fill {
            rect: Rect { left: 0, top: 0, right: w, bottom: TITLE_H },
            color: TITLEBAR,
        },
    );
    emit(ops, PaintOp::SelectFont(Font::Title));
    emit(ops, draw_text("  Monitor Brightness", 10, 17, TEXT));
    emit(ops, draw_text("\u{00D7}", w - 28, 17, DIMTXT));
    assert(paint_views(ops@) =~= paint_views(old(ops)@) + header_view(client@));
}

fn emit_slider(ops: &mut Vec<PaintOp>, m: &MonitorInfo, idx: usize, w: i32)
    requires
        m.supported,
        section_paintable(m@, idx as int, w as int),
    ensures
        paint_views(final(ops)@) == paint_views(old(ops)@) + slider_view(
            m.brightness,
            idx as int,
            w as int,
        ),
{
    let yb: i32 = section_top(idx);
    let sy: i32 = yb + SLIDER_DY;
    let x0: i32 = SLX0;
    let x1: i32 = slx1(w);
    let tx: i32 = thumb_x(m.brightness, x0, x1);
    let pct: String = percent(m.brightness);
    emit(ops, PaintOp::SelectFont(Font::Percent));
    emit(ops, draw_text(pct.as_str(), x1 - 56, yb, ACCENT));
    emit(ops, PaintOp::SelectNullPen);
    emit_track(ops, x0, x1, sy, TRACK);
    if tx > x0 + 2 {
        emit_track(ops, x0, tx, sy, ACCENT);
    }
    emit(
        ops,
        PaintOp::Ellipse {
            rect: Rect {
                left: tx - THUMB_R,
                top: sy - THUMB_R,
                right: tx + THUMB_R,
                bottom: sy + THUMB_R,
            },
            color: WHITE,
        },
    );
    emit(ops, PaintOp::SelectFont(Font::Name));
    emit(ops, draw_text("0", x0, sy + THUMB_R + 4, DIMTXT));
    emit(ops, draw_text("100", x1 - 22, sy + THUMB_R + 4, DIMTXT));
    assert(paint_views(ops@) =~= paint_views(old(ops)@) + slider_view(
        m.brightness,
        idx as int,
        w as int,
    ));
}

fn emit_section(ops: &mut Vec<PaintOp>, m: &MonitorInfo, idx: usize, w: i32)
    requires
        section_paintable(m@, idx as int, w as int),
    ensures
        paint_views(final(ops)@) == paint_views(old(ops)@) + section_view(
            m@,
            idx as int,
            w as int,
        ),
{
    let yb: i32 = section_top(idx);
    emit(ops, PaintOp::SelectFont(Font::Name));
    emit(ops, draw_text(m.name.as_str(), SLX0, yb + 2, DIMTXT));
    if m.supported {
        emit_slider(ops, m, idx, w);
    } else {
        emit(ops, draw_text("DDC/CI not supported", SLX0, yb + 28, DIMTXT));
    }
    assert(paint_views(ops@) =~= paint_views(old(ops)@) + section_view(m@, idx as int, w as int));
}

/// The operations that paint a panel whose client area is `client`.
pub fn on_paint(state: &AppState, client: Rect) -> (ops: Vec<PaintOp>)
    requires
        paintable(state@, client@),
    ensures
        paint_views(ops@) == panel_view(state@, client@),
{
    let mut ops: Vec<PaintOp> = Vec::new();
    let ghost views = monitor_views(state.monitors@);
    let ghost header = header_view(client@);
    assert(paint_views(ops@) =~= Seq::empty());
    emit_header(&mut ops, client);
    assert(paint_views(ops@) =~= header + sections_view(views.take(0), client@.right));
    for i in 0..state.monitors.len()
        invariant
            views == monitor_views(state.monitors@),
            paintable(state@, client@),
            paint_views(ops@) == header + sections_view(views.take(i as int), client@.right),
    {
        assert(views.take(i + 1).drop_last() == views.take(i as int));
        assert(section_paintable(state@.monitors[i as int], i as int, client@.right));
        emit_section(&mut ops, &state.monitors[i], i, client.right);
        assert(paint_views(ops@) =~= header + sections_view(views.take(i + 1), client@.right));
    }
    assert(views.take(views.len() as int) == views);
    emit(&mut ops, PaintOp::RestoreFont);
    ops
}

/// Where among the operations the section of the monitor at `i` begins.
pub open spec fn section_start(state: StateView, client: RectView, i: int) -> int {
    (header_view(client).len() + sections_view(state.monitors.take(i), client.right).len()) as int
}

/// The section of a monitor is painted in one go, after the header and the sections
/// of the monitors before it; after the last one only the font is restored.
pub proof fn law_section_position(state: StateView, client: RectView, i: int)
    requires
        0 <= i < state.monitors.len(),
    ensures
        ({
            let ops = panel_view(state, client);
            let section = section_view(state.monitors[i], i, client.right);
            let start = section_start(state, client, i);
            &&& 6 <= start
            &&& start + section.len() < ops.len()
            &&& ops.subrange(start, start + section.len()) == section
            &&& i + 1 < state.monitors.len() ==> section_start(state, client, i + 1) == start
                + section.len()
            &&& i + 1 == state.monitors.len() ==> ops.len() == start + section.len() + 1
        }),
{
    let ms = state.monitors;
    let w = client.right;
    let ops = panel_view(state, client);
    let section = section_view(ms[i], i, w);
    let start = section_start(state, client, i);
    lemma_sections_prefix(ms, i + 1, w);
    assert(ms.take(i + 1).drop_last() =~= ms.take(i));
    let upto = sections_view(ms.take(i + 1), w);
    assert(upto == sections_view(ms.take(i), w) + section);
    let all = sections_view(ms, w);
    assert forall|k: int| 0 <= k < section.len() implies ops[start + k] == section[k] by {
        let at = start + k - header_view(client).len();
        assert(ops[start + k] == all[at]);
        assert(all.take(upto.len() as int)[at] == upto[at]);
    }
    assert(ops.subrange(start, start + section.len()) =~= section);
    if i + 1 == ms.len() {
        assert(ms.take(i + 1) =~= ms);
    }
}

/// The sections of the first monitors are painted first.
proof fn lemma_sections_prefix(monitors: Seq<MonitorView>, n: int, w: int)
    requires
        0 <= n <= monitors.len(),
    ensures
        sections_view(monitors.take(n), w).len() <= sections_view(monitors, w).len(),
        sections_view(monitors, w).take(sections_view(monitors.take(n), w).len() as int)
            == sections_view(monitors.take(n), w),
    decreases monitors.len(),
{
    let part = sections_view(monitors.take(n), w);
    let all = sections_view(monitors, w);
    if n == monitors.len() {
        assert(monitors.take(n) =~= monitors);
        assert(all.take(all.len() as int) =~= all);
    } else {
        let init = monitors.drop_last();
        lemma_sections_prefix(init, n, w);
        assert(init.take(n) =~= monitors.take(n));
        let most = sections_view(init, w);
        assert(all.take(part.len() as int) =~= most.take(part.len() as int));
    }
}

/// The views hold what the values hold.
pub proof fn law_paint_view(
    rect: Rect,
    units: Vec<u16>,
    x: i32,
    y: i32,
    color: u32,
    font: Font,
    ops: Seq<PaintOp>,
)
    ensures
        rect@.left == rect.left && rect@.top == rect.top && rect@.right == rect.right
            && rect@.bottom == rect.bottom,
        (PaintOp::TransparentText)@ == PaintView::TransparentText,
        (PaintOp::SelectFont(font))@ == PaintView::SelectFont(font),
        (PaintOp::SelectNullPen)@ == PaintView::SelectNullPen,
        (PaintOp::RestoreFont)@ == PaintView::RestoreFont,
        (PaintOp::Fill { rect, color })@ == (PaintView::Fill { rect: rect@, color }),
        (PaintOp::Ellipse { rect, color })@ == (PaintView::Ellipse { rect: rect@, color }),
        (PaintOp::RoundRect { rect, corner: x, color })@ == (PaintView::RoundRect {
            rect: rect@,
            corner: x as int,
            color,
        }),
        (PaintOp::Text { units, x, y, color })@ == (PaintView::Text {
            units: units@,
            x: x as int,
            y: y as int,
            color,
        }),
        paint_views(ops).len() == ops.len(),
        forall|k: int| 0 <= k < ops.len() ==> #[trigger] paint_views(ops)[k] == ops[k]@,
{
}

/// The background fills the client area, the title bar its top 50 px over the whole
/// width; then come the title and the mark of the close button, 28 px from the right.
/// The last operation of all restores the font.
pub proof fn law_header_painted(state: StateView, client: RectView)
    ensures
        ({
            let ops = panel_view(state, client);
            let bar = RectView { left: 0, top: 0, right: client.right, bottom: 50 };
            &&& ops.len() >= 7
            &&& ops[0] == PaintView::TransparentText
            &&& ops[1] == (PaintView::Fill { rect: client, color: 0x1e0f0f })
            &&& ops[2] == (PaintView::Fill { rect: bar, color: 0x3e1a1a })
            &&& ops[3] == PaintView::SelectFont(Font::Title)
            &&& ops[4] == (PaintView::Text {
                units: utf16("  Monitor Brightness"@),
                x: 10,
                y: 17,
                color: 0xf8f0f0,
            })
            &&& ops[5] == (PaintView::Text {
                units: utf16("\u{00D7}"@),
                x: client.right - 28,
                y: 17,
                color: 0xb8a394,
            })
            &&& ops.last() == PaintView::RestoreFont
            &&& section_start(state, client, 0) == 6
            &&& section_start(state, client, state.monitors.len() as int) == ops.len() - 1
        }),
{
    assert(state.monitors.take(state.monitors.len() as int) =~= state.monitors);
    assert(state.monitors.take(0) =~= Seq::empty());
    assert(sections_view(state.monitors.take(0), client.right).len() == 0);
}

/// Each section begins with the monitor's name, 72 px from the top for the first
/// and 110 px further down for each next. That of a monitor that cannot be
/// controlled goes on with a note to that effect and has no other operation.
pub proof fn law_name_painted(state: StateView, client: RectView, i: int)
    requires
        0 <= i < state.monitors.len(),
        i <= i32::MAX,
    ensures
        ({
            let ops = panel_view(state, client);
            let at = section_start(state, client, i);
            let m = state.monitors[i];
            let name = PaintView::Text {
                units: utf16(m.name),
                x: 30,
                y: 72 + 110 * i,
                color: 0xb8a394,
            };
            let note = PaintView::Text {
                units: utf16("DDC/CI not supported"@),
                x: 30,
                y: 98 + 110 * i,
                color: 0xb8a394,
            };
            &&& 6 <= at && at + 3 < ops.len()
            &&& ops[at] == PaintView::SelectFont(Font::Name)
            &&& ops[at + 1] == name
            &&& !m.supported ==> {
                &&& ops[at + 2] == note
                &&& section_start(state, client, i + 1) == at + 3
            }
        }),
{
    lemma_section_at(state, client, i);
}

/// The section's operations, and where the next one begins.
proof fn lemma_section_at(state: StateView, client: RectView, i: int)
    requires
        0 <= i < state.monitors.len(),
    ensures
        ({
            let ops = panel_view(state, client);
            let at = section_start(state, client, i);
            let section = section_view(state.monitors[i], i, client.right);
            &&& 6 <= at
            &&& at + section.len() < ops.len()
            &&& forall|k: int| 0 <= k < section.len() ==> #[trigger] ops[at + k] == section[k]
            &&& forall|k: int| at <= k < at + section.len() ==> #[trigger] ops[k] == section[k - at]
            &&& section_start(state, client, i + 1) == at + section.len()
        }),
{
    law_section_position(state, client, i);
    let ops = panel_view(state, client);
    let at = section_start(state, client, i);
    let section = section_view(state.monitors[i], i, client.right);
    assert forall|k: int| at <= k < at + section.len() implies #[trigger] ops[k] == section[k
        - at] by {
        assert(ops.subrange(at, at + section.len())[k - at] == ops[k]);
    }
    assert forall|k: int| 0 <= k < section.len() implies #[trigger] ops[at + k] == section[k] by {
        assert(ops.subrange(at, at + section.len())[k] == ops[at + k]);
    }
    assert(state.monitors.take(i + 1).drop_last() =~= state.monitors.take(i));
}

/// The section of a controllable monitor shows its slider, centred 130 px from the
/// top for the first monitor and 110 px further down for each next. The track runs
/// from 30 px on to 30 px before the right edge, 8 px high; the thumb is a disc of
/// 20 px that divides it as the brightness divides a hundred; the part left of the
/// thumb is filled where it is more than 2 px long. The percentage stands above the
/// right end, the ends of the scale below either end, and nothing else is drawn.
pub proof fn law_slider_painted(state: StateView, client: RectView, i: int)
    requires
        0 <= i < state.monitors.len(),
        i <= i32::MAX,
        state.monitors[i].supported,
        state.monitors[i].brightness <= i32::MAX,
    ensures
        ({
            let ops = panel_view(state, client);
            let at = section_start(state, client, i);
            let end = section_start(state, client, i + 1);
            let w = client.right;
            let bri = state.monitors[i].brightness;
            let track = RectView { left: 30, top: 126 + 110 * i, right: w - 30, bottom: 134 + 110
                * i };
            let thumb = ops[end - 4]->Ellipse_rect;
            let tx = thumb.left + 10;
            &&& end < ops.len()
            &&& end - at == if tx > 32 {
                11int
            } else {
                10int
            }
            &&& ops[at + 2] == PaintView::SelectFont(Font::Percent)
            &&& ops[at + 3] == (PaintView::Text {
                units: utf16(decimal(bri as nat) + "%"@),
                x: w - 86,
                y: 70 + 110 * i,
                color: 0xf16363,
            })
            &&& ops[at + 4] == PaintView::SelectNullPen
            &&& ops[at + 5] == (PaintView::RoundRect { rect: track, corner: 8, color: 0x4e2d2d })
            &&& tx > 32 ==> ops[at + 6] == (PaintView::RoundRect {
                rect: RectView { right: tx, ..track },
                corner: 8,
                color: 0xf16363,
            })
            &&& ops[end - 4] == (PaintView::Ellipse { rect: thumb, color: 0xffffff })
            &&& thumb.right - thumb.left == 20
            &&& thumb.top == 120 + 110 * i
            &&& thumb.bottom == 140 + 110 * i
            &&& w >= 60 ==> 100 * (tx - 30) <= bri * (w - 60) < 100 * (tx - 30) + 100
            &&& w <= 60 ==> 100 * (tx - 30) - 100 < bri * (w - 60) <= 100 * (tx - 30)
            &&& ops[end - 3] == PaintView::SelectFont(Font::Name)
            &&& ops[end - 2] == (PaintView::Text {
                units: utf16("0"@),
                x: 30,
                y: 144 + 110 * i,
                color: 0xb8a394,
            })
            &&& ops[end - 1] == (PaintView::Text {
                units: utf16("100"@),
                x: w - 52,
                y: 144 + 110 * i,
                color: 0xb8a394,
            })
        }),
{
    lemma_section_at(state, client, i);
    let w = client.right;
    let m = state.monitors[i];
    let bri = m.brightness as int;
    law_thumb_divides_track(bri, 30, w - 30);
    assert(bri * ((w - 30) - 30) == bri * (w - 60));
    assert((w >= 60 ==> bri * (w - 60) >= 0) && (w <= 60 ==> bri * (w - 60) <= 0))
        by (nonlinear_arith)
        requires
            bri >= 0,
    ;
}

/// Whether a point is on a track or a thumb that an operation draws.
pub open spec fn on_shape(op: PaintView, x: int, y: int) -> bool {
    match op {
        PaintView::RoundRect { rect, .. } => rect.left <= x <= rect.right && rect.top <= y
            <= rect.bottom,
        PaintView::Ellipse { rect, .. } => rect.left <= x <= rect.right && rect.top <= y
            <= rect.bottom,
        _ => false,
    }
}

/// Every track and every thumb is centred on the slider of the monitor in whose
/// section it is drawn, and stays within the reach of that slider.
pub proof fn law_shapes_in_own_section(state: StateView, client: RectView, i: int, k: int)
    requires
        state.wf(),
        client.right >= 60,
        0 <= i < state.monitors.len(),
        section_start(state, client, i) <= k < section_start(state, client, i + 1),
    ensures
        ({
            let op = panel_view(state, client)[k];
            &&& op matches PaintView::RoundRect { rect, .. } ==> rect.top + rect.bottom == 2 * (130
                + 110 * i)
            &&& op matches PaintView::Ellipse { rect, .. } ==> rect.top + rect.bottom == 2 * (130
                + 110 * i)
            &&& op is RoundRect || op is Ellipse ==> state.monitors[i].supported
            &&& forall|x: int, y: int| #[trigger]
                on_shape(op, x, y) ==> 20 <= x <= client.right - 20 && 110 + 110 * i <= y <= 150
                    + 110 * i
        }),
{
    let w = client.right;
    let m = state.monitors[i];
    let at = section_start(state, client, i);
    let op = panel_view(state, client)[k];
    let section = section_view(m, i, w);
    lemma_section_at(state, client, i);
    assert(op == section[k - at]);
    assert(m.wf());
    if m.supported {
        law_slider_painted(state, client, i);
        let bri = m.brightness as int;
        let tx = thumb_at(bri, 30, w - 30);
        law_thumb_on_track(bri, 30, w - 30);
        assert(30 <= tx <= w - 30);
    }
}

} // verus!
