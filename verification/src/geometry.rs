//! Layout of the panel: where sliders, buttons and the window itself are, and
//! what a point on the panel hits.
use crate::arith::{
    clamp_int, fits_i32, low_i32, max_int, trunc_div, wrap_u32, wrap_usize,
};
use vstd::prelude::*;

verus! {

// Layout constants (px).
pub const WIN_W: i32 = 420;

pub const TITLE_H: i32 = 50;

pub const SECT_H: i32 = 110;

pub const PAD: i32 = 20;

pub const SLX0: i32 = PAD + 10;

pub const THUMB_R: i32 = 10;

pub const TRK_H: i32 = 8;

/// Width of the close button, at the right end of the title bar.
pub const CLOSE_W: i32 = 50;

/// Distance from the top of a monitor's section to its slider.
pub const SLIDER_DY: i32 = 60;

/// A rectangle in pixels, `right` and `bottom` exclusive.
#[derive(Clone, Copy, Debug, PartialEq, Eq, Structural)]
pub struct Rect {
    pub left: i32,
    pub top: i32,
    pub right: i32,
    pub bottom: i32,
}

/// The right end of a slider, in a window `w` pixels wide.
pub open spec fn track_end(w: int) -> int {
    w - PAD - 10
}

/// The right end of a slider, in a window `w` pixels wide.
pub fn slx1(w: i32) -> (x: i32)
    requires
        fits_i32(track_end(w as int)),
    ensures
        x == track_end(w as int),
        x == w - 30,
{
    w - PAD - 10
}

/// Where the thumb of a slider from `x0` to `x1` stands at brightness `bri`.
pub open spec fn thumb_at(bri: int, x0: int, x1: int) -> int {
    x0 + trunc_div(bri * (x1 - x0), 100)
}

/// Whether the thumb position can be computed in 32 bits.
pub open spec fn thumb_defined(bri: int, x0: int, x1: int) -> bool {
    &&& fits_i32(x1 - x0)
    &&& fits_i32(bri * (x1 - x0))
    &&& fits_i32(thumb_at(bri, x0, x1))
}

/// The horizontal position of a slider's thumb.
pub fn thumb_x(bri: u32, x0: i32, x1: i32) -> (x: i32)
    requires
        thumb_defined(low_i32(bri as int), x0 as int, x1 as int),
    ensures
        x == thumb_at(low_i32(bri as int), x0 as int, x1 as int),
{
    x0 + (wrap_u32(bri) * (x1 - x0)) / 100
}

/// The brightness a pointer at `cx` selects on a slider from `x0` to `x1`: its
/// position along the track in percent, never below 1; 1 on a track with no length.
pub open spec fn bri_at(cx: int, x0: int, x1: int) -> int {
    if x1 <= x0 {
        1
    } else {
        max_int(1, clamp_int(cx - x0, 0, x1 - x0) * 100 / (x1 - x0))
    }
}

/// Whether the brightness under the pointer can be computed in 32 bits.
pub open spec fn bri_defined(cx: int, x0: int, x1: int) -> bool {
    &&& fits_i32(cx - x0)
    &&& fits_i32(x1 - x0)
    &&& fits_i32(clamp_int(cx - x0, 0, x1 - x0) * 100)
}

/// The brightness that a pointer at `cx` selects.
pub fn bri_from_x(cx: i32, x0: i32, x1: i32) -> (bri: u32)
    requires
        bri_defined(cx as int, x0 as int, x1 as int),
    ensures
        bri == bri_at(cx as int, x0 as int, x1 as int),
        1 <= bri <= 100,
{
    let len: i32 = x1 - x0;
    let off: i32 = cx - x0;
    let off: i32 = if off < 0 { 0 } else { off };
    let off: i32 = if off > len { len } else { off };
    let div: i32 = if len < 1 { 1 } else { len };
    let bri: i32 = off * 100 / div;
    proof {
        law_bri_in_percent(cx as int, x0 as int, x1 as int);
    }
    (if bri < 1 { 1 } else { bri }) as u32
}

/// The selected brightness is a percentage, and never 0.
pub proof fn law_bri_in_percent(cx: int, x0: int, x1: int)
    ensures
        1 <= bri_at(cx, x0, x1) <= 100,
{
    if x0 < x1 {
        let w = x1 - x0;
        let d = clamp_int(cx - x0, 0, w);
        assert(d * 100 / w <= 100) by (nonlinear_arith)
            requires
                0 <= d <= w,
                w > 0,
        ;
    }
}

/// Whether the point is on the close button of a window `win_w` pixels wide.
pub open spec fn in_close_btn(cx: int, cy: int, win_w: int) -> bool {
    cy < TITLE_H && cx > win_w - CLOSE_W
}

/// Whether a press at the point is on the close button.
pub fn close_btn_hit(cx: i32, cy: i32, win_w: i32) -> (hit: bool)
    requires
        cy < TITLE_H ==> fits_i32(win_w - CLOSE_W),
    ensures
        hit == in_close_btn(cx as int, cy as int, win_w as int),
        hit <==> cy < 50 && win_w - cx < 50,
{
    cy < TITLE_H && cx > win_w - CLOSE_W
}

/// The top of the section of the monitor at `idx`, below its padding.
pub open spec fn section_y(idx: int) -> int {
    TITLE_H + low_i32(idx) * SECT_H + PAD
}

/// Whether the section's position, and that of the slider in it, can be
/// computed in 32 bits.
pub open spec fn section_defined(idx: int) -> bool {
    &&& fits_i32(low_i32(idx) * SECT_H)
    &&& fits_i32(section_y(idx) + SLIDER_DY)
}

/// The height at which the slider of the monitor at `idx` is centred.
pub open spec fn slider_y(idx: int) -> int {
    section_y(idx) + SLIDER_DY
}

/// Whether a column is within reach of a slider: on the track, or no further
/// than a thumb's radius beyond either end.
pub open spec fn in_slider_columns(cx: int, win_w: int) -> bool {
    SLX0 - THUMB_R <= cx <= track_end(win_w) + THUMB_R
}

/// Whether the point grabs the slider of the monitor at `idx`.
pub open spec fn on_slider(cx: int, cy: int, idx: int, win_w: int) -> bool {
    &&& in_slider_columns(cx, win_w)
    &&& -2 * THUMB_R <= cy - slider_y(idx) <= 2 * THUMB_R
}

/// Whether the hit test can be carried out in 32 bits.
pub open spec fn slider_hit_defined(cx: int, cy: int, idx: int, win_w: int) -> bool {
    &&& section_defined(idx)
    &&& cx >= SLX0 - THUMB_R ==> fits_i32(track_end(win_w))
    &&& in_slider_columns(cx, win_w) ==> i32::MIN < cy - slider_y(idx) <= i32::MAX
}

/// The top of a monitor's section, below its padding.
pub fn section_top(idx: usize) -> (y: i32)
    requires
        section_defined(idx as int),
    ensures
        y == section_y(idx as int),
{
    TITLE_H + wrap_usize(idx) * SECT_H + PAD
}

/// Whether a press at the point grabs the slider of the monitor at `idx`.
pub fn slider_hit(cx: i32, cy: i32, idx: usize, win_w: i32) -> (hit: bool)
    requires
        slider_hit_defined(cx as int, cy as int, idx as int, win_w as int),
    ensures
        hit == on_slider(cx as int, cy as int, idx as int, win_w as int),
        idx <= i32::MAX ==> (hit <==> 20 <= cx <= win_w - 20 && 110 + 110 * idx <= cy <= 150 + 110
            * idx),
{
    let sy: i32 = section_top(idx) + SLIDER_DY;
    if cx >= SLX0 - THUMB_R && cx <= slx1(win_w) + THUMB_R {
        let dy: i32 = cy - sy;
        let dist: i32 = if dy < 0 { -dy } else { dy };
        dist <= THUMB_R * 2
    } else {
        false
    }
}

/// Whether a screen point is on the part of the title bar by which the window
/// is dragged: the whole bar but for the close button.
pub open spec fn in_caption(sx: int, sy: int, window: Rect) -> bool {
    &&& 0 <= sy - window.top < TITLE_H
    &&& sx - window.left < (window.right - window.left) - CLOSE_W
}

/// Whether the caption test can be carried out in 32 bits.
pub open spec fn caption_defined(sx: int, sy: int, window: Rect) -> bool {
    &&& fits_i32(sx - window.left)
    &&& fits_i32(sy - window.top)
    &&& 0 <= sy - window.top < TITLE_H ==> {
        &&& fits_i32(window.right - window.left)
        &&& fits_i32((window.right - window.left) - CLOSE_W)
    }
}

/// Whether a screen point is on the caption of a window at `window`.
pub fn caption_hit(sx: i32, sy: i32, window: Rect) -> (hit: bool)
    requires
        caption_defined(sx as int, sy as int, window),
    ensures
        hit == in_caption(sx as int, sy as int, window),
        hit <==> window.top <= sy < window.top + 50 && sx < window.right - 50,
{
    let lx: i32 = sx - window.left;
    let ly: i32 = sy - window.top;
    ly >= 0 && ly < TITLE_H && lx < (window.right - window.left) - CLOSE_W
}

/// The height of a window with `count` monitors: title bar, one section per
/// monitor and at least one, and padding.
pub open spec fn height_for(count: int) -> int {
    TITLE_H + low_i32(max_int(count, 1)) * SECT_H + PAD
}

/// Whether the window height can be computed in 32 bits.
pub open spec fn height_defined(count: int) -> bool {
    &&& fits_i32(low_i32(max_int(count, 1)) * SECT_H)
    &&& fits_i32(height_for(count))
}

/// The height of a window with `count` monitors.
pub fn window_height(count: usize) -> (h: i32)
    requires
        height_defined(count as int),
    ensures
        h == height_for(count as int),
        1 <= count <= i32::MAX ==> h == 70 + 110 * count,
        count == 0 ==> h == 180,
{
    let sections: usize = if count < 1 { 1 } else { count };
    TITLE_H + wrap_usize(sections) * SECT_H + PAD
}

/// Whether a panel with `count` monitors can be laid out in 32 bits.
pub open spec fn layout_fits(count: int) -> bool {
    TITLE_H + count * SECT_H + PAD <= i32::MAX
}

/// Whether a panel with `count` monitors can be laid out.
pub fn panel_fits(count: usize) -> (fits: bool)
    ensures
        fits == layout_fits(count as int),
        fits <==> 110 * count + 70 <= 0x7fff_ffff,
{
    let most: i32 = (i32::MAX - TITLE_H - PAD) / SECT_H;
    count <= most as usize
}

/// Where the window is created: centred on the screen.
#[derive(Clone, Copy, Debug, PartialEq, Eq, Structural)]
pub struct Placement {
    pub x: i32,
    pub y: i32,
    pub width: i32,
    pub height: i32,
}

/// Where a window with `count` monitors is created on a screen of the given size.
pub fn initial_placement(screen_w: i32, screen_h: i32, count: usize) -> (p: Placement)
    requires
        height_defined(count as int),
        fits_i32(screen_w - WIN_W),
        fits_i32(screen_h - height_for(count as int)),
    ensures
        p.width == WIN_W,
        p.height == height_for(count as int),
        p.x == trunc_div(screen_w - WIN_W, 2),
        p.y == trunc_div(screen_h - height_for(count as int), 2),
        p.width == 420,
        -1 <= p.x - (screen_w - (p.x + p.width)) <= 1,
        -1 <= p.y - (screen_h - (p.y + p.height)) <= 1,
{
    let height: i32 = window_height(count);
    Placement { x: (screen_w - WIN_W) / 2, y: (screen_h - height) / 2, width: WIN_W, height }
}

/// With brightness in percent, the thumb stays on its track, at the left end
/// at 0 and at the right end at 100.
pub proof fn law_thumb_on_track(bri: int, x0: int, x1: int)
    requires
        0 <= bri <= 100,
        x0 <= x1,
    ensures
        x0 <= thumb_at(bri, x0, x1) <= x1,
        thumb_at(0, x0, x1) == x0,
        thumb_at(100, x0, x1) == x1,
{
    let w = x1 - x0;
    assert(0 <= bri * w <= 100 * w) by (nonlinear_arith)
        requires
            0 <= bri <= 100,
            0 <= w,
    ;
    assert(0 * w == 0);
}

/// More brightness never moves the thumb to the left.
pub proof fn law_thumb_monotone(a: int, b: int, x0: int, x1: int)
    requires
        0 <= a <= b,
        x0 <= x1,
    ensures
        thumb_at(a, x0, x1) <= thumb_at(b, x0, x1),
{
    let w = x1 - x0;
    assert(0 <= a * w <= b * w) by (nonlinear_arith)
        requires
            0 <= a <= b,
            0 <= w,
    ;
}

/// Moving the pointer to the right never selects less brightness.
pub proof fn law_bri_monotone(a: int, b: int, x0: int, x1: int)
    requires
        a <= b,
    ensures
        bri_at(a, x0, x1) <= bri_at(b, x0, x1),
{
    if x0 < x1 {
        let w = x1 - x0;
        let da = clamp_int(a - x0, 0, w);
        let db = clamp_int(b - x0, 0, w);
        vstd::arithmetic::div_mod::lemma_div_is_ordered(da * 100, db * 100, w);
    }
}

/// Left of the track the least brightness is selected, right of it the most.
pub proof fn law_bri_at_ends(cx: int, x0: int, x1: int)
    ensures
        cx <= x0 ==> bri_at(cx, x0, x1) == 1,
        x0 < x1 <= cx ==> bri_at(cx, x0, x1) == 100,
{
    if x0 < x1 {
        let w = x1 - x0;
        vstd::arithmetic::div_mod::lemma_div_multiples_vanish(100, w);
        vstd::arithmetic::div_mod::lemma_div_basics(w);
        assert(w * 100 / w == 100) by {
            assert(w * 100 == 100 * w);
        }
    }
}

/// Pressing exactly where the thumb stands keeps the brightness, or takes one
/// step down where the thumb's position had to be rounded; never below 1.
pub proof fn law_bri_of_thumb(bri: int, x0: int, x1: int)
    requires
        1 <= bri <= 100,
        x1 - x0 >= 100,
    ensures
        bri_at(thumb_at(bri, x0, x1), x0, x1) == if (bri * (x1 - x0)) % 100 == 0 {
            bri
        } else {
            max_int(1, bri - 1)
        },
{
    let w = x1 - x0;
    let p = bri * w;
    let t = p / 100;
    law_thumb_on_track(bri, x0, x1);
    assert(p >= 0) by (nonlinear_arith)
        requires
            p == bri * w,
            bri >= 1,
            w >= 100,
    ;
    assert(thumb_at(bri, x0, x1) == x0 + t);
    let c = t * 100;
    assert(c == p - p % 100);
    if p % 100 == 0 {
        assert(c / w == bri) by (nonlinear_arith)
            requires
                c == bri * w,
                w >= 100,
        ;
    } else {
        assert(c / w == bri - 1) by (nonlinear_arith)
            requires
                bri * w - 100 < c < bri * w,
                w >= 100,
        ;
    }
}

/// Every brightness can be selected somewhere on a track of at least 100 pixels.
pub proof fn law_every_brightness_selectable(bri: int, x0: int, x1: int)
    requires
        1 <= bri <= 100,
        x1 - x0 >= 100,
    ensures
        exists|cx: int| x0 <= cx <= x1 && #[trigger] bri_at(cx, x0, x1) == bri,
{
    let w = x1 - x0;
    let p = bri * w;
    assert(100 <= p <= 100 * w) by (nonlinear_arith)
        requires
            p == bri * w,
            1 <= bri <= 100,
            w >= 100,
    ;
    let d = (p + 99) / 100;
    let c = d * 100;
    assert(c / w == bri) by (nonlinear_arith)
        requires
            bri * w <= c < bri * w + 100,
            w >= 100,
    ;
    assert(bri_at(x0 + d, x0, x1) == bri);
}

/// The thumb follows the pointer along the track, to within less than one percent
/// of the track's length and a pixel; from the first percent on it is never to the
/// right of the pointer.
pub proof fn law_thumb_follows_pointer(cx: int, x0: int, x1: int)
    requires
        x0 <= cx <= x1,
        x0 < x1,
    ensures
        ({
            let off = thumb_at(bri_at(cx, x0, x1), x0, x1) - cx;
            &&& -((x1 - x0) + 100) < 100 * off < (x1 - x0) + 100
            &&& (cx - x0) * 100 >= x1 - x0 ==> off <= 0
        }),
{
    let w = x1 - x0;
    let d = cx - x0;
    let q = d * 100 / w;
    let b = bri_at(cx, x0, x1);
    law_bri_in_percent(cx, x0, x1);
    vstd::arithmetic::div_mod::lemma_fundamental_div_mod(d * 100, w);
    vstd::arithmetic::div_mod::lemma_mod_bound(d * 100, w);
    assert(w * q == q * w) by (nonlinear_arith);
    assert(b * w >= 0) by (nonlinear_arith)
        requires
            b >= 1,
            w >= 1,
    ;
    let r = (d * 100) % w;
    assert(d * 100 == q * w + r);
    assert(q >= 0) by (nonlinear_arith)
        requires
            d * 100 == q * w + r,
            0 <= r < w,
            d >= 0,
    ;
    if q == 0 {
        assert(b * w == w) by (nonlinear_arith)
            requires
                b == 1,
        ;
        assert(q * w == 0) by (nonlinear_arith)
            requires
                q == 0,
        ;
    } else {
        assert(b == q);
    }
}

/// The sliders do not overlap: no point grabs two of them.
pub proof fn law_sliders_disjoint(cx: int, cy: int, i: int, j: int, win_w: int)
    requires
        0 <= i <= i32::MAX,
        0 <= j <= i32::MAX,
        on_slider(cx, cy, i, win_w),
        on_slider(cx, cy, j, win_w),
    ensures
        i == j,
{
}

/// The sliders are clear of the title bar, and so of the close button.
pub proof fn law_sliders_below_title(cx: int, cy: int, idx: int, win_w: int)
    requires
        0 <= idx <= i32::MAX,
        on_slider(cx, cy, idx, win_w),
    ensures
        cy >= TITLE_H,
        !in_close_btn(cx, cy, win_w),
{
}

/// The caption and the close button do not overlap, and together cover the
/// title bar but for the single column between them.
pub proof fn law_title_bar(sx: int, sy: int, window: Rect)
    requires
        0 <= sy - window.top < TITLE_H,
    ensures
        ({
            let cx = sx - window.left;
            let cy = sy - window.top;
            let win_w = window.right - window.left;
            &&& !(in_caption(sx, sy, window) && in_close_btn(cx, cy, win_w))
            &&& in_caption(sx, sy, window) || in_close_btn(cx, cy, win_w) || cx == win_w
                - CLOSE_W
        }),
{
}

/// In a panel that can be laid out, every position that depends on a monitor's
/// index can be computed, and every section lies between the title bar and the
/// bottom of the window, below the one before it.
pub proof fn law_sections_in_window(count: int, idx: int)
    requires
        layout_fits(count),
        0 <= idx < count,
    ensures
        height_defined(count),
        section_defined(idx),
        TITLE_H <= section_y(idx) - PAD,
        section_y(idx) - PAD + SECT_H <= height_for(count) - PAD,
        idx + 1 < count ==> section_y(idx) + SECT_H == section_y(idx + 1),
{
}

/// The thumb divides its track as the brightness divides a hundred, up to less than
/// a pixel, which is cut towards the track's left end at `x0`.
pub proof fn law_thumb_divides_track(bri: int, x0: int, x1: int)
    ensures
        ({
            let along = thumb_at(bri, x0, x1) - x0;
            let share = bri * (x1 - x0);
            &&& share >= 0 ==> 100 * along <= share < 100 * along + 100
            &&& share <= 0 ==> 100 * along - 100 < share <= 100 * along
        }),
{
}

/// The brightness selected on a track is the pointer's share of it in percent, cut
/// to a whole number, but never below 1; beyond either end it is that of the end.
pub proof fn law_bri_is_share_of_track(cx: int, x0: int, x1: int)
    ensures
        ({
            let bri = bri_at(cx, x0, x1);
            let len = x1 - x0;
            let along = cx - x0;
            &&& len <= 0 ==> bri == 1
            &&& len > 0 && along * 100 < len ==> bri == 1
            &&& len > 0 && along >= len ==> bri == 100
            &&& len > 0 && along * 100 >= len && along <= len ==> bri * len <= along * 100 < (bri
                + 1) * len
        }),
{
    law_bri_at_ends(cx, x0, x1);
    let len = x1 - x0;
    let along = cx - x0;
    if len > 0 && 0 <= along <= len {
        let d = along * 100;
        let q = d / len;
        assert(clamp_int(along, 0, len) == along);
        vstd::arithmetic::div_mod::lemma_fundamental_div_mod(d, len);
        vstd::arithmetic::div_mod::lemma_mod_bound(d, len);
        assert(len * q == q * len && (q + 1) * len == q * len + len) by (nonlinear_arith);
        if d < len {
            assert(q < 1) by (nonlinear_arith)
                requires
                    q * len <= d,
                    d < len,
                    len > 0,
            ;
        } else {
            assert(q >= 1) by (nonlinear_arith)
                requires
                    d < (q + 1) * len,
                    d >= len,
                    len > 0,
            ;
        }
    }
}

/// A slider is grabbed exactly within its reach: from 10 px before its track to
/// 10 px after it, and up to 20 px above and below its centre, which lies 130 px
/// below the window's top for the first monitor and 110 px further for each next.
/// An index beyond 32 bits is cut to them.
pub proof fn law_slider_reach(cx: int, cy: int, idx: int, win_w: int)
    ensures
        0 <= idx <= i32::MAX ==> (on_slider(cx, cy, idx, win_w) <==> {
            &&& 20 <= cx <= win_w - 20
            &&& 110 + 110 * idx <= cy <= 150 + 110 * idx
        }),
        on_slider(cx, cy, idx, win_w) <==> {
            &&& 20 <= cx <= win_w - 20
            &&& 110 + 110 * low_i32(idx) <= cy <= 150 + 110 * low_i32(idx)
        },
        slider_y(idx) == 130 + 110 * low_i32(idx),
        section_y(idx) == 70 + 110 * low_i32(idx),
        track_end(win_w) == win_w - 30,
{
}

/// The close button takes the rightmost 50 px of the top 50.
pub proof fn law_close_button_corner(cx: int, cy: int, win_w: int)
    ensures
        in_close_btn(cx, cy, win_w) <==> cy < 50 && win_w - cx < 50,
{
}

/// The caption is the top 50 px of the window but for the rightmost 50, wherever
/// on the screen the window is.
pub proof fn law_caption_moves_with_window(sx: int, sy: int, a: Rect, b: Rect, dx: int, dy: int)
    requires
        b.left == a.left + dx,
        b.right == a.right + dx,
        b.top == a.top + dy,
    ensures
        in_caption(sx, sy, a) <==> a.top <= sy < a.top + 50 && a.right - sx > 50,
        in_caption(sx + dx, sy + dy, b) == in_caption(sx, sy, a),
{
}

/// The window is 70 px higher than its sections, which are 110 px each; with no
/// monitors it is as high as with one. A count beyond 32 bits is cut to them.
pub proof fn law_height_per_monitor(count: int)
    requires
        0 <= count,
    ensures
        1 <= count <= i32::MAX ==> height_for(count) == 70 + 110 * count,
        count >= 1 ==> height_for(count) == 70 + 110 * low_i32(count),
        height_for(0) == height_for(1),
        layout_fits(count) <==> 70 + 110 * count <= 0x7fff_ffff,
{
}

/// The geometry is computed for all positions whose intermediate results are signed
/// numbers of 32 bits, and for no others.
pub proof fn law_defined_in_32_bits(a: int, b: int, c: int, d: int, window: Rect)
    ensures
        thumb_defined(a, b, c) <==> {
            &&& -0x8000_0000 <= c - b < 0x8000_0000
            &&& -0x8000_0000 <= a * (c - b) < 0x8000_0000
            &&& -0x8000_0000 <= thumb_at(a, b, c) < 0x8000_0000
        },
        bri_defined(a, b, c) <==> {
            &&& -0x8000_0000 <= a - b < 0x8000_0000
            &&& -0x8000_0000 <= c - b < 0x8000_0000
            &&& c < b ==> -0x8000_0000 <= 100 * (c - b)
            &&& a > b && c > b ==> 100 * (a - b) < 0x8000_0000 || 100 * (c - b) < 0x8000_0000
        },
        section_defined(c) <==> {
            &&& -0x8000_0000 <= 110 * low_i32(c)
            &&& 130 + 110 * low_i32(c) < 0x8000_0000
        },
        slider_hit_defined(a, b, c, d) <==> {
            &&& section_defined(c)
            &&& a >= 20 ==> -0x8000_0000 <= d - 30 < 0x8000_0000
            &&& 20 <= a <= d - 20 ==> -0x8000_0000 < b - (130 + 110 * low_i32(c)) < 0x8000_0000
        },
        caption_defined(a, b, window) <==> {
            &&& -0x8000_0000 <= a - window.left < 0x8000_0000
            &&& -0x8000_0000 <= b - window.top < 0x8000_0000
            &&& window.top <= b < window.top + 50 ==> -0x8000_0000 + 50 <= window.right
                - window.left < 0x8000_0000
        },
        c >= 1 ==> (height_defined(c) <==> -0x8000_0000 <= 110 * low_i32(c) && 70 + 110 * low_i32(
            c,
        ) < 0x8000_0000),
{
}

} // verus!
