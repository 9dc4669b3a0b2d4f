//! Tests of whether an event can be answered, for callers whose positions come
//! from outside: whether every position involved can be computed in 32 bits.
use crate::arith::{fits_i32, lparam_x, lparam_y, wrap_u32, wrap_usize};
use crate::geometry::{
    caption_defined, close_btn_hit, in_close_btn, section_defined, slider_hit, slider_hit_defined,
    slider_y, Rect, CLOSE_W, PAD, SECT_H, SLIDER_DY, SLX0, THUMB_R, TITLE_H,
};
use crate::monitor::{AppState, MonitorInfo};
use crate::paint::{paintable, section_paintable};
use crate::window::{
    drag_defined, press_defined, step_defined, window_view, Event, Window, HTCLIENT,
};
use vstd::prelude::*;

verus! {

fn fits(n: i64) -> (b: bool)
    ensures
        b == fits_i32(n as int),
{
    i32::MIN as i64 <= n && n <= i32::MAX as i64
}

/// The height at which a slider is centred, if it can be computed.
fn checked_slider_y(idx: usize) -> (sy: Option<i64>)
    ensures
        sy is Some <==> section_defined(idx as int),
        sy matches Some(y) ==> y == slider_y(idx as int),
{
    let sect_h: i64 = SECT_H as i64;
    let dy: i64 = wrap_usize(idx) as i64 * sect_h;
    let sy: i64 = dy + (TITLE_H + PAD + SLIDER_DY) as i64;
    if fits(dy) && fits(sy) {
        Some(sy)
    } else {
        None
    }
}

/// Whether the hit test of a slider can be carried out.
pub fn slider_hit_fits(cx: i32, cy: i32, idx: usize, win_w: i32) -> (b: bool)
    ensures
        b == slider_hit_defined(cx as int, cy as int, idx as int, win_w as int),
{
    match checked_slider_y(idx) {
        None => false,
        Some(sy) => {
            let end: i64 = win_w as i64 - (PAD + 10) as i64;
            let dy: i64 = cy as i64 - sy;
            if cx < SLX0 - THUMB_R {
                true
            } else if !fits(end) {
                false
            } else {
                cx as i64 > end + THUMB_R as i64 || (fits(dy) && dy > i32::MIN as i64)
            }
        },
    }
}

/// Whether the brightness under the pointer can be computed.
pub fn drag_fits(cx: i32, w: i32) -> (b: bool)
    ensures
        b == drag_defined(cx as int, w as int),
{
    let end: i64 = w as i64 - (PAD + 10) as i64;
    let len: i64 = end - SLX0 as i64;
    let off: i64 = cx as i64 - SLX0 as i64;
    let clamped: i64 = if off < 0 { 0 } else { off };
    let clamped: i64 = if clamped > len { len } else { clamped };
    fits(end) && fits(off) && fits(len) && fits(clamped * 100)
}

/// Whether the caption test can be carried out.
pub fn caption_fits(sx: i32, sy: i32, window: Rect) -> (b: bool)
    ensures
        b == caption_defined(sx as int, sy as int, window),
{
    let lx: i64 = sx as i64 - window.left as i64;
    let ly: i64 = sy as i64 - window.top as i64;
    let width: i64 = window.right as i64 - window.left as i64;
    fits(lx) && fits(ly) && (ly < 0 || ly >= TITLE_H as i64 || (fits(width) && fits(width - CLOSE_W as i64)))
}

/// Whether a monitor's section can be painted in a window `w` pixels wide.
pub fn section_fits(m: &MonitorInfo, idx: usize, w: i32) -> (b: bool)
    ensures
        b == section_paintable(m@, idx as int, w as int),
{
    match checked_slider_y(idx) {
        None => false,
        Some(sy) => {
            let end: i64 = w as i64 - (PAD + 10) as i64;
            let len: i64 = end - SLX0 as i64;
            if !fits(end) || !fits(len) {
                return false;
            }
            let bri: i64 = wrap_u32(m.brightness) as i64;
            assert(-0x4000_0000_0000_0000 <= bri * len <= 0x4000_0000_0000_0000)
                by (nonlinear_arith)
                requires
                    -0x8000_0000 <= bri <= 0x8000_0000,
                    -0x8000_0000 <= len <= 0x8000_0000,
            ;
            let product: i64 = bri * len;
            let tx: i64 = SLX0 as i64 + product / 100;
            fits(product) && fits(tx) && (!m.supported || (fits(end - 56) && fits(tx - THUMB_R as i64) && fits(
                tx + THUMB_R as i64,
            ) && fits(sy + THUMB_R as i64 + 4)))
        },
    }
}

/// Whether the panel can be painted.
pub fn paint_fits(state: &AppState, client: Rect) -> (b: bool)
    ensures
        b == paintable(state@, client@),
{
    if !fits(client.right as i64 - 28) {
        return false;
    }
    for i in 0..state.monitors.len()
        invariant
            forall|j: int|
                0 <= j < i ==> section_paintable(
                    #[trigger] state@.monitors[j],
                    j,
                    client.right as int,
                ),
    {
        assert(state@.monitors[i as int] == state.monitors@[i as int]@);
        if !section_fits(&state.monitors[i], i, client.right) {
            return false;
        }
    }
    true
}

fn sliders_fit(state: &AppState, cx: i32, cy: i32, w: i32) -> (b: bool)
    requires
        cy < TITLE_H ==> fits_i32(w - CLOSE_W),
        !in_close_btn(cx as int, cy as int, w as int),
    ensures
        b == press_defined(Some(state@), cx as int, cy as int, w as int),
{
    let ghost s = state@;
    for i in 0..state.monitors.len()
        invariant
            s == state@,
            cy < TITLE_H ==> fits_i32(w - CLOSE_W),
            !in_close_btn(cx as int, cy as int, w as int),
            s.none_before(i as int, cx as int, cy as int, w as int),
            forall|j: int|
                0 <= j < i && #[trigger] s.monitors[j].supported && s.none_before(
                    j,
                    cx as int,
                    cy as int,
                    w as int,
                ) ==> slider_hit_defined(cx as int, cy as int, j, w as int),
    {
        assert(s.monitors[i as int] == state.monitors@[i as int]@);
        if state.monitors[i].supported {
            assert(s.monitors[i as int].supported);
            if !slider_hit_fits(cx, cy, i, w) {
                return false;
            }
            if slider_hit(cx, cy, i, w) {
                assert(s.grabs(i as int, cx as int, cy as int, w as int));
                return true;
            }
        }
        assert(!s.grabs(i as int, cx as int, cy as int, w as int));
    }
    true
}

/// Whether a press can be answered.
pub fn press_fits(state: &Option<AppState>, cx: i32, cy: i32, w: i32) -> (b: bool)
    ensures
        b == press_defined(window_view(*state), cx as int, cy as int, w as int),
{
    if cy < TITLE_H && !fits(w as i64 - CLOSE_W as i64) {
        false
    } else if close_btn_hit(cx, cy, w) {
        true
    } else {
        match state {
            Some(state) => sliders_fit(state, cx, cy, w),
            None => true,
        }
    }
}

impl Window {
    /// Whether the window can answer the event.
    pub fn accepts(&self, event: &Event) -> (b: bool)
        ensures
            b == step_defined(self@, *event),
    {
        match *event {
            Event::Paint { client } => match &self.state {
                Some(state) => paint_fits(state, client),
                None => true,
            },
            Event::LeftDown { lparam, client } => {
                press_fits(&self.state, lparam_x(lparam), lparam_y(lparam), client.right)
            },
            Event::MouseMove { lparam, client } => match &self.state {
                Some(state) => state.dragging.is_none() || drag_fits(
                    lparam_x(lparam),
                    client.right,
                ),
                None => true,
            },
            Event::HitTest { lparam, default, window } => default != HTCLIENT || caption_fits(
                lparam_x(lparam),
                lparam_y(lparam),
                window,
            ),
            _ => true,
        }
    }
}

} // verus!
