//! What holds of the panel over any course of events.
use crate::arith::{law_low_bits_congruent, law_low_i16_unique, low_i32};
use crate::geometry::{
    bri_at, in_close_btn, law_bri_in_percent, law_bri_is_share_of_track,
    law_caption_moves_with_window, law_close_button_corner, law_every_brightness_selectable,
    law_sections_in_window, law_slider_reach, law_sliders_below_title, law_sliders_disjoint,
    slider_y, track_end, Rect, SLX0,
};
use crate::monitor::{MonitorView, StateView};
use crate::paint::{
    header_view, law_header_painted, law_shapes_in_own_section, law_slider_painted, on_shape,
    panel_view, section_paintable, section_start, section_view, sections_view, Font, PaintView,
    RectView,
};
use crate::window::{
    acted, law_grabbed_is_first, law_step_keeps_wf, pointer_x, pointer_y, quiet, selected, sent,
    step, step_defined, teardown, window_wf, ActionView, Answer, Event, HOTKEY_ID,
    HOTKEY_KEY, HTCLIENT, WINDOW_ALPHA,
};
use vstd::prelude::*;

verus! {

/// The window's state after a course of events.
pub open spec fn run(state: Option<StateView>, events: Seq<Event>) -> Option<StateView>
    decreases events.len(),
{
    if events.len() == 0 {
        state
    } else {
        step(run(state, events.drop_last()), events.last()).0
    }
}

/// A window that starts well-formed is well-formed after any course of events.
pub proof fn law_run_keeps_wf(state: Option<StateView>, events: Seq<Event>)
    requires
        window_wf(state),
    ensures
        window_wf(run(state, events)),
    decreases events.len(),
{
    if events.len() > 0 {
        law_run_keeps_wf(state, events.drop_last());
        law_step_keeps_wf(run(state, events.drop_last()), events.last());
    }
}

/// The part of a monitor that no event changes.
pub open spec fn same_monitor(a: MonitorView, b: MonitorView) -> bool {
    &&& a.handle == b.handle
    &&& a.name == b.name
    &&& a.supported == b.supported
}

/// While the window lives, an event changes nothing of a monitor but its
/// brightness, and that only of the one whose slider is being dragged after it.
pub proof fn law_only_dragged_brightness_changes(s: StateView, event: Event)
    requires
        s.wf(),
        event != Event::Destroy,
    ensures
        ({
            let after = step(Some(s), event).0;
            &&& after is Some
            &&& after->0.monitors.len() == s.monitors.len()
            &&& forall|i: int|
                0 <= i < s.monitors.len() ==> {
                    &&& same_monitor(s.monitors[i], #[trigger] after->0.monitors[i])
                    &&& after->0.dragging != Some(i as usize) ==> after->0.monitors[i]
                        == s.monitors[i]
                }
        }),
{
    if let Event::LeftDown { lparam, client } = event {
        law_grabbed_is_first(s, pointer_x(lparam), pointer_y(lparam), client.right as int);
    }
}

/// What is sent to a monitor's worker is what the panel then shows for that
/// monitor: a percentage from 1 to 100, of a monitor that can be controlled.
pub proof fn law_sent_is_shown(state: Option<StateView>, event: Event, k: int)
    requires
        window_wf(state),
        0 <= k < step(state, event).1.actions.len(),
        step(state, event).1.actions[k] is SendBrightness,
    ensures
        ({
            let action = step(state, event).1.actions[k];
            let after = step(state, event).0;
            let i = action->monitor as int;
            &&& after is Some
            &&& i < after->0.monitors.len()
            &&& after->0.monitors[i].supported
            &&& after->0.monitors[i].brightness == action->value
            &&& 1 <= action->value <= 100
        }),
{
    match event {
        Event::LeftDown { lparam, client } => {
            let cx = pointer_x(lparam);
            let w = client.right as int;
            law_bri_in_percent(cx, SLX0 as int, track_end(w));
            if state is Some {
                law_grabbed_is_first(state->0, cx, pointer_y(lparam), w);
            }
        },
        Event::MouseMove { lparam, client } => {
            law_bri_in_percent(pointer_x(lparam), SLX0 as int, track_end(client.right as int));
        },
        Event::Destroy => {
            if state is Some {
                assert(forall|j: int|
                    0 <= j < teardown(state->0).len() ==> !(
                    #[trigger] teardown(state->0)[j] is SendBrightness));
            }
        },
        _ => {},
    }
}

/// Where the panel shows another brightness than before, that brightness was sent
/// to the monitor's worker and the panel is painted anew.
pub proof fn law_change_is_sent(s: StateView, event: Event, i: int)
    requires
        s.wf(),
        event != Event::Destroy,
        0 <= i < s.monitors.len(),
        step(Some(s), event).0->0.monitors[i].brightness != s.monitors[i].brightness,
    ensures
        ({
            let (after, reply) = step(Some(s), event);
            &&& reply.actions.contains(
                ActionView::SendBrightness {
                    monitor: i as usize,
                    value: after->0.monitors[i].brightness,
                },
            )
            &&& reply.actions.contains(ActionView::Redraw)
        }),
{
    let (after, reply) = step(Some(s), event);
    match event {
        Event::LeftDown { lparam, client } => {
            let cx = pointer_x(lparam);
            let w = client.right as int;
            law_bri_in_percent(cx, SLX0 as int, track_end(w));
            law_grabbed_is_first(s, cx, pointer_y(lparam), w);
            assert(reply.actions == seq![ActionView::CaptureMouse] + sent(i, selected(cx, w)));
            assert(reply.actions[1] == sent(i, selected(cx, w))[0]);
            assert(reply.actions[2] == ActionView::Redraw);
        },
        Event::MouseMove { lparam, client } => {
            let cx = pointer_x(lparam);
            let w = client.right as int;
            law_bri_in_percent(cx, SLX0 as int, track_end(w));
            assert(reply.actions[0] == sent(i, selected(cx, w))[0]);
            assert(reply.actions[1] == ActionView::Redraw);
        },
        _ => {},
    }
}

/// The last brightness that a list of actions sends to the worker of a monitor.
pub open spec fn sent_to(actions: Seq<ActionView>, monitor: usize) -> Option<u32>
    decreases actions.len(),
{
    if actions.len() == 0 {
        None
    } else {
        match actions.last() {
            ActionView::SendBrightness { monitor: m, value } if m == monitor => Some(value),
            _ => sent_to(actions.drop_last(), monitor),
        }
    }
}

/// The last brightness sent to the worker of a monitor over a course of events.
pub open spec fn last_sent(
    state: Option<StateView>,
    events: Seq<Event>,
    monitor: usize,
) -> Option<u32>
    decreases events.len(),
{
    if events.len() == 0 {
        None
    } else {
        let before = events.drop_last();
        match sent_to(step(run(state, before), events.last()).1.actions, monitor) {
            Some(value) => Some(value),
            None => last_sent(state, before, monitor),
        }
    }
}

proof fn lemma_sent_to(actions: Seq<ActionView>, monitor: usize)
    ensures
        match sent_to(actions, monitor) {
            Some(value) => actions.contains(ActionView::SendBrightness { monitor, value }),
            None => forall|value: u32|
                !#[trigger] actions.contains(ActionView::SendBrightness { monitor, value }),
        },
    decreases actions.len(),
{
    if actions.len() > 0 {
        let init = actions.drop_last();
        lemma_sent_to(init, monitor);
        assert(actions[actions.len() - 1] == actions.last());
        assert forall|a: ActionView| #[trigger] actions.contains(a) implies a == actions.last()
            || init.contains(a) by {
            let k = choose|k: int| 0 <= k < actions.len() && actions[k] == a;
            if k < init.len() {
                assert(init[k] == a);
            }
        }
        assert forall|a: ActionView| #[trigger] init.contains(a) implies actions.contains(a) by {
            let k = choose|k: int| 0 <= k < init.len() && init[k] == a;
            assert(actions[k] == a);
        }
    }
}

/// Whatever happens, for as long as the window lives it shows the same monitors,
/// and for each the brightness last sent to its worker, or the one it started
/// with where none was sent.
pub proof fn law_shown_is_last_sent(s: StateView, events: Seq<Event>, i: int)
    requires
        s.wf(),
        0 <= i < s.monitors.len(),
        run(Some(s), events) is Some,
    ensures
        ({
            let after = run(Some(s), events)->0;
            &&& after.monitors.len() == s.monitors.len()
            &&& same_monitor(s.monitors[i], after.monitors[i])
            &&& after.monitors[i].brightness == match last_sent(Some(s), events, i as usize) {
                Some(value) => value,
                None => s.monitors[i].brightness,
            }
        }),
    decreases events.len(),
{
    if events.len() > 0 {
        let init = events.drop_last();
        let event = events.last();
        let before = run(Some(s), init);
        assert(before is Some);
        law_shown_is_last_sent(s, init, i);
        law_run_keeps_wf(Some(s), init);
        let (after, reply) = step(before, event);
        law_only_dragged_brightness_changes(before->0, event);
        assert(same_monitor(before->0.monitors[i], after->0.monitors[i]));
        lemma_sent_to(reply.actions, i as usize);
        match sent_to(reply.actions, i as usize) {
            Some(value) => {
                let sending = ActionView::SendBrightness { monitor: i as usize, value };
                let k = choose|k: int|
                    0 <= k < reply.actions.len() && reply.actions[k] == sending;
                law_sent_is_shown(before, event, k);
            },
            None => {
                if after->0.monitors[i].brightness != before->0.monitors[i].brightness {
                    law_change_is_sent(before->0, event, i);
                }
            },
        }
    }
}

/// A press on a slider grabs it, whichever slider it is, and sets it to the
/// brightness under the pointer.
pub proof fn law_press_grabs(s: StateView, lparam: isize, client: Rect, i: int)
    requires
        s.wf(),
        s.grabs(i, pointer_x(lparam), pointer_y(lparam), client.right as int),
    ensures
        ({
            let (after, reply) = step(Some(s), Event::LeftDown { lparam, client });
            let bri = selected(pointer_x(lparam), client.right as int);
            &&& after == Some(
                StateView { dragging: Some(i as usize), ..s.with_brightness(i, bri) },
            )
            &&& reply == acted(seq![ActionView::CaptureMouse] + sent(i, bri))
        }),
{
    let cx = pointer_x(lparam);
    let cy = pointer_y(lparam);
    let w = client.right as int;
    law_sections_in_window(s.monitors.len() as int, i);
    law_sliders_below_title(cx, cy, i, w);
    law_grabbed_is_first(s, cx, cy, w);
    let found = s.grabbed(0, cx, cy, w);
    if found is None {
        assert(!s.grabs(i, cx, cy, w));
    } else {
        law_sliders_disjoint(cx, cy, i, found->0, w);
    }
}

/// A press on a monitor that cannot be controlled, or beside the sliders, changes
/// nothing.
pub proof fn law_press_beside_sliders(s: StateView, lparam: isize, client: Rect)
    requires
        forall|i: int|
            !#[trigger] s.grabs(i, pointer_x(lparam), pointer_y(lparam), client.right as int),
        !in_close_btn(pointer_x(lparam), pointer_y(lparam), client.right as int),
    ensures
        step(Some(s), Event::LeftDown { lparam, client }) == (Some(s), quiet(Answer::Default)),
{
    law_grabbed_is_first(s, pointer_x(lparam), pointer_y(lparam), client.right as int);
}

/// While a slider is being dragged, it shows the brightness under the pointer,
/// wherever the pointer goes; holding still sends nothing more.
pub proof fn law_drag_follows_pointer(s: StateView, lparam: isize, client: Rect)
    requires
        s.wf(),
        s.dragging is Some,
    ensures
        ({
            let event = Event::MouseMove { lparam, client };
            let after = step(Some(s), event).0;
            &&& after is Some
            &&& after->0.dragging == s.dragging
            &&& after->0.monitors[s.dragging->0 as int].brightness == selected(
                pointer_x(lparam),
                client.right as int,
            )
            &&& step(after, event) == (after, acted(Seq::empty()))
        }),
{
    law_bri_in_percent(pointer_x(lparam), SLX0 as int, track_end(client.right as int));
}

/// Releasing the button ends the drag: moving the mouse then does nothing, until
/// a slider is grabbed again.
pub proof fn law_release_ends_drag(state: Option<StateView>, lparam: isize, client: Rect)
    ensures
        ({
            let released = step(state, Event::LeftUp).0;
            &&& released matches Some(s) ==> s.dragging is None
            &&& released matches Some(s) ==> s.monitors == state->0.monitors
            &&& step(released, Event::MouseMove { lparam, client }) == (
                released,
                acted(Seq::empty()),
            )
        }),
{
}

/// Whether the window is shown after a list of actions.
pub open spec fn visible_after(visible: bool, actions: Seq<ActionView>) -> bool
    decreases actions.len(),
{
    if actions.len() == 0 {
        visible
    } else {
        match actions.last() {
            ActionView::Hide => false,
            ActionView::Show => true,
            _ => visible_after(visible, actions.drop_last()),
        }
    }
}

/// The hot key shows a hidden window and hides a shown one, so that pressing it
/// twice changes nothing; another hot key does nothing.
pub proof fn law_hotkey_toggles(state: Option<StateView>, wparam: usize, visible: bool)
    ensures
        ({
            let (after, reply) = step(state, Event::Hotkey { wparam, visible });
            &&& after == state
            &&& low_i32(wparam as int) == HOTKEY_ID ==> visible_after(visible, reply.actions)
                == !visible
            &&& low_i32(wparam as int) != HOTKEY_ID ==> reply.actions.len() == 0
        }),
        low_i32(wparam as int) == HOTKEY_ID ==> ({
            let first = step(state, Event::Hotkey { wparam, visible }).1.actions;
            let second = step(
                state,
                Event::Hotkey { wparam, visible: visible_after(visible, first) },
            ).1.actions;
            visible_after(visible_after(visible, first), second) == visible
        }),
{
    reveal_with_fuel(visible_after, 3);
    let show = seq![ActionView::Show, ActionView::Foreground];
    assert(show.drop_last() =~= seq![ActionView::Show]);
    assert(visible_after(visible, show));
    assert(visible_after(!visible, show));
}

/// The close button only hides the window; the hot key brings it back, with the
/// panel as it was.
pub proof fn law_close_hides(state: Option<StateView>, lparam: isize, client: Rect, wparam: usize)
    requires
        in_close_btn(pointer_x(lparam), pointer_y(lparam), client.right as int),
        low_i32(wparam as int) == HOTKEY_ID,
    ensures
        ({
            let (after, reply) = step(state, Event::LeftDown { lparam, client });
            &&& after == state
            &&& reply == acted(seq![ActionView::Hide])
            &&& !visible_after(true, reply.actions)
            &&& step(after, Event::Hotkey { wparam, visible: false }) == (
                state,
                acted(seq![ActionView::Show, ActionView::Foreground]),
            )
        }),
{
}

/// The title bar drags the window only clear of the close button, and only where
/// the default procedure sees the client area.
pub proof fn law_hit_test(
    state: Option<StateView>,
    lparam: isize,
    default: isize,
    window: Rect,
)
    ensures
        ({
            let (after, reply) = step(state, Event::HitTest { lparam, default, window });
            &&& after == state
            &&& reply.actions.len() == 0
            &&& default != HTCLIENT ==> reply.answer == Answer::Value(default)
            &&& in_close_btn(
                pointer_x(lparam) - window.left,
                pointer_y(lparam) - window.top,
                window.right - window.left,
            ) ==> reply.answer == Answer::Value(default)
        }),
{
}

/// Destroying the window closes the channels to the workers before any monitor is
/// given up, gives up every monitor and every font, and then ends the program;
/// nothing is left to paint or to drag.
pub proof fn law_destroy_gives_all_up(s: StateView, i: int, client: Rect, lparam: isize)
    requires
        0 <= i < s.monitors.len(),
    ensures
        ({
            let (after, reply) = step(Some(s), Event::Destroy);
            &&& after is None
            &&& reply.actions.len() == s.monitors.len() + 6
            &&& reply.actions[0] == ActionView::UnregisterHotkey
            &&& reply.actions[1] == ActionView::CloseChannels
            &&& reply.actions[2 + i] == ActionView::DestroyMonitor(s.monitors[i].handle)
            &&& reply.actions.contains(ActionView::DeleteFont(Font::Title))
            &&& reply.actions.contains(ActionView::DeleteFont(Font::Name))
            &&& reply.actions.contains(ActionView::DeleteFont(Font::Percent))
            &&& reply.actions.last() == ActionView::Quit
            &&& step(after, Event::Paint { client }) == (after, acted(Seq::empty()))
            &&& step(after, Event::MouseMove { lparam, client }) == (after, acted(Seq::empty()))
        }),
{
    let actions = step(Some(s), Event::Destroy).1.actions;
    let n = s.monitors.len() as int;
    assert(actions[n + 2] == ActionView::DeleteFont(Font::Title));
    assert(actions[n + 3] == ActionView::DeleteFont(Font::Name));
    assert(actions[n + 4] == ActionView::DeleteFont(Font::Percent));
}

/// Whatever the event, while the window lives the panel stays as it must be: it is
/// well-formed, its monitors are the same but for their brightness, and every value
/// sent to a worker is from 1 to 100 and goes to a monitor that can be controlled.
pub proof fn law_event_keeps_panel(s: StateView, event: Event)
    requires
        s.wf(),
        event != Event::Destroy,
    ensures
        ({
            let (after, reply) = step(Some(s), event);
            &&& after is Some
            &&& after->0.wf()
            &&& after->0.monitors.len() == s.monitors.len()
            &&& forall|i: int|
                0 <= i < s.monitors.len() ==> same_monitor(
                    s.monitors[i],
                    #[trigger] after->0.monitors[i],
                )
            &&& forall|k: int|
                0 <= k < reply.actions.len() ==> (#[trigger] reply.actions[k] matches
                    ActionView::SendBrightness { monitor, value } ==> {
                    &&& monitor < s.monitors.len()
                    &&& s.monitors[monitor as int].supported
                    &&& 1 <= value <= 100
                })
            &&& forall|k: int|
                0 <= k < reply.actions.len() ==> !(#[trigger] reply.actions[k] is DeleteFont)
        }),
{
    let (after, reply) = step(Some(s), event);
    law_step_keeps_wf(Some(s), event);
    law_only_dragged_brightness_changes(s, event);
    assert forall|k: int| 0 <= k < reply.actions.len() implies (#[trigger] reply.actions[k] matches
        ActionView::SendBrightness { monitor, value } ==> {
        &&& monitor < s.monitors.len()
        &&& s.monitors[monitor as int].supported
        &&& 1 <= value <= 100
    }) by {
        if reply.actions[k] is SendBrightness {
            law_sent_is_shown(Some(s), event, k);
            let i = reply.actions[k]->monitor as int;
            assert(same_monitor(s.monitors[i], after->0.monitors[i]));
        }
    }
}

/// Painting only draws: the panel is left as it is, so that painting again draws
/// the same, and nothing is sent, deleted or otherwise done. One of the panel's
/// fonts is selected before any text is drawn, and the font that was selected
/// before is selected again at the end, and only there.
pub proof fn law_painting_only_draws(s: StateView, client: Rect)
    ensures
        ({
            let event = Event::Paint { client };
            let (after, reply) = step(Some(s), event);
            let ops = panel_view(s, client@);
            &&& after == Some(s)
            &&& step(after, event) == (after, reply)
            &&& reply == acted(seq![ActionView::Paint(ops)])
            &&& forall|k: int|
                0 <= k < ops.len() && #[trigger] ops[k] is Text ==> exists|j: int|
                    0 <= j < k && #[trigger] ops[j] is SelectFont
            &&& ops.last() == PaintView::RestoreFont
            &&& forall|k: int|
                0 <= k < ops.len() - 1 ==> !(#[trigger] ops[k] is RestoreFont)
        }),
{
    let ops = panel_view(s, client@);
    let header = header_view(client@);
    let sections = sections_view(s.monitors, client@.right);
    assert(ops[3] == PaintView::SelectFont(Font::Title));
    assert forall|k: int| 0 <= k < ops.len() && #[trigger] ops[k] is Text implies exists|j: int|
        0 <= j < k && #[trigger] ops[j] is SelectFont by {
        assert(k < header.len() ==> ops[k] == header[k]);
        assert(ops[3] is SelectFont && 3 < k);
    }
    assert forall|k: int| 0 <= k < ops.len() - 1 implies !(#[trigger] ops[k] is RestoreFont) by {
        if k < header.len() {
            assert(ops[k] == header[k]);
        } else {
            assert(ops[k] == sections[k - header.len()]);
            lemma_no_restore(s.monitors, client@.right, k - header.len());
        }
    }
}

proof fn lemma_no_restore(monitors: Seq<MonitorView>, w: int, k: int)
    requires
        0 <= k < sections_view(monitors, w).len(),
    ensures
        !(sections_view(monitors, w)[k] is RestoreFont),
    decreases monitors.len(),
{
    if monitors.len() > 0 {
        let rest = sections_view(monitors.drop_last(), w);
        if k < rest.len() {
            lemma_no_restore(monitors.drop_last(), w, k);
        } else {
            let section = section_view(monitors.last(), monitors.len() - 1, w);
            assert(sections_view(monitors, w)[k] == section[k - rest.len()]);
        }
    }
}

/// A coordinate as small as any that a desktop has.
pub open spec fn on_desktop(n: int) -> bool {
    -20_000_000 <= n <= 20_000_000
}

/// With positions as small as any that a desktop has, and no slider so low that a
/// pointer's distance to it is out of range, every event can be answered.
pub proof fn law_ordinary_events_defined(s: StateView, event: Event)
    requires
        s.wf(),
        s.monitors.len() > 0 ==> slider_y(s.monitors.len() - 1) <= i32::MAX - 0x8000,
        match event {
            Event::Paint { client } => on_desktop(client.right as int),
            Event::LeftDown { lparam, client } => on_desktop(client.right as int),
            Event::MouseMove { lparam, client } => on_desktop(client.right as int),
            Event::HitTest { lparam, default, window } => {
                &&& on_desktop(window.left as int)
                &&& on_desktop(window.top as int)
                &&& on_desktop(window.right as int)
            },
            _ => true,
        },
    ensures
        step_defined(Some(s), event),
{
    match event {
        Event::Paint { client } => {
            assert forall|i: int| 0 <= i < s.monitors.len() implies section_paintable(
                #[trigger] s.monitors[i],
                i,
                client.right as int,
            ) by {
                let m = s.monitors[i];
                assert(m.wf());
                law_sections_in_window(s.monitors.len() as int, i);
                let len = track_end(client.right as int) - SLX0;
                let bri = m.brightness as int;
                assert(-2_100_000_000 <= bri * len <= 2_100_000_000) by (nonlinear_arith)
                    requires
                        0 <= bri <= 100,
                        -21_000_000 <= len <= 21_000_000,
                ;
            }
        },
        _ => {},
    }
}

/// Whether an operation draws the thumb of a slider.
pub open spec fn is_thumb(op: PaintView) -> bool {
    op is Ellipse
}

/// One thumb is painted for each monitor that can be controlled, and none for any
/// other.
pub proof fn law_thumb_per_supported_monitor(s: StateView, client: RectView)
    ensures
        panel_view(s, client).filter(|op: PaintView| is_thumb(op)).len() == s.monitors.filter(
            |m: MonitorView| m.supported,
        ).len(),
{
    let thumb = |op: PaintView| is_thumb(op);
    let header = header_view(client);
    let sections = sections_view(s.monitors, client.right);
    lemma_sections_thumbs(s.monitors, client.right);
    let end = seq![PaintView::RestoreFont];
    assert(panel_view(s, client) =~= header + sections + end);
    Seq::filter_distributes_over_add(header + sections, end, thumb);
    Seq::filter_distributes_over_add(header, sections, thumb);
    lemma_filter_none(header, thumb);
    lemma_filter_none(end, thumb);
}

proof fn lemma_filter_none<A>(s: Seq<A>, pred: spec_fn(A) -> bool)
    requires
        forall|i: int| 0 <= i < s.len() ==> !pred(#[trigger] s[i]),
    ensures
        s.filter(pred).len() == 0,
    decreases s.len(),
{
    reveal(Seq::filter);
    if s.len() > 0 {
        lemma_filter_none(s.drop_last(), pred);
    }
}

proof fn lemma_sections_thumbs(monitors: Seq<MonitorView>, w: int)
    ensures
        sections_view(monitors, w).filter(|op: PaintView| is_thumb(op)).len() == monitors.filter(
            |m: MonitorView| m.supported,
        ).len(),
    decreases monitors.len(),
{
    reveal(Seq::filter);
    let thumb = |op: PaintView| is_thumb(op);
    if monitors.len() > 0 {
        let last = monitors.last();
        let idx = monitors.len() - 1;
        lemma_sections_thumbs(monitors.drop_last(), w);
        let section = section_view(last, idx, w);
        Seq::filter_distributes_over_add(
            sections_view(monitors.drop_last(), w),
            section,
            thumb,
        );
        if last.supported {
            let n = section.len() as int;
            assert(n == 10 || n == 11);
            let before = section.take(n - 4);
            let at = seq![section[n - 4]];
            let after = section.skip(n - 3);
            assert(section =~= before + at + after);
            Seq::filter_distributes_over_add(before + at, after, thumb);
            Seq::filter_distributes_over_add(before, at, thumb);
            lemma_filter_none(before, thumb);
            lemma_filter_none(after, thumb);
            assert(at.filter(thumb).len() == 1) by {
                assert(at.drop_last() =~= Seq::empty());
                assert(thumb(at.last()));
                assert(at.drop_last().filter(thumb) =~= Seq::empty());
            }
        } else {
            lemma_filter_none(section, thumb);
        }
    }
}

/// Whether a mouse message's `lparam` holds the point: its column in the lowest
/// word and its row in the one above, both as signed numbers.
pub open spec fn points_at(lparam: isize, x: int, y: int) -> bool {
    &&& -0x8000 <= x < 0x8000
    &&& -0x8000 <= y < 0x8000
    &&& (lparam as int - x) % 0x1_0000 == 0
    &&& (lparam as int / 0x1_0000 - y) % 0x1_0000 == 0
}

proof fn lemma_pointer(lparam: isize, x: int, y: int)
    requires
        points_at(lparam, x, y),
    ensures
        pointer_x(lparam) == x,
        pointer_y(lparam) == y,
{
    law_low_i16_unique(lparam as int, x);
    law_low_i16_unique(lparam as int / 0x1_0000, y);
}

/// Every `lparam` holds exactly one point.
pub proof fn law_pointer_read(lparam: isize, x: int, y: int)
    ensures
        points_at(lparam, pointer_x(lparam), pointer_y(lparam)),
        points_at(lparam, x, y) ==> x == pointer_x(lparam) && y == pointer_y(lparam),
{
    law_low_bits_congruent(lparam as int);
    law_low_bits_congruent(lparam as int / 0x1_0000);
    if points_at(lparam, x, y) {
        lemma_pointer(lparam, x, y);
    }
}

/// A press in the rightmost 50 px of the top 50 hides the window, and does nothing
/// else, with or without a state.
pub proof fn law_press_on_close_button(
    state: Option<StateView>,
    lparam: isize,
    client: Rect,
    x: int,
    y: int,
)
    requires
        points_at(lparam, x, y),
        y < 50,
        client.right - x < 50,
    ensures
        ({
            let (after, reply) = step(state, Event::LeftDown { lparam, client });
            &&& after == state
            &&& reply.actions == seq![ActionView::Hide]
            &&& reply.answer == Answer::Value(0)
        }),
{
    lemma_pointer(lparam, x, y);
}

/// A press within reach of the slider of a controllable monitor grabs that slider:
/// from 20 px on to 20 px before the right edge, and up to 20 px above and below the
/// slider's centre, 130 px from the top for the first monitor and 110 px further
/// down for each next. The monitor takes the share of the track left of the pointer
/// in percent, cut to a whole number, at least 1; that brightness is sent to its
/// worker and shown, and nothing else changes.
pub proof fn law_press_within_reach(
    s: StateView,
    lparam: isize,
    client: Rect,
    x: int,
    y: int,
    i: int,
)
    requires
        s.wf(),
        points_at(lparam, x, y),
        0 <= i < s.monitors.len(),
        s.monitors[i].supported,
        20 <= x <= client.right - 20,
        110 + 110 * i <= y <= 150 + 110 * i,
    ensures
        ({
            let (after, reply) = step(Some(s), Event::LeftDown { lparam, client });
            let m = after->0.monitors[i];
            let bri = m.brightness as int;
            let len = client.right - 60;
            let along = x - 30;
            &&& after is Some
            &&& after->0.dragging == Some(i as usize)
            &&& after->0.monitors.len() == s.monitors.len()
            &&& forall|j: int|
                0 <= j < s.monitors.len() && j != i ==> #[trigger] after->0.monitors[j]
                    == s.monitors[j]
            &&& m.handle == s.monitors[i].handle
            &&& m.name == s.monitors[i].name
            &&& m.supported
            &&& len <= 0 ==> bri == 1
            &&& len > 0 && along * 100 < len ==> bri == 1
            &&& len > 0 && along >= len ==> bri == 100
            &&& len > 0 && along * 100 >= len && along <= len ==> bri * len <= along * 100 < (bri
                + 1) * len
            &&& reply.actions.len() == 3
            &&& reply.actions[0] == ActionView::CaptureMouse
            &&& reply.actions[1] == (ActionView::SendBrightness {
                monitor: i as usize,
                value: m.brightness,
            })
            &&& reply.actions[2] == ActionView::Redraw
            &&& reply.answer == Answer::Value(0)
        }),
{
    let w = client.right as int;
    lemma_pointer(lparam, x, y);
    law_slider_reach(x, y, i, w);
    law_press_grabs(s, lparam, client, i);
    assert(selected(x, w) == bri_at(x, 30, w - 30));
    law_bri_in_percent(x, 30, w - 30);
    law_bri_is_share_of_track(x, 30, w - 30);
}

/// A press that is neither on the close button nor within reach of the slider of a
/// controllable monitor changes nothing and is left to the default procedure.
pub proof fn law_press_out_of_reach(s: StateView, lparam: isize, client: Rect, x: int, y: int)
    requires
        s.wf(),
        points_at(lparam, x, y),
        !(y < 50 && client.right - x < 50),
        forall|i: int|
            0 <= i < s.monitors.len() && #[trigger] s.monitors[i].supported ==> !(20 <= x
                <= client.right - 20 && 110 + 110 * i <= y <= 150 + 110 * i),
    ensures
        ({
            let (after, reply) = step(Some(s), Event::LeftDown { lparam, client });
            &&& after == Some(s)
            &&& reply.actions.len() == 0
            &&& reply.answer == Answer::Default
        }),
{
    let w = client.right as int;
    lemma_pointer(lparam, x, y);
    law_close_button_corner(x, y, w);
    assert forall|i: int| !#[trigger] s.grabs(i, x, y, w) by {
        if 0 <= i < s.monitors.len() && s.monitors[i].supported {
            law_slider_reach(x, y, i, w);
        }
    }
    law_press_beside_sliders(s, lparam, client);
}

/// A press anywhere but on the close button of a window without a state is left to
/// the default procedure.
pub proof fn law_press_without_state(lparam: isize, client: Rect, x: int, y: int)
    requires
        points_at(lparam, x, y),
        !(y < 50 && client.right - x < 50),
    ensures
        ({
            let (after, reply) = step(None, Event::LeftDown { lparam, client });
            &&& after is None
            &&& reply.actions.len() == 0
            &&& reply.answer == Answer::Default
        }),
{
    lemma_pointer(lparam, x, y);
}

/// While a slider is being dragged, a move sets its monitor to the share of the
/// track left of the pointer in percent, cut to a whole number, at least 1, whatever
/// the pointer's row. A brightness other than before is sent to the worker and
/// shown; the same is not. Nothing else changes.
pub proof fn law_move_while_dragging(
    s: StateView,
    lparam: isize,
    client: Rect,
    x: int,
    y: int,
    i: int,
)
    requires
        s.wf(),
        points_at(lparam, x, y),
        s.dragging == Some(i as usize),
        0 <= i < s.monitors.len(),
    ensures
        ({
            let (after, reply) = step(Some(s), Event::MouseMove { lparam, client });
            let m = after->0.monitors[i];
            let bri = m.brightness as int;
            let len = client.right - 60;
            let along = x - 30;
            &&& after is Some
            &&& after->0.dragging == s.dragging
            &&& after->0.monitors.len() == s.monitors.len()
            &&& forall|j: int|
                0 <= j < s.monitors.len() && j != i ==> #[trigger] after->0.monitors[j]
                    == s.monitors[j]
            &&& m.handle == s.monitors[i].handle
            &&& m.name == s.monitors[i].name
            &&& m.supported
            &&& len <= 0 ==> bri == 1
            &&& len > 0 && along * 100 < len ==> bri == 1
            &&& len > 0 && along >= len ==> bri == 100
            &&& len > 0 && along * 100 >= len && along <= len ==> bri * len <= along * 100 < (bri
                + 1) * len
            &&& bri == s.monitors[i].brightness ==> reply.actions.len() == 0
            &&& bri != s.monitors[i].brightness ==> {
                &&& reply.actions.len() == 2
                &&& reply.actions[0] == (ActionView::SendBrightness {
                    monitor: i as usize,
                    value: m.brightness,
                })
                &&& reply.actions[1] == ActionView::Redraw
            }
            &&& reply.answer == Answer::Value(0)
        }),
{
    let w = client.right as int;
    lemma_pointer(lparam, x, y);
    assert(selected(x, w) == bri_at(x, 30, w - 30));
    law_bri_in_percent(x, 30, w - 30);
    law_bri_is_share_of_track(x, 30, w - 30);
}

/// A move changes nothing and does nothing where no slider is being dragged, or
/// where the window has no state.
pub proof fn law_move_without_drag(state: Option<StateView>, lparam: isize, client: Rect)
    requires
        state matches Some(s) ==> s.dragging is None,
    ensures
        ({
            let (after, reply) = step(state, Event::MouseMove { lparam, client });
            &&& after == state
            &&& reply.actions.len() == 0
            &&& reply.answer == Answer::Value(0)
        }),
{
}

/// Every brightness can be reached by a drag, in a window at least 160 px wide whose
/// slider ends within a pointer's range.
pub proof fn law_every_brightness_reachable(s: StateView, client: Rect, i: int, bri: int)
    requires
        s.wf(),
        s.dragging == Some(i as usize),
        0 <= i < s.monitors.len(),
        160 <= client.right <= 0x8000,
        1 <= bri <= 100,
    ensures
        exists|lparam: isize|
            (#[trigger] step(Some(s), Event::MouseMove { lparam, client })).0->0.monitors[i].brightness
                == bri,
{
    let w = client.right as int;
    law_every_brightness_selectable(bri, 30, w - 30);
    let cx = choose|cx: int| 30 <= cx <= w - 30 && #[trigger] bri_at(cx, 30, w - 30) == bri;
    let lparam = cx as isize;
    lemma_pointer(lparam, cx, 0);
    assert(selected(cx, w) == bri_at(cx, 30, w - 30));
    let moved = step(Some(s), Event::MouseMove { lparam, client });
    assert(moved.0->0.monitors[i].brightness == bri);
}

/// A point of a track or a thumb, where it is painted, grabs the slider of the
/// monitor in whose section it is painted.
pub proof fn law_painted_slider_is_grabbed(
    s: StateView,
    lparam: isize,
    client: Rect,
    x: int,
    y: int,
    i: int,
    k: int,
)
    requires
        s.wf(),
        client.right >= 60,
        points_at(lparam, x, y),
        0 <= i < s.monitors.len(),
        section_start(s, client@, i) <= k < section_start(s, client@, i + 1),
        on_shape(panel_view(s, client@)[k], x, y),
    ensures
        ({
            let after = step(Some(s), Event::LeftDown { lparam, client }).0;
            after is Some && after->0.dragging == Some(i as usize)
        }),
{
    law_shapes_in_own_section(s, client@, i, k);
    assert(on_shape(panel_view(s, client@)[k], x, y));
    law_press_within_reach(s, lparam, client, x, y, i);
}

/// The mark of the close button, where it is painted, closes: a press on it, or
/// below it on the title bar, hides the window.
pub proof fn law_painted_close_mark_hides(
    s: StateView,
    lparam: isize,
    client: Rect,
    x: int,
    y: int,
)
    requires
        points_at(lparam, x, y),
        panel_view(s, client@)[5]->Text_x <= x,
        panel_view(s, client@)[5]->Text_y <= y < 50,
    ensures
        step(Some(s), Event::LeftDown { lparam, client }).1.actions == seq![ActionView::Hide],
{
    law_header_painted(s, client@);
    law_press_on_close_button(Some(s), lparam, client, x, y);
}

/// After a move with a slider being dragged, the thumb of that slider is painted
/// under the pointer, to within less than one percent of the track and a pixel, for
/// as long as the pointer is over the track.
pub proof fn law_thumb_painted_under_pointer(
    s: StateView,
    lparam: isize,
    client: Rect,
    x: int,
    y: int,
    i: int,
)
    requires
        s.wf(),
        points_at(lparam, x, y),
        s.dragging == Some(i as usize),
        0 <= i < s.monitors.len(),
        client.right > 60,
        30 <= x <= client.right - 30,
    ensures
        ({
            let after = step(Some(s), Event::MouseMove { lparam, client }).0->0;
            let thumb = panel_view(after, client@)[section_start(after, client@, i + 1) - 4];
            let centre = thumb->Ellipse_rect.left + 10;
            let len = client.right - 60;
            &&& thumb is Ellipse
            &&& -(len + 100) < 100 * (centre - x) < len + 100
        }),
{
    let event = Event::MouseMove { lparam, client };
    let after = step(Some(s), event).0->0;
    let w = client.right as int;
    law_step_keeps_wf(Some(s), event);
    law_move_while_dragging(s, lparam, client, x, y, i);
    law_slider_painted(after, client@, i);
    let bri = after.monitors[i].brightness as int;
    let thumb = panel_view(after, client@)[section_start(after, client@, i + 1) - 4];
    let d = thumb->Ellipse_rect.left + 10 - 30;
    let len = w - 60;
    let along = x - 30;
    assert((bri + 1) * len == bri * len + len) by (nonlinear_arith);
    assert(1 * len == len && 100 * len == len * 100);
    assert(after.monitors[i].wf());
    if along * 100 < len {
        assert(bri * len == len) by (nonlinear_arith)
            requires
                bri == 1,
        ;
    }
}

/// Where the default procedure sees the client area, a point in the top 50 px of the
/// window, wherever on the screen that is, and further than 50 px from its right edge
/// is on the caption. Any other point is answered what the default procedure said.
pub proof fn law_hit_test_in_pixels(
    state: Option<StateView>,
    lparam: isize,
    default: isize,
    window: Rect,
    x: int,
    y: int,
)
    requires
        points_at(lparam, x, y),
    ensures
        ({
            let (after, reply) = step(state, Event::HitTest { lparam, default, window });
            let caption = window.top <= y < window.top + 50 && window.right - x > 50;
            &&& after == state
            &&& reply.actions.len() == 0
            &&& default == 1 && caption ==> reply.answer == Answer::Value(2)
            &&& !(default == 1 && caption) ==> reply.answer == Answer::Value(default)
        }),
{
    lemma_pointer(lparam, x, y);
    law_caption_moves_with_window(x, y, window, window, 0, 0);
}

/// The hit test goes by the place on the window: it answers the same where the
/// window and the point are moved together.
pub proof fn law_hit_test_moves_with_window(
    state: Option<StateView>,
    default: isize,
    from: isize,
    to: isize,
    x: int,
    y: int,
    dx: int,
    dy: int,
    a: Rect,
    b: Rect,
)
    requires
        points_at(from, x, y),
        points_at(to, x + dx, y + dy),
        b.left == a.left + dx,
        b.right == a.right + dx,
        b.top == a.top + dy,
    ensures
        step(state, Event::HitTest { lparam: from, default, window: a }) == step(
            state,
            Event::HitTest { lparam: to, default, window: b },
        ),
{
    lemma_pointer(from, x, y);
    lemma_pointer(to, x + dx, y + dy);
    law_caption_moves_with_window(x, y, a, b, dx, dy);
}

/// The hot key with the identifier 1, in the low 32 bits, hides a shown window, and
/// shows a hidden one in the foreground; any other does nothing.
pub proof fn law_hotkey_actions(state: Option<StateView>, wparam: usize, visible: bool)
    ensures
        ({
            let (after, reply) = step(state, Event::Hotkey { wparam, visible });
            let own = wparam as int % 0x1_0000_0000 == 1;
            &&& after == state
            &&& reply.answer == Answer::Value(0)
            &&& own && visible ==> reply.actions == seq![ActionView::Hide]
            &&& own && !visible ==> reply.actions == seq![ActionView::Show, ActionView::Foreground]
            &&& !own ==> reply.actions.len() == 0
        }),
{
}

/// Releasing the button ends any drag, gives the mouse back, and does nothing else.
pub proof fn law_release_actions(state: Option<StateView>)
    ensures
        ({
            let (after, reply) = step(state, Event::LeftUp);
            &&& state is None ==> after is None
            &&& state is Some ==> {
                &&& after is Some
                &&& after->0.monitors == state->0.monitors
                &&& after->0.dragging is None
            }
            &&& reply.actions == seq![ActionView::ReleaseMouse]
            &&& reply.answer == Answer::Value(0)
        }),
{
}

/// Painting paints the panel where the window has a state, and nothing otherwise;
/// any message that is not handled is left to the default procedure.
pub proof fn law_paint_and_other(state: Option<StateView>, client: Rect)
    ensures
        ({
            let (after, reply) = step(state, Event::Paint { client });
            &&& after == state
            &&& reply.answer == Answer::Value(0)
            &&& state is None ==> reply.actions.len() == 0
            &&& state is Some ==> reply.actions == seq![
                ActionView::Paint(panel_view(state->0, client@)),
            ]
        }),
        ({
            let (after, reply) = step(state, Event::Other);
            &&& after == state
            &&& reply.actions.len() == 0
            &&& reply.answer == Answer::Default
        }),
{
}

/// Destroying the window, in order: the hot key is given up, the channels to the
/// workers are closed, each monitor is given up by its handle, the three fonts are
/// deleted, and the program ends. A window without a state has nothing between the
/// hot key and the end.
pub proof fn law_destroy_in_order(state: Option<StateView>)
    ensures
        ({
            let (after, reply) = step(state, Event::Destroy);
            let actions = reply.actions;
            &&& after is None
            &&& reply.answer == Answer::Value(0)
            &&& actions.len() >= 2
            &&& actions[0] == ActionView::UnregisterHotkey
            &&& actions.last() == ActionView::Quit
            &&& state is None ==> actions.len() == 2
            &&& state matches Some(s) ==> {
                let n = s.monitors.len() as int;
                &&& actions.len() == n + 6
                &&& actions[1] == ActionView::CloseChannels
                &&& forall|i: int|
                    0 <= i < n ==> actions[2 + i] == ActionView::DestroyMonitor(
                        (#[trigger] s.monitors[i]).handle,
                    )
                &&& actions[n + 2] == ActionView::DeleteFont(Font::Title)
                &&& actions[n + 3] == ActionView::DeleteFont(Font::Name)
                &&& actions[n + 4] == ActionView::DeleteFont(Font::Percent)
            }
        }),
{
}

/// With positions as small as any that a desktop has, a window without a state can
/// answer every event.
pub proof fn law_ordinary_events_without_state(event: Event)
    requires
        match event {
            Event::LeftDown { lparam, client } => on_desktop(client.right as int),
            Event::HitTest { lparam, default, window } => {
                &&& on_desktop(window.left as int)
                &&& on_desktop(window.top as int)
                &&& on_desktop(window.right as int)
            },
            _ => true,
        },
    ensures
        step_defined(None, event),
{
}

/// The hot key is B, under the identifier 1; the window is slightly see-through.
pub proof fn law_registered_key()
    ensures
        HOTKEY_KEY == 'B' as u32,
        HOTKEY_ID == 1,
        WINDOW_ALPHA == 245,
{
}

} // verus!
