//! How the panel's window answers messages.
use crate::arith::{fits_i32, low_i16, low_i32, lparam_x, lparam_y, wrap_usize};
use crate::geometry::{
    bri_at, bri_defined, bri_from_x, caption_defined, caption_hit, close_btn_hit, in_caption,
    in_close_btn, law_bri_in_percent, on_slider, slider_hit, slider_hit_defined, slx1, track_end, Rect, CLOSE_W, SLX0, TITLE_H,
};
use crate::monitor::{monitor_views, AppState, MonitorInfo, MonitorView, StateView};
use crate::paint::{on_paint, paint_views, paintable, panel_view, Font, PaintOp, PaintView};
use vstd::prelude::*;

verus! {

// Message codes.
pub const WM_DESTROY: u32 = 2;

pub const WM_PAINT: u32 = 15;

pub const WM_NCHITTEST: u32 = 132;

pub const WM_MOUSEMOVE: u32 = 512;

pub const WM_LBUTTONDOWN: u32 = 513;

pub const WM_LBUTTONUP: u32 = 514;

pub const WM_HOTKEY: u32 = 786;

// Hit test results.
pub const HTCLIENT: isize = 1;

pub const HTCAPTION: isize = 2;

/// The identifier under which the global hot key is registered.
pub const HOTKEY_ID: i32 = 1;

/// The virtual key of the hot key, pressed together with Alt.
pub const HOTKEY_KEY: u32 = 0x42;

/// The opacity of the window.
pub const WINDOW_ALPHA: u8 = 245;

/// The messages that the window handles itself.
#[derive(Clone, Copy, Debug, PartialEq, Eq, Structural)]
pub enum Message {
    Paint,
    LeftDown,
    MouseMove,
    LeftUp,
    HitTest,
    Hotkey,
    Destroy,
    Other,
}

impl Message {
    /// The message with a code.
    pub open spec fn of(code: u32) -> Message {
        if code == WM_PAINT {
            Message::Paint
        } else if code == WM_LBUTTONDOWN {
            Message::LeftDown
        } else if code == WM_MOUSEMOVE {
            Message::MouseMove
        } else if code == WM_LBUTTONUP {
            Message::LeftUp
        } else if code == WM_NCHITTEST {
            Message::HitTest
        } else if code == WM_HOTKEY {
            Message::Hotkey
        } else if code == WM_DESTROY {
            Message::Destroy
        } else {
            Message::Other
        }
    }

    /// Tells the messages apart by their codes.
    pub fn decode(code: u32) -> (message: Message)
        ensures
            message == Message::of(code),
            message is Paint <==> code == 0x000f,
            message is LeftDown <==> code == 0x0201,
            message is MouseMove <==> code == 0x0200,
            message is LeftUp <==> code == 0x0202,
            message is HitTest <==> code == 0x0084,
            message is Hotkey <==> code == 0x0312,
            message is Destroy <==> code == 0x0002,
    {
        match code {
            WM_PAINT => Message::Paint,
            WM_LBUTTONDOWN => Message::LeftDown,
            WM_MOUSEMOVE => Message::MouseMove,
            WM_LBUTTONUP => Message::LeftUp,
            WM_NCHITTEST => Message::HitTest,
            WM_HOTKEY => Message::Hotkey,
            WM_DESTROY => Message::Destroy,
            _ => Message::Other,
        }
    }
}

/// A message with what was read of the window to answer it.
#[derive(Clone, Copy, Debug, PartialEq, Eq, Structural)]
pub enum Event {
    Paint { client: Rect },
    LeftDown { lparam: isize, client: Rect },
    MouseMove { lparam: isize, client: Rect },
    LeftUp,
    /// `default` is what the default procedure answered.
    HitTest { lparam: isize, default: isize, window: Rect },
    /// `visible` is whether the window is shown.
    Hotkey { wparam: usize, visible: bool },
    Destroy,
    Other,
}

/// Something to be done about the window.
#[derive(Debug, PartialEq, Eq)]
pub enum Action {
    Paint(Vec<PaintOp>),
    Hide,
    Show,
    /// Bring the window to the foreground.
    Foreground,
    CaptureMouse,
    ReleaseMouse,
    /// Hand a brightness to the worker of the monitor at an index.
    SendBrightness { monitor: usize, value: u32 },
    /// Have the window painted anew.
    Redraw,
    UnregisterHotkey,
    /// Close the channels to the workers, so that they can exit.
    CloseChannels,
    /// Give up the physical monitor with a handle.
    DestroyMonitor(usize),
    DeleteFont(Font),
    /// End the message loop.
    Quit,
}

/// What an [`Action`] does.
pub ghost enum ActionView {
    Paint(Seq<PaintView>),
    Hide,
    Show,
    Foreground,
    CaptureMouse,
    ReleaseMouse,
    SendBrightness { monitor: usize, value: u32 },
    Redraw,
    UnregisterHotkey,
    CloseChannels,
    DestroyMonitor(usize),
    DeleteFont(Font),
    Quit,
}

impl View for Action {
    type V = ActionView;

    open spec fn view(&self) -> ActionView {
        match *self {
            Action::Paint(ops) => ActionView::Paint(paint_views(ops@)),
            Action::Hide => ActionView::Hide,
            Action::Show => ActionView::Show,
            Action::Foreground => ActionView::Foreground,
            Action::CaptureMouse => ActionView::CaptureMouse,
            Action::ReleaseMouse => ActionView::ReleaseMouse,
            Action::SendBrightness { monitor, value } => ActionView::SendBrightness {
                monitor,
                value,
            },
            Action::Redraw => ActionView::Redraw,
            Action::UnregisterHotkey => ActionView::UnregisterHotkey,
            Action::CloseChannels => ActionView::CloseChannels,
            Action::DestroyMonitor(handle) => ActionView::DestroyMonitor(handle),
            Action::DeleteFont(font) => ActionView::DeleteFont(font),
            Action::Quit => ActionView::Quit,
        }
    }
}

/// What a list of actions does.
pub open spec fn action_views(actions: Seq<Action>) -> Seq<ActionView> {
    actions.map_values(|a: Action| a@)
}

/// What a message is answered.
#[derive(Clone, Copy, Debug, PartialEq, Eq, Structural)]
pub enum Answer {
    Value(isize),
    /// Whatever the default procedure answers.
    Default,
}

/// What is done about a message, in order, and what it is answered.
#[derive(Debug, PartialEq, Eq)]
pub struct Reply {
    pub actions: Vec<Action>,
    pub answer: Answer,
}

/// What a [`Reply`] holds.
pub ghost struct ReplyView {
    pub actions: Seq<ActionView>,
    pub answer: Answer,
}

impl View for Reply {
    type V = ReplyView;

    open spec fn view(&self) -> ReplyView {
        ReplyView { actions: action_views(self.actions@), answer: self.answer }
    }
}

/// A reply that does nothing.
pub open spec fn quiet(answer: Answer) -> ReplyView {
    ReplyView { actions: Seq::empty(), answer }
}

/// A reply that does something and is answered 0.
pub open spec fn acted(actions: Seq<ActionView>) -> ReplyView {
    ReplyView { actions, answer: Answer::Value(0) }
}

impl StateView {
    /// Whether a press at the point grabs the slider of the monitor at `i`.
    pub open spec fn grabs(self, i: int, cx: int, cy: int, w: int) -> bool {
        &&& 0 <= i < self.monitors.len()
        &&& self.monitors[i].supported
        &&& on_slider(cx, cy, i, w)
    }

    /// Whether no slider before the one at `i` is grabbed.
    pub open spec fn none_before(self, i: int, cx: int, cy: int, w: int) -> bool {
        forall|j: int| 0 <= j < i ==> !#[trigger] self.grabs(j, cx, cy, w)
    }

    /// The first slider, from the one at `from` on, that a press at the point grabs.
    pub open spec fn grabbed(self, from: int, cx: int, cy: int, w: int) -> Option<int>
        decreases self.monitors.len() - from,
    {
        if from >= self.monitors.len() {
            None
        } else if self.grabs(from, cx, cy, w) {
            Some(from)
        } else {
            self.grabbed(from + 1, cx, cy, w)
        }
    }

    /// The state with another brightness of the monitor at `i`.
    pub open spec fn with_brightness(self, i: int, bri: int) -> StateView {
        StateView {
            monitors: self.monitors.update(
                i,
                MonitorView { brightness: bri as u32, ..self.monitors[i] },
            ),
            dragging: self.dragging,
        }
    }
}

/// The pointer's column in a mouse message.
pub open spec fn pointer_x(lparam: isize) -> int {
    low_i16(lparam as int)
}

/// The pointer's row in a mouse message.
pub open spec fn pointer_y(lparam: isize) -> int {
    low_i16(lparam as int / 0x1_0000)
}

/// The brightness that the pointer selects in a window `w` pixels wide.
pub open spec fn selected(cx: int, w: int) -> int {
    bri_at(cx, SLX0 as int, track_end(w))
}

/// The brightness of the monitor at `i` handed to its worker and shown.
pub open spec fn sent(i: int, bri: int) -> Seq<ActionView> {
    seq![
        ActionView::SendBrightness { monitor: i as usize, value: bri as u32 },
        ActionView::Redraw,
    ]
}

/// A press: the close button hides the window; a slider is grabbed and takes the
/// brightness under the pointer; anything else is left to the default procedure.
pub open spec fn press_reply(state: Option<StateView>, cx: int, cy: int, w: int) -> (
    Option<StateView>,
    ReplyView,
) {
    if in_close_btn(cx, cy, w) {
        (state, acted(seq![ActionView::Hide]))
    } else {
        match state {
            None => (state, quiet(Answer::Default)),
            Some(s) => match s.grabbed(0, cx, cy, w) {
                None => (state, quiet(Answer::Default)),
                Some(i) => (
                    Some(
                        StateView {
                            dragging: Some(i as usize),
                            ..s.with_brightness(i, selected(cx, w))
                        },
                    ),
                    acted(seq![ActionView::CaptureMouse] + sent(i, selected(cx, w))),
                ),
            },
        }
    }
}

/// A move: the slider being dragged takes the brightness under the pointer, if
/// that is another one.
pub open spec fn move_reply(state: Option<StateView>, cx: int, w: int) -> (
    Option<StateView>,
    ReplyView,
) {
    if state is Some && state->0.dragging is Some {
        let s = state->0;
        let i = s.dragging->0 as int;
        if selected(cx, w) != s.monitors[i].brightness {
            (Some(s.with_brightness(i, selected(cx, w))), acted(sent(i, selected(cx, w))))
        } else {
            (state, acted(Seq::empty()))
        }
    } else {
        (state, acted(Seq::empty()))
    }
}

/// What is given up of a panel when its window is destroyed: the channels to the
/// workers first, then the physical monitors and the fonts.
pub open spec fn teardown(s: StateView) -> Seq<ActionView> {
    seq![ActionView::CloseChannels] + s.monitors.map_values(
        |m: MonitorView| ActionView::DestroyMonitor(m.handle),
    ) + seq![
        ActionView::DeleteFont(Font::Title),
        ActionView::DeleteFont(Font::Name),
        ActionView::DeleteFont(Font::Percent),
    ]
}

/// How the window answers an event, and its state after it.
pub open spec fn step(state: Option<StateView>, event: Event) -> (Option<StateView>, ReplyView) {
    match event {
        Event::Paint { client } => (
            state,
            match state {
                Some(s) => acted(seq![ActionView::Paint(panel_view(s, client@))]),
                None => acted(Seq::empty()),
            },
        ),
        Event::LeftDown { lparam, client } => press_reply(
            state,
            pointer_x(lparam),
            pointer_y(lparam),
            client.right as int,
        ),
        Event::MouseMove { lparam, client } => move_reply(
            state,
            pointer_x(lparam),
            client.right as int,
        ),
        Event::LeftUp => (
            match state {
                Some(s) => Some(StateView { dragging: None, ..s }),
                None => None,
            },
            acted(seq![ActionView::ReleaseMouse]),
        ),
        Event::HitTest { lparam, default, window } => (
            state,
            quiet(
                Answer::Value(
                    if default == HTCLIENT && in_caption(
                        pointer_x(lparam),
                        pointer_y(lparam),
                        window,
                    ) {
                        HTCAPTION
                    } else {
                        default
                    },
                ),
            ),
        ),
        Event::Hotkey { wparam, visible } => (
            state,
            acted(
                if low_i32(wparam as int) != HOTKEY_ID {
                    Seq::empty()
                } else if visible {
                    seq![ActionView::Hide]
                } else {
                    seq![ActionView::Show, ActionView::Foreground]
                },
            ),
        ),
        Event::Destroy => (
            None,
            acted(
                seq![ActionView::UnregisterHotkey] + (match state {
                    Some(s) => teardown(s),
                    None => Seq::empty(),
                }) + seq![ActionView::Quit],
            ),
        ),
        Event::Other => (state, quiet(Answer::Default)),
    }
}

/// Whether answering the event involves only positions that can be computed in
/// 32 bits.
pub open spec fn step_defined(state: Option<StateView>, event: Event) -> bool {
    match event {
        Event::Paint { client } => state matches Some(s) ==> paintable(s, client@),
        Event::LeftDown { lparam, client } => press_defined(
            state,
            pointer_x(lparam),
            pointer_y(lparam),
            client.right as int,
        ),
        Event::MouseMove { lparam, client } => state matches Some(s) ==> s.dragging is Some
            ==> drag_defined(pointer_x(lparam), client.right as int),
        Event::HitTest { lparam, default, window } => default == HTCLIENT ==> caption_defined(
            pointer_x(lparam),
            pointer_y(lparam),
            window,
        ),
        _ => true,
    }
}

/// Whether answering the press can be done in 32 bits: that takes the close
/// button's place, and that of each slider up to the one that is grabbed.
pub open spec fn press_defined(state: Option<StateView>, cx: int, cy: int, w: int) -> bool {
    &&& cy < TITLE_H ==> fits_i32(w - CLOSE_W)
    &&& !in_close_btn(cx, cy, w) ==> (state matches Some(s) ==> forall|i: int|
        0 <= i < s.monitors.len() && #[trigger] s.monitors[i].supported && s.none_before(
            i,
            cx,
            cy,
            w,
        ) ==> slider_hit_defined(cx, cy, i, w))
}

/// Whether the brightness under the pointer can be computed in 32 bits.
pub open spec fn drag_defined(cx: int, w: int) -> bool {
    &&& fits_i32(track_end(w))
    &&& bri_defined(cx, SLX0 as int, track_end(w))
}

/// The panel's window. It has no state before its monitors are attached and once
/// it has been destroyed.
#[derive(Debug, PartialEq, Eq)]
pub struct Window {
    pub state: Option<AppState>,
}

/// The state of a window.
pub open spec fn window_view(state: Option<AppState>) -> Option<StateView> {
    match state {
        Some(s) => Some(s@),
        None => None,
    }
}

/// A window with a state has a well-formed one.
pub open spec fn window_wf(state: Option<StateView>) -> bool {
    state matches Some(s) ==> s.wf()
}

impl View for Window {
    type V = Option<StateView>;

    open spec fn view(&self) -> Option<StateView> {
        window_view(self.state)
    }
}

fn push_action(actions: &mut Vec<Action>, action: Action)
    ensures
        action_views(final(actions)@) == action_views(old(actions)@).push(action@),
{
    actions.push(action);
    assert(action_views(actions@) =~= action_views(old(actions)@).push(action@));
}

/// The slider grabbed by a press is the one found by searching from the first
/// index that was not ruled out.
proof fn lemma_grabbed_skips(s: StateView, from: int, i: int, cx: int, cy: int, w: int)
    requires
        0 <= from <= i <= s.monitors.len(),
        s.none_before(i, cx, cy, w),
    ensures
        s.grabbed(from, cx, cy, w) == s.grabbed(i, cx, cy, w),
    decreases i - from,
{
    if from < i {
        assert(!s.grabs(from, cx, cy, w));
        lemma_grabbed_skips(s, from + 1, i, cx, cy, w);
    }
}

impl AppState {
    fn set_brightness(&mut self, i: usize, bri: u32)
        requires
            i < old(self).monitors@.len(),
        ensures
            final(self)@ == old(self)@.with_brightness(i as int, bri as int),
    {
        let m: &mut MonitorInfo = &mut self.monitors[i];
        m.brightness = bri;
        assert(self@.monitors =~= old(self)@.with_brightness(i as int, bri as int).monitors);
    }

    /// The monitor whose slider a press at the point grabs.
    fn find_slider(&self, cx: i32, cy: i32, w: i32) -> (found: Option<usize>)
        requires
            !in_close_btn(cx as int, cy as int, w as int),
            press_defined(Some(self@), cx as int, cy as int, w as int),
        ensures
            match found {
                Some(i) => self@.grabbed(0, cx as int, cy as int, w as int) == Some(i as int)
                    && self@.grabs(i as int, cx as int, cy as int, w as int),
                None => self@.grabbed(0, cx as int, cy as int, w as int) is None,
            },
    {
        let ghost s = self@;
        for i in 0..self.monitors.len()
            invariant
                s == self@,
                !in_close_btn(cx as int, cy as int, w as int),
                press_defined(Some(s), cx as int, cy as int, w as int),
                s.none_before(i as int, cx as int, cy as int, w as int),
        {
            assert(s.monitors[i as int] == self.monitors@[i as int]@);
            if self.monitors[i].supported {
                assert(s.monitors[i as int].supported);
                if slider_hit(cx, cy, i, w) {
                    proof {
                        lemma_grabbed_skips(s, 0, i as int, cx as int, cy as int, w as int);
                        assert(s.grabs(i as int, cx as int, cy as int, w as int));
                    }
                    return Some(i);
                }
            }
            assert(!s.grabs(i as int, cx as int, cy as int, w as int));
        }
        proof {
            lemma_grabbed_skips(
                s,
                0,
                s.monitors.len() as int,
                cx as int,
                cy as int,
                w as int,
            );
        }
        None
    }
}

impl Window {
    /// A window without monitors attached.
    pub fn new() -> (window: Window)
        ensures
            window@ is None,
    {
        Window { state: None }
    }

    /// Attaches the monitors that the panel shows.
    pub fn attach(&mut self, monitors: Vec<MonitorInfo>)
        ensures
            final(self)@ == Some(
                StateView { monitors: monitor_views(monitors@), dragging: None },
            ),
    {
        self.state = Some(AppState::new(monitors));
    }

    fn press(&mut self, cx: i32, cy: i32, w: i32) -> (reply: Reply)
        requires
            -0x8000 <= cx < 0x8000,
            window_wf(old(self)@),
            press_defined(old(self)@, cx as int, cy as int, w as int),
        ensures
            (final(self)@, reply@) == press_reply(old(self)@, cx as int, cy as int, w as int),
    {
        let mut actions: Vec<Action> = Vec::new();
        assert(action_views(actions@) =~= Seq::empty());
        if close_btn_hit(cx, cy, w) {
            push_action(&mut actions, Action::Hide);
            assert(action_views(actions@) =~= seq![ActionView::Hide]);
            return Reply { actions, answer: Answer::Value(0) };
        }
        match &mut self.state {
            None => Reply { actions, answer: Answer::Default },
            Some(state) => {
                match state.find_slider(cx, cy, w) {
                    None => Reply { actions, answer: Answer::Default },
                    Some(i) => {
                        state.dragging = Some(i);
                        let bri: u32 = bri_from_x(cx, SLX0, slx1(w));
                        state.set_brightness(i, bri);
                        push_action(&mut actions, Action::CaptureMouse);
                        push_action(
                            &mut actions,
                            Action::SendBrightness { monitor: i, value: bri },
                        );
                        push_action(&mut actions, Action::Redraw);
                        assert(action_views(actions@) =~= seq![ActionView::CaptureMouse]
                            + sent(i as int, bri as int));
                        Reply { actions, answer: Answer::Value(0) }
                    },
                }
            },
        }
    }

    fn drag(&mut self, cx: i32, w: i32) -> (reply: Reply)
        requires
            window_wf(old(self)@),
            old(self)@ matches Some(s) ==> s.dragging is Some ==> drag_defined(
                cx as int,
                w as int,
            ),
        ensures
            (final(self)@, reply@) == move_reply(old(self)@, cx as int, w as int),
    {
        let mut actions: Vec<Action> = Vec::new();
        assert(action_views(actions@) =~= Seq::empty());
        if let Some(state) = &mut self.state {
            if let Some(i) = state.dragging {
                assert(state@.monitors[i as int] == state.monitors@[i as int]@);
                let bri: u32 = bri_from_x(cx, SLX0, slx1(w));
                if bri != state.monitors[i].brightness {
                    state.set_brightness(i, bri);
                    push_action(&mut actions, Action::SendBrightness { monitor: i, value: bri });
                    push_action(&mut actions, Action::Redraw);
                    assert(action_views(actions@) =~= sent(i as int, bri as int));
                }
            }
        }
        Reply { actions, answer: Answer::Value(0) }
    }

    fn destroy(&mut self) -> (reply: Reply)
        ensures
            (final(self)@, reply@) == step(old(self)@, Event::Destroy),
    {
        let mut actions: Vec<Action> = Vec::new();
        push_action(&mut actions, Action::UnregisterHotkey);
        let ghost start = action_views(actions@);
        assert(start =~= seq![ActionView::UnregisterHotkey]);
        if let Some(state) = &self.state {
            push_action(&mut actions, Action::CloseChannels);
            let ghost gone = state@.monitors.map_values(
                |m: MonitorView| ActionView::DestroyMonitor(m.handle),
            );
            let ghost before = action_views(actions@);
            assert(before =~= before + gone.take(0));
            for i in 0..state.monitors.len()
                invariant
                    gone == state@.monitors.map_values(
                        |m: MonitorView| ActionView::DestroyMonitor(m.handle),
                    ),
                    action_views(actions@) == before + gone.take(i as int),
            {
                push_action(&mut actions, Action::DestroyMonitor(state.monitors[i].handle));
                assert(action_views(actions@) =~= before + gone.take(i + 1));
            }
            assert(gone.take(gone.len() as int) =~= gone);
            push_action(&mut actions, Action::DeleteFont(Font::Title));
            push_action(&mut actions, Action::DeleteFont(Font::Name));
            push_action(&mut actions, Action::DeleteFont(Font::Percent));
            assert(action_views(actions@) =~= start + teardown(state@));
        }
        push_action(&mut actions, Action::Quit);
        self.state = None;
        let reply: Reply = Reply { actions, answer: Answer::Value(0) };
        assert(reply@.actions =~= step(old(self)@, Event::Destroy).1.actions);
        reply
    }

    /// Answers an event.
    pub fn wnd_proc(&mut self, event: Event) -> (reply: Reply)
        requires
            window_wf(old(self)@),
            step_defined(old(self)@, event),
        ensures
            (final(self)@, reply@) == step(old(self)@, event),
            window_wf(final(self)@),
    {
        proof {
            law_step_keeps_wf(self@, event);
        }
        let mut actions: Vec<Action> = Vec::new();
        assert(action_views(actions@) =~= Seq::empty());
        match event {
            Event::Paint { client } => {
                if let Some(state) = &self.state {
                    push_action(&mut actions, Action::Paint(on_paint(state, client)));
                    assert(action_views(actions@) =~= seq![
                        ActionView::Paint(panel_view(state@, client@)),
                    ]);
                }
                Reply { actions, answer: Answer::Value(0) }
            },
            Event::LeftDown { lparam, client } => {
                self.press(lparam_x(lparam), lparam_y(lparam), client.right)
            },
            Event::MouseMove { lparam, client } => self.drag(lparam_x(lparam), client.right),
            Event::LeftUp => {
                if let Some(state) = &mut self.state {
                    state.dragging = None;
                }
                push_action(&mut actions, Action::ReleaseMouse);
                assert(action_views(actions@) =~= seq![ActionView::ReleaseMouse]);
                Reply { actions, answer: Answer::Value(0) }
            },
            Event::HitTest { lparam, default, window } => {
                let answer: isize = if default == HTCLIENT && caption_hit(
                    lparam_x(lparam),
                    lparam_y(lparam),
                    window,
                ) {
                    HTCAPTION
                } else {
                    default
                };
                Reply { actions, answer: Answer::Value(answer) }
            },
            Event::Hotkey { wparam, visible } => {
                if wrap_usize(wparam) == HOTKEY_ID {
                    if visible {
                        push_action(&mut actions, Action::Hide);
                        assert(action_views(actions@) =~= seq![ActionView::Hide]);
                    } else {
                        push_action(&mut actions, Action::Show);
                        push_action(&mut actions, Action::Foreground);
                        assert(action_views(actions@) =~= seq![
                            ActionView::Show,
                            ActionView::Foreground,
                        ]);
                    }
                }
                Reply { actions, answer: Answer::Value(0) }
            },
            Event::Destroy => self.destroy(),
            Event::Other => Reply { actions, answer: Answer::Default },
        }
    }
}

/// Every event keeps the window well-formed: brightness stays in range, and only
/// the slider of a monitor that exists and can be controlled is dragged.
pub proof fn law_step_keeps_wf(state: Option<StateView>, event: Event)
    requires
        window_wf(state),
    ensures
        window_wf(step(state, event).0),
{
    match event {
        Event::LeftDown { lparam, client } => {
            let cx = pointer_x(lparam);
            let cy = pointer_y(lparam);
            let w = client.right as int;
            law_bri_in_percent(cx, SLX0 as int, track_end(w));
            if state is Some {
                law_grabbed_is_first(state->0, cx, cy, w);
            }
        },
        Event::MouseMove { lparam, client } => {
            law_bri_in_percent(pointer_x(lparam), SLX0 as int, track_end(client.right as int));
        },
        _ => {},
    }
}

/// The slider grabbed by a press is the first that the point is on; none is
/// grabbed only where the point is on none.
pub proof fn law_grabbed_is_first(s: StateView, cx: int, cy: int, w: int)
    ensures
        match s.grabbed(0, cx, cy, w) {
            Some(i) => s.grabs(i, cx, cy, w) && s.none_before(i, cx, cy, w),
            None => s.none_before(s.monitors.len() as int, cx, cy, w),
        },
{
    lemma_grabbed_from(s, 0, cx, cy, w);
}

proof fn lemma_grabbed_from(s: StateView, from: int, cx: int, cy: int, w: int)
    requires
        0 <= from,
        s.none_before(from, cx, cy, w),
    ensures
        match s.grabbed(from, cx, cy, w) {
            Some(i) => s.grabs(i, cx, cy, w) && s.none_before(i, cx, cy, w),
            None => s.none_before(s.monitors.len() as int, cx, cy, w),
        },
    decreases s.monitors.len() - from,
{
    if from < s.monitors.len() && !s.grabs(from, cx, cy, w) {
        lemma_grabbed_from(s, from + 1, cx, cy, w);
    }
}

/// The views hold what the values hold.
pub proof fn law_reply_view(
    reply: Reply,
    actions: Seq<Action>,
    ops: Vec<PaintOp>,
    monitor: usize,
    value: u32,
    font: Font,
    window: Window,
)
    ensures
        (Action::Paint(ops))@ == ActionView::Paint(paint_views(ops@)),
        (Action::Hide)@ == ActionView::Hide,
        (Action::Show)@ == ActionView::Show,
        (Action::Foreground)@ == ActionView::Foreground,
        (Action::CaptureMouse)@ == ActionView::CaptureMouse,
        (Action::ReleaseMouse)@ == ActionView::ReleaseMouse,
        (Action::SendBrightness { monitor, value })@ == (ActionView::SendBrightness {
            monitor,
            value,
        }),
        (Action::Redraw)@ == ActionView::Redraw,
        (Action::UnregisterHotkey)@ == ActionView::UnregisterHotkey,
        (Action::CloseChannels)@ == ActionView::CloseChannels,
        (Action::DestroyMonitor(monitor))@ == ActionView::DestroyMonitor(monitor),
        (Action::DeleteFont(font))@ == ActionView::DeleteFont(font),
        (Action::Quit)@ == ActionView::Quit,
        action_views(actions).len() == actions.len(),
        forall|k: int|
            0 <= k < actions.len() ==> #[trigger] action_views(actions)[k] == actions[k]@,
        reply@.actions == action_views(reply.actions@),
        reply@.answer == reply.answer,
        window.state is None <==> window@ is None,
        window.state matches Some(s) ==> window@ == Some(s@),
{
}

} // verus!
