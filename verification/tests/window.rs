use brightness_ctrl::checks::{caption_fits, drag_fits, press_fits, section_fits, slider_hit_fits};
use brightness_ctrl::geometry::Rect;
use brightness_ctrl::monitor::{AppState, MonitorInfo};
use brightness_ctrl::paint::{on_paint, Font, PaintOp};
use brightness_ctrl::window::{
    Action, Answer, Event, Message, Reply, Window, HOTKEY_ID, HTCAPTION, HTCLIENT,
};

const CLIENT: Rect = Rect { left: 0, top: 0, right: 420, bottom: 400 };

fn monitor(handle: usize, brightness: u32, supported: bool) -> MonitorInfo {
    MonitorInfo { handle, name: format!("Monitor {}", handle), brightness, supported }
}

/// Controllable monitors at 0 and 2, and one that is not between them.
fn panel() -> Window {
    let mut window = Window::new();
    window.attach(vec![monitor(7, 40, true), monitor(8, 0, false), monitor(9, 60, true)]);
    window
}

fn at(x: i16, y: i16) -> isize {
    (((y as u16 as u32) << 16) | x as u16 as u32) as isize
}

fn send(window: &mut Window, event: Event) -> Reply {
    assert!(window.accepts(&event));
    window.wnd_proc(event)
}

fn press(window: &mut Window, x: i16, y: i16) -> Reply {
    send(window, Event::LeftDown { lparam: at(x, y), client: CLIENT })
}

fn drag(window: &mut Window, x: i16, y: i16) -> Reply {
    send(window, Event::MouseMove { lparam: at(x, y), client: CLIENT })
}

fn zero(actions: Vec<Action>) -> Reply {
    Reply { actions, answer: Answer::Value(0) }
}

fn default() -> Reply {
    Reply { actions: vec![], answer: Answer::Default }
}

fn brightness(window: &Window) -> Vec<u32> {
    window.state.as_ref().unwrap().monitors.iter().map(|m| m.brightness).collect()
}

fn dragging(window: &Window) -> Option<usize> {
    window.state.as_ref().unwrap().dragging
}

#[test]
fn message_codes() {
    assert_eq!(Message::decode(0x000f), Message::Paint);
    assert_eq!(Message::decode(0x0201), Message::LeftDown);
    assert_eq!(Message::decode(0x0200), Message::MouseMove);
    assert_eq!(Message::decode(0x0202), Message::LeftUp);
    assert_eq!(Message::decode(0x0084), Message::HitTest);
    assert_eq!(Message::decode(0x0312), Message::Hotkey);
    assert_eq!(Message::decode(0x0002), Message::Destroy);
    assert_eq!(Message::decode(0), Message::Other);
    assert_eq!(Message::decode(0x0203), Message::Other);
}

#[test]
fn painting_shows_the_state() {
    let mut window = panel();
    let expected = on_paint(window.state.as_ref().unwrap(), CLIENT);
    assert_eq!(
        send(&mut window, Event::Paint { client: CLIENT }),
        zero(vec![Action::Paint(expected)])
    );
    assert_eq!(window, panel());
}

#[test]
fn painting_again_draws_the_same() {
    let mut window = panel();
    let first = send(&mut window, Event::Paint { client: CLIENT });
    assert_eq!(send(&mut window, Event::Paint { client: CLIENT }), first);
    match &first.actions[..] {
        [Action::Paint(ops)] => {
            let restores = ops.iter().filter(|op| **op == PaintOp::RestoreFont).count();
            assert_eq!(restores, 1);
            assert_eq!(ops.last(), Some(&PaintOp::RestoreFont));
            assert_eq!(ops[3], PaintOp::SelectFont(Font::Title));
        }
        _ => panic!("painting does nothing else"),
    }
}

#[test]
fn painting_without_state_does_nothing() {
    assert_eq!(send(&mut Window::new(), Event::Paint { client: CLIENT }), zero(vec![]));
}

#[test]
fn close_button_hides() {
    let mut window = panel();
    assert_eq!(press(&mut window, 400, 10), zero(vec![Action::Hide]));
    assert_eq!(window, panel());
    assert_eq!(press(&mut Window::new(), 400, 10), zero(vec![Action::Hide]));
}

#[test]
fn pressing_a_slider_grabs_it() {
    let mut window = panel();
    assert_eq!(
        press(&mut window, 210, 350),
        zero(vec![
            Action::CaptureMouse,
            Action::SendBrightness { monitor: 2, value: 50 },
            Action::Redraw,
        ])
    );
    assert_eq!(brightness(&window), vec![40, 0, 50]);
    assert_eq!(dragging(&window), Some(2));
}

#[test]
fn pressing_sends_an_unchanged_brightness_too() {
    let mut window = panel();
    // 40 percent of the track is at 174.
    assert_eq!(
        press(&mut window, 174, 130),
        zero(vec![
            Action::CaptureMouse,
            Action::SendBrightness { monitor: 0, value: 40 },
            Action::Redraw,
        ])
    );
}

#[test]
fn pressing_elsewhere_is_left_to_the_default() {
    let mut window = panel();
    // The second monitor cannot be controlled.
    assert_eq!(press(&mut window, 210, 240), default());
    assert_eq!(press(&mut window, 210, 180), default());
    assert_eq!(press(&mut window, 100, 10), default());
    assert_eq!(window, panel());
    assert_eq!(press(&mut Window::new(), 210, 130), default());
}

#[test]
fn dragging_follows_the_pointer() {
    let mut window = panel();
    press(&mut window, 210, 130);
    assert_eq!(
        drag(&mut window, 246, -300),
        zero(vec![Action::SendBrightness { monitor: 0, value: 60 }, Action::Redraw])
    );
    assert_eq!(brightness(&window), vec![60, 0, 60]);
    // Holding still sends nothing.
    assert_eq!(drag(&mut window, 246, 17), zero(vec![]));
    // Beyond the ends the brightness stays in range.
    drag(&mut window, -500, 130);
    assert_eq!(brightness(&window), vec![1, 0, 60]);
    drag(&mut window, 5000, 130);
    assert_eq!(brightness(&window), vec![100, 0, 60]);
    assert_eq!(dragging(&window), Some(0));
}

#[test]
fn releasing_ends_the_drag() {
    let mut window = panel();
    press(&mut window, 210, 130);
    assert_eq!(send(&mut window, Event::LeftUp), zero(vec![Action::ReleaseMouse]));
    assert_eq!(dragging(&window), None);
    assert_eq!(drag(&mut window, 300, 130), zero(vec![]));
    assert_eq!(brightness(&window), vec![50, 0, 60]);
}

#[test]
fn moving_without_a_drag_does_nothing() {
    let mut window = panel();
    assert_eq!(drag(&mut window, 300, 130), zero(vec![]));
    assert_eq!(window, panel());
    assert_eq!(drag(&mut Window::new(), 300, 130), zero(vec![]));
}

#[test]
fn releasing_without_state_releases_the_mouse() {
    let mut window = Window::new();
    assert_eq!(send(&mut window, Event::LeftUp), zero(vec![Action::ReleaseMouse]));
    assert_eq!(window, Window::new());
}

#[test]
fn only_the_dragged_brightness_changes() {
    let mut window = panel();
    press(&mut window, 300, 350);
    drag(&mut window, 100, 350);
    send(&mut window, Event::LeftUp);
    let state = window.state.unwrap();
    assert_eq!(state.monitors, vec![monitor(7, 40, true), monitor(8, 0, false), monitor(9, 19, true)]);
}

#[test]
fn hit_test_of_the_title_bar() {
    let window = Rect { left: 100, top: 200, right: 520, bottom: 600 };
    let test = |x: i16, y: i16, default: isize| {
        send(&mut panel(), Event::HitTest { lparam: at(x, y), default, window })
    };
    let value = |v: isize| Reply { actions: vec![], answer: Answer::Value(v) };
    assert_eq!(test(110, 210, HTCLIENT), value(HTCAPTION));
    assert_eq!(test(500, 210, HTCLIENT), value(HTCLIENT));
    assert_eq!(test(110, 260, HTCLIENT), value(HTCLIENT));
    assert_eq!(test(110, 210, 0), value(0));
    assert_eq!(test(110, 210, -2), value(-2));
    assert_eq!(HTCLIENT, 1);
    assert_eq!(HTCAPTION, 2);
}

#[test]
fn hotkey_toggles_the_window() {
    let key = |wparam: usize, visible: bool| {
        send(&mut panel(), Event::Hotkey { wparam, visible })
    };
    assert_eq!(HOTKEY_ID, 1);
    assert_eq!(key(1, true), zero(vec![Action::Hide]));
    assert_eq!(key(1, false), zero(vec![Action::Show, Action::Foreground]));
    assert_eq!(key(2, true), zero(vec![]));
    assert_eq!(key(0, false), zero(vec![]));
}

#[test]
fn destroying_gives_everything_up() {
    let mut window = panel();
    assert_eq!(
        send(&mut window, Event::Destroy),
        zero(vec![
            Action::UnregisterHotkey,
            Action::CloseChannels,
            Action::DestroyMonitor(7),
            Action::DestroyMonitor(8),
            Action::DestroyMonitor(9),
            Action::DeleteFont(Font::Title),
            Action::DeleteFont(Font::Name),
            Action::DeleteFont(Font::Percent),
            Action::Quit,
        ])
    );
    assert_eq!(window, Window::new());
    assert_eq!(
        send(&mut window, Event::Destroy),
        zero(vec![Action::UnregisterHotkey, Action::Quit])
    );
}

#[test]
fn other_messages_are_left_to_the_default() {
    let mut window = panel();
    assert_eq!(send(&mut window, Event::Other), default());
    assert_eq!(window, panel());
}

#[test]
fn brightness_stays_in_range_over_many_events() {
    let mut window = panel();
    for k in 0..2000i32 {
        let x = (k * 7919 % 1200 - 300) as i16;
        let y = (k * 104_729 % 500 - 50) as i16;
        match k % 4 {
            0 => {
                press(&mut window, x, y);
            }
            3 => {
                send(&mut window, Event::LeftUp);
            }
            _ => {
                drag(&mut window, x, y);
            }
        }
        let b = brightness(&window);
        assert!(1 <= b[0] && b[0] <= 100 && b[1] == 0 && 1 <= b[2] && b[2] <= 100);
    }
}

#[test]
fn the_panel_shows_what_was_last_sent() {
    let mut window = panel();
    let mut shown = vec![40, 0, 60];
    for k in 0..500i32 {
        let x = (k * 7919 % 500) as i16;
        let y = (k * 104_729 % 450) as i16;
        let reply = match k % 5 {
            0 | 1 => press(&mut window, x, y),
            4 => send(&mut window, Event::LeftUp),
            _ => drag(&mut window, x, y),
        };
        for action in reply.actions {
            if let Action::SendBrightness { monitor, value } = action {
                shown[monitor] = value;
            }
        }
        assert_eq!(brightness(&window), shown);
    }
    assert_ne!(shown, vec![40, 0, 60]);
}

#[test]
fn positions_out_of_range_are_not_accepted() {
    let wide = Rect { left: 0, top: 0, right: 30_000_000, bottom: 400 };
    let narrow = Rect { left: 0, top: 0, right: i32::MIN, bottom: 400 };
    let mut window = panel();
    // 40 percent of the track still fits, 60 and more do not always.
    assert!(window.accepts(&Event::Paint { client: wide }));
    assert!(!window.accepts(&Event::Paint { client: narrow }));
    assert!(!window.accepts(&Event::LeftDown { lparam: at(0, 0), client: narrow }));
    assert!(window.accepts(&Event::LeftDown { lparam: at(0, 300), client: narrow }));
    assert!(!window.accepts(&Event::LeftDown { lparam: at(100, 300), client: narrow }));
    // Without a drag the width does not matter.
    assert!(window.accepts(&Event::MouseMove { lparam: at(0, 0), client: narrow }));
    press(&mut window, 210, 130);
    assert!(!window.accepts(&Event::MouseMove { lparam: at(0, 0), client: narrow }));
    assert!(window.accepts(&Event::MouseMove { lparam: at(0, 0), client: wide }));
    let far = Rect { left: i32::MIN, top: 0, right: 0, bottom: 0 };
    assert!(!window.accepts(&Event::HitTest { lparam: at(0, 0), default: HTCLIENT, window: far }));
    assert!(window.accepts(&Event::HitTest { lparam: at(0, 0), default: 0, window: far }));
}

#[test]
fn range_tests() {
    assert!(slider_hit_fits(0, 0, 19_522_576, 420));
    assert!(!slider_hit_fits(0, 0, 19_522_578, 420));
    assert!(!slider_hit_fits(100, -200_000, 19_522_575, 420));
    assert!(slider_hit_fits(10, -200_000, 19_522_575, i32::MIN));
    assert!(drag_fits(32_767, 420));
    assert!(!drag_fits(0, -21_474_777));
    assert!(drag_fits(0, -21_474_776));
    let window = Rect { left: 2, top: i32::MIN, right: 0, bottom: 0 };
    assert!(!caption_fits(0, 0, window));
    assert!(caption_fits(0, -1, window));
    assert!(press_fits(&None, 100, 100, i32::MIN));
    assert!(!press_fits(&None, 100, 10, i32::MIN));
    assert!(!press_fits(&Some(AppState::new(vec![monitor(1, 1, true)])), 100, 100, i32::MIN));
    assert!(section_fits(&monitor(1, 100, true), 0, 21_474_896));
    assert!(!section_fits(&monitor(1, 100, true), 0, 21_474_897));
}
