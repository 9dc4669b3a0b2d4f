use brightness_ctrl::arith::{lparam_x, lparam_y, wrap_u32, wrap_usize};
use brightness_ctrl::geometry::{
    bri_from_x, caption_hit, close_btn_hit, initial_placement, panel_fits, section_top,
    slider_hit, slx1, thumb_x, window_height, Placement, Rect, SLX0, WIN_W,
};

fn packed(x: i16, y: i16) -> isize {
    (((y as u16 as u32) << 16) | x as u16 as u32) as isize
}

#[test]
fn track_ends_before_the_right_edge() {
    assert_eq!(SLX0, 30);
    assert_eq!(slx1(WIN_W), 390);
    assert_eq!(slx1(0), -30);
}

#[test]
fn thumb_positions() {
    assert_eq!(thumb_x(0, 30, 390), 30);
    assert_eq!(thumb_x(1, 30, 390), 33);
    assert_eq!(thumb_x(50, 30, 390), 210);
    assert_eq!(thumb_x(99, 30, 390), 386);
    assert_eq!(thumb_x(100, 30, 390), 390);
}

#[test]
fn thumb_rounds_towards_zero() {
    // The brightness is read as a signed number.
    assert_eq!(thumb_x(u32::MAX, 30, 390), 27);
    // A track that runs backwards.
    assert_eq!(thumb_x(50, 10, 5), 8);
}

#[test]
fn brightness_under_the_pointer() {
    assert_eq!(bri_from_x(210, 30, 390), 50);
    assert_eq!(bri_from_x(34, 30, 390), 1);
    assert_eq!(bri_from_x(38, 30, 390), 2);
    assert_eq!(bri_from_x(389, 30, 390), 99);
    assert_eq!(bri_from_x(390, 30, 390), 100);
}

#[test]
fn brightness_is_a_percentage_beyond_the_ends() {
    assert_eq!(bri_from_x(30, 30, 390), 1);
    assert_eq!(bri_from_x(33, 30, 390), 1);
    assert_eq!(bri_from_x(-32768, 30, 390), 1);
    assert_eq!(bri_from_x(391, 30, 390), 100);
    assert_eq!(bri_from_x(32767, 30, 390), 100);
}

#[test]
fn brightness_on_a_track_without_length() {
    assert_eq!(bri_from_x(5, 5, 5), 1);
    assert_eq!(bri_from_x(7, 10, 5), 1);
    assert_eq!(bri_from_x(500, 30, -30), 1);
}

#[test]
fn thumb_and_brightness_are_monotone() {
    for bri in 1..=100u32 {
        assert!(thumb_x(bri - 1, 30, 390) <= thumb_x(bri, 30, 390));
    }
    for cx in 1..500i32 {
        assert!(bri_from_x(cx - 1, 30, 390) <= bri_from_x(cx, 30, 390));
    }
}

#[test]
fn pressing_the_thumb_keeps_the_brightness_or_steps_down() {
    for bri in 1..=100u32 {
        let back = bri_from_x(thumb_x(bri, 30, 390), 30, 390);
        let expected = if (bri * 360) % 100 == 0 { bri } else { (bri - 1).max(1) };
        assert_eq!(back, expected);
    }
}

#[test]
fn thumb_follows_the_pointer() {
    for cx in 30..=390i32 {
        let d = thumb_x(bri_from_x(cx, 30, 390), 30, 390) - cx;
        assert!(-460 < 100 * d && 100 * d < 460);
        assert!((cx - 30) * 100 < 360 || d <= 0);
    }
}

#[test]
fn close_button() {
    assert!(close_btn_hit(371, 49, 420));
    assert!(!close_btn_hit(370, 49, 420));
    assert!(!close_btn_hit(400, 50, 420));
    assert!(close_btn_hit(400, -5, 420));
    // Below the title bar the width does not matter.
    assert!(!close_btn_hit(0, 50, i32::MIN));
}

#[test]
fn slider_columns() {
    assert!(slider_hit(20, 130, 0, 420));
    assert!(!slider_hit(19, 130, 0, 420));
    assert!(slider_hit(400, 130, 0, 420));
    assert!(!slider_hit(401, 130, 0, 420));
}

#[test]
fn slider_rows() {
    assert!(slider_hit(200, 110, 0, 420));
    assert!(slider_hit(200, 150, 0, 420));
    assert!(!slider_hit(200, 109, 0, 420));
    assert!(!slider_hit(200, 151, 0, 420));
    assert!(slider_hit(200, 240, 1, 420));
    assert!(!slider_hit(200, 240, 0, 420));
}

#[test]
fn sliders_do_not_overlap() {
    for cy in 0..1000i32 {
        let hits = (0..8usize).filter(|i| slider_hit(200, cy, *i, 420)).count();
        assert!(hits <= 1);
        assert!(hits == 0 || !close_btn_hit(200, cy, 220));
    }
}

#[test]
fn section_positions() {
    assert_eq!(section_top(0), 70);
    assert_eq!(section_top(1), 180);
    // The index is cut to 32 bits.
    assert_eq!(section_top(0xffff_ffff), -40);
}

#[test]
fn caption() {
    let window = Rect { left: 100, top: 200, right: 520, bottom: 380 };
    assert!(caption_hit(100, 200, window));
    assert!(caption_hit(469, 249, window));
    assert!(!caption_hit(470, 249, window));
    assert!(!caption_hit(100, 199, window));
    assert!(!caption_hit(100, 250, window));
    // Left of the window still counts.
    assert!(caption_hit(0, 210, window));
}

#[test]
fn title_bar_is_caption_or_close_button() {
    let window = Rect { left: 100, top: 200, right: 520, bottom: 380 };
    for sx in 100..520i32 {
        let caption = caption_hit(sx, 220, window);
        let close = close_btn_hit(sx - 100, 20, 420);
        assert!(!(caption && close));
        assert_eq!(caption || close, sx - 100 != 370);
    }
}

#[test]
fn window_heights() {
    assert_eq!(window_height(0), 180);
    assert_eq!(window_height(1), 180);
    assert_eq!(window_height(3), 400);
}

#[test]
fn most_monitors_that_fit() {
    assert!(panel_fits(0));
    assert!(panel_fits(19_522_577));
    assert!(!panel_fits(19_522_578));
    assert!(!panel_fits(usize::MAX));
    assert_eq!(window_height(19_522_577), 2_147_483_540);
}

#[test]
fn window_is_centred() {
    assert_eq!(
        initial_placement(1920, 1080, 2),
        Placement { x: 750, y: 395, width: 420, height: 290 }
    );
    // Odd differences round towards zero.
    assert_eq!(
        initial_placement(419, 175, 0),
        Placement { x: 0, y: -2, width: 420, height: 180 }
    );
}

#[test]
fn sections_are_inside_the_window() {
    for i in 0..5usize {
        assert!(section_top(i) >= 70);
        assert!(section_top(i) - 20 + 110 <= window_height(5) - 20);
    }
}

#[test]
fn pointer_coordinates_are_signed_words() {
    let samples: [i16; 6] = [0, 1, -1, 420, i16::MAX, i16::MIN];
    for x in samples {
        for y in samples {
            assert_eq!(lparam_x(packed(x, y)), x as i32);
            assert_eq!(lparam_y(packed(x, y)), y as i32);
        }
    }
    assert_eq!(lparam_x(-1), -1);
    assert_eq!(lparam_y(-1), -1);
}

#[test]
fn numbers_are_cut_to_32_bits() {
    assert_eq!(wrap_u32(7), 7);
    assert_eq!(wrap_u32(0x8000_0000), i32::MIN);
    assert_eq!(wrap_usize(1), 1);
    assert_eq!(wrap_usize(0xffff_fffe), -2);
}

#[test]
fn every_brightness_can_be_selected() {
    for len in [100, 101, 199, 360] {
        for bri in 1..=100u32 {
            assert!((30..=30 + len).any(|cx| bri_from_x(cx, 30, 30 + len) == bri));
        }
    }
}
