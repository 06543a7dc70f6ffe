//! Pan, zoom and the interaction state machine.

use pico_plot::app::App;
use pico_plot::config::Config;

fn fresh() -> App {
    App::new(&Config::default())
}

const SEC: i64 = 1_000_000;

// width 1070 with the full 70-pixel left pad leaves a 1000-pixel plot;
// height 1035 with the 35-pixel bottom pad likewise.
const W: u32 = 1070;
const H: u32 = 1035;

#[test]
fn mouse_move_without_buttons_only_tracks_position() {
    let mut app = fresh();
    let redraw = app.on_mouse_move(500, 400, W, H);
    assert!(!redraw);
    assert_eq!(app.mx, 500);
    assert_eq!(app.my, 400);
    assert_eq!(app.x, 0);
    assert_eq!(app.y, -140_000_000);
}

#[test]
fn drag_pans_by_pixel_delta_times_scale() {
    let mut app = fresh();
    app.on_mouse_left_down();
    assert!(app.ml);
    let redraw = app.on_mouse_move(10, 20, W, H);
    assert!(redraw);
    // x -= dx * w / 1000 = 10 * 300 s / 1000 = 3 s
    assert_eq!(app.x, -3 * SEC);
    // y += dy * h / 1000 = 20 * 160 pA / 1000 = 3.2 pA
    assert_eq!(app.y, -140_000_000 + 3_200_000);
    app.on_mouse_left_up();
    assert!(!app.ml);
}

#[test]
fn drag_with_flip_inverts_value_axis() {
    let mut app = fresh();
    app.on_key_down(89); // flip
    assert!(app.vertical_flip);
    app.on_mouse_right_down();
    app.on_mouse_move(0, 10, W, H);
    assert_eq!(app.y, -140_000_000 - 1_600_000);
    app.on_mouse_right_up();
    assert!(!app.mr);
}

#[test]
fn any_button_engages_dragging() {
    let mut app = fresh();
    app.on_mouse_middle_down();
    assert!(app.on_mouse_move(1, 0, W, H));
    app.on_mouse_middle_up();
    assert!(!app.on_mouse_move(2, 0, W, H));
}

#[test]
fn plain_scroll_pans_time_axis() {
    let mut app = fresh();
    let redraw = app.on_scroll(120, W, H);
    assert!(redraw);
    // x -= 500 * 120 * w / (2000 * 1000) = 9 s
    assert_eq!(app.x, -9 * SEC);
    assert_eq!(app.w, 300 * SEC);
}

#[test]
fn shift_scroll_zooms_time_axis() {
    let mut app = fresh();
    app.on_mouse_move(500, 500, W, H);
    app.on_key_down(16); // shift
    app.on_scroll(200, W, H);
    // w' = w * (2000 - 200) / 2000 = 270 s
    assert_eq!(app.w, 270 * SEC);
    // anchor at px = 430: x' = (0 + 430*300s/1000) - 430*270s/1000
    assert_eq!(app.x, 129 * SEC - 116_100_000);
    app.on_key_up(16);
    assert!(!app.shift);
}

#[test]
fn shift_scroll_preserves_anchor_exactly() {
    let mut app = fresh();
    app.on_mouse_move(637, 200, W, H);
    app.on_key_down(16);
    let px = (app.mx - 70) as i128;
    let before = app.x as i128 + px * app.w as i128 / 1000;
    app.on_scroll(150, W, H);
    let after = app.x as i128 + px * app.w as i128 / 1000;
    assert_eq!(before, after);
    // and again zooming out
    app.on_scroll(-300, W, H);
    let out = app.x as i128 + px * app.w as i128 / 1000;
    assert_eq!(before, out);
}

#[test]
fn ctrl_scroll_zooms_value_axis() {
    let mut app = fresh();
    app.on_mouse_move(500, 500, W, H);
    app.on_key_down(17); // ctrl
    app.on_scroll(200, W, H);
    assert_eq!(app.h, 144_000_000);
    // anchor at py = 1035 - 500 - 35 = 500 pixels from the bottom:
    // y' = (-140 pA + 500*160/1000 pA) - 500*144/1000 pA = -132 pA
    assert_eq!(app.y, -132_000_000);
    app.on_key_up(17);
    assert!(!app.ctrl);
}

#[test]
fn spans_stay_positive_under_extreme_zooming() {
    let mut app = fresh();
    app.on_key_down(16);
    // the strongest zoom-in notch would scale by (2000 - 32767)/2000
    app.on_scroll(32767, W, H);
    assert!(app.w > 0);
    assert_eq!(app.w, 1);
    app.on_key_up(16);
    app.on_key_down(17);
    for _ in 0..50 {
        app.on_scroll(1999, W, H);
    }
    assert!(app.h > 0);
    app.on_scroll(-32768, W, H);
    assert!(app.h > 0);
}

#[test]
fn minimal_toggle_changes_pads_and_scales() {
    let mut app = fresh();
    assert_eq!(app.get_left_pad(), 70);
    assert_eq!(app.get_bottom_pad(), 35);
    assert_eq!(app.x_scale_factor(W), 300 * SEC / 1000);
    app.on_key_down(73);
    assert!(app.minimal);
    assert_eq!(app.get_left_pad(), 45);
    assert_eq!(app.get_bottom_pad(), 0);
    assert_eq!(app.x_scale_factor(W), 300 * SEC / 1025);
    assert_eq!(app.y_scale_factor(H), 160_000_000 / 1035);
}

#[test]
fn axis_ranges_follow_flip_toggle() {
    let mut app = fresh();
    assert_eq!(app.time_axis_range(), (0, 300 * SEC));
    assert_eq!(app.value_axis_range(), (-140_000_000, 20_000_000));
    app.on_key_down(89);
    assert_eq!(app.value_axis_range(), (20_000_000, -140_000_000));
}

#[test]
fn palette_keys_swap_colors() {
    let mut app = fresh();
    app.on_key_down(76);
    assert_eq!((app.bg_color.red, app.bg_color.green, app.bg_color.blue), (255, 255, 255));
    assert_eq!((app.fg_color.red, app.fg_color.green, app.fg_color.blue), (0, 0, 0));
    app.on_key_down(83);
    assert_eq!((app.bg_color.red, app.bg_color.green, app.bg_color.blue), (255, 239, 207));
    app.on_key_down(68);
    assert_eq!((app.bg_color.red, app.bg_color.green, app.bg_color.blue), (0, 0, 0));
    assert_eq!((app.fg_color.red, app.fg_color.green, app.fg_color.blue), (255, 255, 255));
    assert_eq!((app.data_color.red, app.data_color.green, app.data_color.blue), (255, 0, 0));
}

#[test]
fn space_requests_reset_and_reset_restores_defaults() {
    let mut app = fresh();
    app.append_sample(305 * SEC, -120_000_000);
    app.on_key_down(70); // follow off
    app.on_scroll(120, W, H); // pan somewhere
    let action = app.on_key_down(32);
    assert_eq!(action, pico_plot::app::KeyAction::ResetRequested);
    let cfg = Config::default();
    app.reset_view(&cfg);
    assert!(app.follow);
    assert_eq!(app.w, 300 * SEC);
    assert_eq!(app.h, 160_000_000);
    assert_eq!(app.y, -140_000_000);
    // x = max(0, last sample time - w + 1 s) = 6 s
    assert_eq!(app.x, 6 * SEC);
}

#[test]
fn reset_on_empty_log_goes_to_origin() {
    let mut app = fresh();
    app.x = 50 * SEC;
    let cfg = Config::default();
    app.reset_view(&cfg);
    assert_eq!(app.x, 0);
}

#[test]
fn timer_cadence_helpers() {
    let mut app = fresh();
    assert_eq!(app.timer_interval_ms(), 500);
    app.note_request(0);
    assert!(!app.needs_timer_restart(5_000_000));
    assert!(app.needs_timer_restart(5_000_001));
}
