//! The byte queue, framing and the sample log, driven through
//! `App::ingest_bytes`.

use pico_plot::app::App;
use pico_plot::config::Config;

fn fresh() -> App {
    App::new(&Config::default())
}

const SEC: i64 = 1_000_000;

#[test]
fn two_frames_in_one_read() {
    let mut app = fresh();
    app.ingest_bytes(&b"1.23e-10\r4.56e-10\r".to_vec(), 10 * SEC);
    assert_eq!(app.data.len(), 2);
    assert_eq!(app.data[0].value, 123_000_000);
    assert_eq!(app.data[1].value, 456_000_000);
    assert_eq!(app.data[0].time, 10 * SEC);
    assert_eq!(app.data[1].time, 10 * SEC);
    assert!(app.buffer.is_empty());
}

#[test]
fn malformed_frame_yields_no_sample() {
    let mut app = fresh();
    app.ingest_bytes(&b"garbage\r1.0e-10\r".to_vec(), 3 * SEC);
    assert_eq!(app.data.len(), 1);
    assert_eq!(app.data[0].value, 100_000_000);
    assert!(app.buffer.is_empty());
}

#[test]
fn frame_split_across_reads() {
    let mut one = fresh();
    one.ingest_bytes(&b"1.5".to_vec(), SEC);
    assert_eq!(one.data.len(), 0);
    assert_eq!(one.buffer, b"1.5".to_vec());
    one.ingest_bytes(&b"e-9\r".to_vec(), 2 * SEC);

    let mut whole = fresh();
    whole.ingest_bytes(&b"1.5e-9\r".to_vec(), 2 * SEC);

    assert_eq!(one.data.len(), 1);
    assert_eq!(whole.data.len(), 1);
    assert_eq!(one.data[0].value, whole.data[0].value);
    assert_eq!(one.data[0].value, 1_500_000_000);
    assert!(one.buffer.is_empty());
    assert!(whole.buffer.is_empty());
}

#[test]
fn trailing_partial_frame_is_kept() {
    let mut app = fresh();
    app.ingest_bytes(&b"1.0e-12\r2.5".to_vec(), SEC);
    assert_eq!(app.data.len(), 1);
    assert_eq!(app.data[0].value, 1_000_000);
    assert_eq!(app.buffer, b"2.5".to_vec());
}

#[test]
fn empty_frame_is_malformed() {
    let mut app = fresh();
    app.ingest_bytes(&b"\r\r1e-12\r".to_vec(), SEC);
    assert_eq!(app.data.len(), 1);
    assert_eq!(app.data[0].value, 1_000_000);
}

#[test]
fn sample_times_are_nondecreasing() {
    let mut app = fresh();
    app.ingest_bytes(&b"1e-12\r".to_vec(), SEC);
    app.ingest_bytes(&b"2e-12\r3e-12\r".to_vec(), 2 * SEC);
    app.ingest_bytes(&b"4e-12\r".to_vec(), 2 * SEC);
    app.ingest_bytes(&b"5e-12\r".to_vec(), 7 * SEC);
    for i in 1..app.data.len() {
        assert!(app.data[i - 1].time <= app.data[i].time);
    }
}

#[test]
fn follow_moves_window_after_new_sample() {
    // defaults: x = 0, w = 300 s; a sample at 305 s moves x to 6 s
    let mut app = fresh();
    app.append_sample(10 * SEC, -130_000_000);
    assert_eq!(app.x, 0);
    app.append_sample(305 * SEC, -120_000_000);
    assert_eq!(app.x, 305 * SEC - 300 * SEC + SEC);
    assert_eq!(app.x, 6 * SEC);
    // the sample is inside the new window
    assert!(app.x <= 305 * SEC && 305 * SEC <= app.x + app.w);
}

#[test]
fn follow_moves_window_before_old_sample() {
    let mut app = fresh();
    app.x = 400 * SEC;
    app.append_sample(20 * SEC, 0);
    assert_eq!(app.x, 20 * SEC - SEC);
}

#[test]
fn autoscale_grows_value_window_only() {
    let mut app = fresh();
    // defaults: y = -140 pA, h = 160 pA (top 20 pA)
    app.append_sample(SEC, 30_000_000);
    assert_eq!(app.y, -140_000_000);
    assert_eq!(app.h, 170_000_000);
    app.append_sample(2 * SEC, -150_000_000);
    assert_eq!(app.y, -150_000_000);
    assert_eq!(app.h, 180_000_000);
    // a sample inside the window changes nothing
    app.append_sample(3 * SEC, 0);
    assert_eq!(app.y, -150_000_000);
    assert_eq!(app.h, 180_000_000);
}

#[test]
fn follow_disabled_leaves_viewport_alone() {
    let mut app = fresh();
    app.on_key_down(70); // toggle follow off
    assert!(!app.follow);
    app.ingest_bytes(&b"9.9e-10\r".to_vec(), 500 * SEC);
    assert_eq!(app.data.len(), 1);
    assert_eq!(app.x, 0);
    assert_eq!(app.y, -140_000_000);
    assert_eq!(app.h, 160_000_000);
}

#[test]
fn ingest_through_wire_protocol_values() {
    // a full steady-state exchange: the reading the instrument would
    // send back for the request
    let mut app = fresh();
    let request = pico_plot::protocol::request_command();
    assert_eq!(request, b"MEAS:CURR:DC?\r".to_vec());
    app.note_request(SEC);
    assert_eq!(app.previous_sample_time, SEC);
    app.ingest_bytes(&b"-1.234567e-11\r".to_vec(), SEC);
    assert_eq!(app.data.len(), 1);
    assert_eq!(app.data[0].value, -12_345_670);
}
