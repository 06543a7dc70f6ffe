//! Configuration defaults and clamping, port selection, and the wire
//! protocol constants.

use pico_plot::config::Config;
use pico_plot::ports::select_port;
use pico_plot::ports::PortCandidate;
use pico_plot::ports::PortSelection;
use pico_plot::protocol::init_commands;
use pico_plot::protocol::request_command;

#[test]
fn default_config_matches_built_in_values() {
    let cfg = Config::default();
    assert_eq!(cfg.serial_number, "CZA".to_owned());
    assert_eq!(cfg.manufacturer, "Prolific".to_owned());
    assert_eq!(cfg.time_between_samples, 500_000);
    assert_eq!(cfg.time_zone_hour_offset, -5_000_000);
    assert_eq!(cfg.default_max_picoamps, 20_000_000);
    assert_eq!(cfg.default_min_picoamps, -140_000_000);
    assert_eq!(cfg.default_window_time, 300_000_000);
    assert_eq!(cfg.stroke_width, 2);
    assert_eq!(cfg.window_width, 960);
    assert_eq!(cfg.window_height, 540);
    assert!(cfg.always_on_top);
}

#[test]
fn clamped_config_forces_ranges() {
    let cfg = Config::clamped(
        "sn".to_owned(),
        "mf".to_owned(),
        -5,          // negative interval -> 0
        0,
        -1_000_000,  // max below min -> min + 1
        2_000_000,
        0,           // zero window -> 1
        1,
        800,
        600,
        false,
    );
    assert_eq!(cfg.time_between_samples, 0);
    assert_eq!(cfg.default_min_picoamps, 2_000_000);
    assert_eq!(cfg.default_max_picoamps, 2_000_001);
    assert_eq!(cfg.default_window_time, 1);
}

#[test]
fn clamped_config_passes_values_in_range() {
    let cfg = Config::clamped(
        "a".to_owned(),
        "b".to_owned(),
        250_000,
        3_000_000,
        50_000_000,
        -50_000_000,
        60_000_000,
        3,
        1024,
        768,
        true,
    );
    assert_eq!(cfg.time_between_samples, 250_000);
    assert_eq!(cfg.time_zone_hour_offset, 3_000_000);
    assert_eq!(cfg.default_max_picoamps, 50_000_000);
    assert_eq!(cfg.default_min_picoamps, -50_000_000);
    assert_eq!(cfg.default_window_time, 60_000_000);
}

fn usb(name: &str, sn: Option<&str>, mf: Option<&str>) -> PortCandidate {
    PortCandidate {
        name: name.to_owned(),
        is_usb: true,
        serial_number: sn.map(|s| s.to_owned()),
        manufacturer: mf.map(|s| s.to_owned()),
    }
}

fn plain(name: &str) -> PortCandidate {
    PortCandidate {
        name: name.to_owned(),
        is_usb: false,
        serial_number: None,
        manufacturer: None,
    }
}

#[test]
fn serial_number_match_wins() {
    let ports = vec![
        plain("COM1"),
        usb("COM2", None, Some("Prolific")),
        usb("COM3", Some("CZA"), Some("Other")),
    ];
    let sel = select_port(&ports, &"CZA".to_owned(), &"Prolific".to_owned());
    assert!(matches!(sel, Some(PortSelection::BySerialNumber(2))));
}

#[test]
fn manufacturer_match_when_no_serial_number() {
    let ports = vec![
        plain("COM1"),
        usb("COM2", Some("XYZ"), Some("Prolific")),
        usb("COM3", None, Some("Prolific")),
    ];
    let sel = select_port(&ports, &"CZA".to_owned(), &"Prolific".to_owned());
    assert!(matches!(sel, Some(PortSelection::ByManufacturer(1))));
}

#[test]
fn first_usb_when_no_string_matches() {
    let ports = vec![
        plain("COM1"),
        usb("COM2", Some("XYZ"), Some("Other")),
        usb("COM3", None, None),
    ];
    let sel = select_port(&ports, &"CZA".to_owned(), &"Prolific".to_owned());
    assert!(matches!(sel, Some(PortSelection::FirstUsb(1))));
}

#[test]
fn first_listed_when_nothing_is_usb() {
    let ports = vec![plain("COM7"), plain("COM8")];
    let sel = select_port(&ports, &"CZA".to_owned(), &"Prolific".to_owned());
    assert!(matches!(sel, Some(PortSelection::FirstListed)));
}

#[test]
fn no_ports_means_no_selection() {
    let ports: Vec<PortCandidate> = vec![];
    let sel = select_port(&ports, &"CZA".to_owned(), &"Prolific".to_owned());
    assert!(sel.is_none());
}

#[test]
fn measurement_request_bytes() {
    assert_eq!(request_command(), b"MEAS:CURR:DC?\r".to_vec());
}

#[test]
fn initialization_sequence_bytes() {
    let cmds = init_commands();
    let expected: Vec<&[u8]> = vec![
        b"*RST\r",
        b"ARM:COUN 1\r",
        b"DISP:DIG 5\r",
        b"SYST:ZCH OFF\r",
        b"SENS:CURR:NPLC 6\r",
        b"FORM:ELEM READ\r",
        b"TRIG:COUN 1\r",
    ];
    assert_eq!(cmds.len(), expected.len());
    for (got, want) in cmds.iter().zip(expected.iter()) {
        assert_eq!(got.as_slice(), *want);
    }
}
