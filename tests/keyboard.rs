use accel_mouse::keyboard::{latch, Edge};
use accel_mouse::KeyboardConverter;

const NONE: [u8; 11] = [0; 11];

#[test]
fn new_converter_sends_nothing_at_rest() {
    let mut k = KeyboardConverter::new();
    assert_eq!(k.sensor_data_to_packet(0, (false, false)), NONE);
}

#[test]
fn button_a_press_hold_release() {
    let mut k = KeyboardConverter::new();
    let p1 = k.sensor_data_to_packet(0, (true, false));
    assert_eq!(p1, [0x1a, 0, 0, 0, 0, 0, 0, 0, 0, 0, 0]);
    let p2 = k.sensor_data_to_packet(0, (true, false));
    assert_eq!(p2, NONE);
    let p3 = k.sensor_data_to_packet(0, (false, false));
    assert_eq!(p3, [0xf0, 0x1a, 0, 0, 0, 0, 0, 0, 0, 0, 0]);
}

#[test]
fn button_b_press_and_release() {
    let mut k = KeyboardConverter::new();
    assert_eq!(k.sensor_data_to_packet(0, (false, true)), [0, 0, 0x22, 0, 0, 0, 0, 0, 0, 0, 0]);
    assert_eq!(k.sensor_data_to_packet(0, (false, false)), [0, 0, 0xf0, 0x22, 0, 0, 0, 0, 0, 0, 0]);
}

#[test]
fn tilt_left_enter_and_leave() {
    let mut k = KeyboardConverter::new();
    assert_eq!(k.sensor_data_to_packet(0, (false, false)), NONE);
    assert_eq!(k.sensor_data_to_packet(-500, (false, false)), [0, 0, 0, 0, 0xe0, 0x6b, 0, 0, 0, 0, 0]);
    assert_eq!(k.sensor_data_to_packet(0, (false, false)), [0, 0, 0, 0, 0xe0, 0xf0, 0x6b, 0, 0, 0, 0]);
}

#[test]
fn tilt_right_enter_and_leave() {
    let mut k = KeyboardConverter::new();
    assert_eq!(k.sensor_data_to_packet(301, (false, false)), [0, 0, 0, 0, 0, 0, 0, 0xe0, 0x74, 0, 0]);
    assert_eq!(k.sensor_data_to_packet(300, (false, false)), [0, 0, 0, 0, 0, 0, 0, 0xe0, 0xf0, 0x74, 0]);
}

#[test]
fn threshold_itself_is_not_a_tilt() {
    let mut k = KeyboardConverter::new();
    assert_eq!(k.sensor_data_to_packet(-300, (false, false)), NONE);
    assert_eq!(k.sensor_data_to_packet(300, (false, false)), NONE);
    assert_eq!(k.sensor_data_to_packet(-301, (false, false)), [0, 0, 0, 0, 0xe0, 0x6b, 0, 0, 0, 0, 0]);
}

#[test]
fn all_channels_at_once() {
    let mut k = KeyboardConverter::new();
    assert_eq!(k.sensor_data_to_packet(-1000, (true, true)), [0x1a, 0, 0x22, 0, 0xe0, 0x6b, 0, 0, 0, 0, 0]);
    assert_eq!(
        k.sensor_data_to_packet(1000, (false, false)),
        [0xf0, 0x1a, 0xf0, 0x22, 0xe0, 0xf0, 0x6b, 0xe0, 0x74, 0, 0]
    );
    assert_eq!(k.sensor_data_to_packet(0, (false, false)), [0, 0, 0, 0, 0, 0, 0, 0xe0, 0xf0, 0x74, 0]);
}

#[test]
fn repeated_inputs_are_quiet() {
    let mut k = KeyboardConverter::new();
    let first = k.sensor_data_to_packet(-800, (true, false));
    assert_ne!(first, NONE);
    assert_eq!(k.sensor_data_to_packet(-800, (true, false)), NONE);
    assert!(k.prev_z && !k.prev_x && k.prev_left && !k.prev_right);
}

#[test]
fn makes_and_breaks_stay_paired() {
    let mut k = KeyboardConverter::new();
    let buttons = [true, true, false, true, false, false, true, true];
    let mut makes = 0i32;
    let mut breaks = 0i32;
    for &a in buttons.iter() {
        let p = k.sensor_data_to_packet(0, (a, false));
        if p[0] == 0x1a {
            makes += 1;
        }
        if p[0] == 0xf0 && p[1] == 0x1a {
            breaks += 1;
        }
        let diff = makes - breaks;
        assert!(diff == 0 || diff == 1);
        assert_eq!(diff == 1, a);
    }
    assert_eq!(makes, 3);
    assert_eq!(breaks, 2);
}

#[test]
fn latch_reports_edges() {
    let mut prev = false;
    assert_eq!(latch(&mut prev, false), Edge::Steady);
    assert_eq!(latch(&mut prev, true), Edge::Rise);
    assert!(prev);
    assert_eq!(latch(&mut prev, true), Edge::Steady);
    assert_eq!(latch(&mut prev, false), Edge::Fall);
    assert!(!prev);
}
