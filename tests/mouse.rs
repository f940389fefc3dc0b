use accel_mouse::mouse::{encode_mouse_packet, wire_byte};
use accel_mouse::MouseConverter;

#[test]
fn packet_layout_example() {
    let p = encode_mouse_packet(5, -3, true, false);
    assert_eq!(p, [0x40 | 0x20 | 0x0c, 0x05, 0x3d]);
}

#[test]
fn packet_buttons() {
    assert_eq!(encode_mouse_packet(0, 0, false, false), [0x40, 0, 0]);
    assert_eq!(encode_mouse_packet(0, 0, false, true), [0x50, 0, 0]);
    assert_eq!(encode_mouse_packet(0, 0, true, false), [0x60, 0, 0]);
    assert_eq!(encode_mouse_packet(0, 0, true, true), [0x70, 0, 0]);
}

#[test]
fn packet_extremes() {
    assert_eq!(encode_mouse_packet(127, -127, false, false), [0x49, 0x3f, 0x01]);
    assert_eq!(encode_mouse_packet(-127, 127, false, false), [0x46, 0x01, 0x3f]);
    assert_eq!(encode_mouse_packet(-1, -1, false, false), [0x4f, 0x3f, 0x3f]);
}

#[test]
fn wire_byte_is_twos_complement() {
    assert_eq!(wire_byte(5), 5);
    assert_eq!(wire_byte(-3), 0xfd);
    assert_eq!(wire_byte(-128), 0x80);
}

#[test]
fn new_converter_is_at_rest() {
    let m = MouseConverter::new();
    assert_eq!((m.prev_x, m.prev_y, m.prev_velocity_x, m.prev_velocity_y), (0, 0, 0, 0));
    assert_eq!((m.delta_x, m.delta_y), (0, 0));
}

#[test]
fn zero_samples_never_drift() {
    let mut m = MouseConverter::new();
    for dt in [17u32, 17, 1, 1000, 0, 50] {
        assert_eq!(m.sensor_data_to_packet(0, 0, dt, (false, false)), [0x40, 0, 0]);
        assert_eq!((m.prev_velocity_x, m.prev_velocity_y), (0, 0));
    }
}

#[test]
fn integration_sequence_exact() {
    let mut m = MouseConverter::new();
    m.accel_to_distance(100, 0, 17);
    assert_eq!((m.delta_x, m.delta_y), (6, 0));
    assert_eq!(m.prev_x, 429496729600);
    assert_eq!(m.prev_velocity_x, 7301444400);
    m.accel_to_distance(100, 0, 17);
    assert_eq!((m.delta_x, m.delta_y), (4, 0));
    m.accel_to_distance(0, 0, 17);
    assert_eq!((m.delta_x, m.delta_y), (-3, 0));
    assert_eq!(m.prev_velocity_x, 0);
    m.accel_to_distance(2000, -1500, 17);
    assert_eq!((m.delta_x, m.delta_y), (127, 100));
    assert_eq!(m.prev_y, 6442450944000);
    assert_eq!(m.prev_velocity_y, 109521666000);
    m.accel_to_distance(2000, -1500, 17);
    assert_eq!((m.delta_x, m.delta_y), (89, 67));
    m.accel_to_distance(-4000, 3000, 50);
    assert_eq!((m.delta_x, m.delta_y), (-127, -127));
}

#[test]
fn large_movement_saturates() {
    let mut m = MouseConverter::new();
    let p = m.sensor_data_to_packet(32767, 32767, 1000, (false, false));
    assert_eq!((m.delta_x, m.delta_y), (127, -127));
    assert_eq!(p, [0x49, 0x3f, 0x01]);
    let mut n = MouseConverter::new();
    n.accel_to_distance(-32768, -32768, 1000);
    assert_eq!((n.delta_x, n.delta_y), (-127, 127));
}

#[test]
fn packet_carries_buttons_and_movement() {
    let mut m = MouseConverter::new();
    let p = m.sensor_data_to_packet(100, 0, 17, (true, true));
    assert_eq!(p, [0x70, 0x06, 0x00]);
    assert_eq!(m.construct_packet((false, true)), [0x50, 0x06, 0x00]);
}

#[test]
fn range_check() {
    let mut m = MouseConverter::new();
    assert!(m.can_convert(17));
    assert!(m.can_convert(1000));
    assert!(!m.can_convert(1001));
    m.prev_velocity_x = 0x1_0000_0000_0001;
    assert!(!m.can_convert(17));
}
