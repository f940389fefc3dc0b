use accel_mouse::led_matrix::rotate_90;

#[test]
fn rotates_clockwise() {
    let m = [
        [1, 2, 3, 4, 5],
        [6, 7, 8, 9, 10],
        [11, 12, 13, 14, 15],
        [16, 17, 18, 19, 20],
        [21, 22, 23, 24, 25],
    ];
    let r = rotate_90(m);
    assert_eq!(r[0], [21, 16, 11, 6, 1]);
    assert_eq!(r[4], [25, 20, 15, 10, 5]);
    assert_eq!(rotate_90(rotate_90(rotate_90(rotate_90(m)))), m);
}

#[test]
fn vertical_line_becomes_horizontal() {
    let m = [[0, 0, 1, 0, 0]; 5];
    let r = rotate_90(m);
    assert_eq!(r[2], [1, 1, 1, 1, 1]);
    assert_eq!(r[0], [0, 0, 0, 0, 0]);
}
