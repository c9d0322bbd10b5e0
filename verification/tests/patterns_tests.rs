use lode_stm32h723::patterns::{
    display_test_frame, draw_border, draw_checkerboard, draw_diagonals, draw_origin_marker,
};
use lode_stm32h723::ssd1306::Ssd1306;

fn lit(d: &Ssd1306<()>, x: usize, y: usize) -> bool {
    let f = d.frame_payload();
    f[1 + (y / 8) * 128 + x] & (1 << (y % 8)) != 0
}

#[test]
fn checkerboard_covers_every_pixel() {
    let mut d = Ssd1306::new(());
    d.draw_char(10, 10, b'X');
    draw_checkerboard(&mut d);
    let f = d.frame_payload();
    for x in 0..128 {
        for page in 0..8 {
            let expected = if x % 2 == 0 { 0x55 } else { 0xAA };
            assert_eq!(f[1 + page * 128 + x], expected);
        }
    }
}

#[test]
fn border_lights_the_edges_only() {
    let mut d = Ssd1306::new(());
    draw_border(&mut d);
    for x in 0..128 {
        for y in 0..64 {
            let edge = x == 0 || x == 127 || y == 0 || y == 63;
            assert_eq!(lit(&d, x, y), edge, "pixel ({}, {})", x, y);
        }
    }
}

#[test]
fn diagonals_run_corner_to_corner() {
    let mut d = Ssd1306::new(());
    draw_diagonals(&mut d);
    assert!(lit(&d, 0, 0) && lit(&d, 127, 0) && lit(&d, 127, 63) && lit(&d, 0, 63));
    assert!(lit(&d, 2, 1) && lit(&d, 125, 1));
    assert!(!lit(&d, 1, 1));
    let count: usize = (0..128).flat_map(|x| (0..64).map(move |y| (x, y))).filter(|&(x, y)| lit(&d, x, y)).count();
    assert_eq!(count, 128);
}

#[test]
fn origin_marker_is_six_by_six() {
    let mut d = Ssd1306::new(());
    draw_origin_marker(&mut d);
    let f = d.frame_payload();
    for x in 0..128 {
        let expected = if (2..8).contains(&x) { 0xFC } else { 0 };
        assert_eq!(f[1 + x], expected);
    }
    assert!(f[129..].iter().all(|&b| b == 0));
}

fn expected_frame(border: bool, diagonals: bool, marker: bool, checker: bool) -> Vec<u8> {
    let mut d = Ssd1306::new(());
    if checker {
        draw_checkerboard(&mut d);
    }
    if border {
        draw_border(&mut d);
    }
    if diagonals {
        draw_diagonals(&mut d);
    }
    if marker {
        draw_origin_marker(&mut d);
    }
    d.frame_payload()
}

#[test]
fn display_test_runs_its_frames_in_order() {
    let mut d = Ssd1306::new(());
    d.draw_char(40, 20, b'Q');
    let cases = [
        (0u64, 3000u64, expected_frame(true, true, true, false)),
        (1, 3000, expected_frame(false, false, false, true)),
        (2, 1000, expected_frame(false, false, false, false)),
        (3, 500, expected_frame(true, true, true, false)),
        (4, 500, expected_frame(true, false, true, false)),
        (5, 500, expected_frame(true, true, true, false)),
        (1000, 500, expected_frame(true, false, true, false)),
    ];
    for (step, pause, frame) in cases {
        assert_eq!(display_test_frame(&mut d, step), pause);
        assert_eq!(d.frame_payload(), frame, "frame {}", step);
    }
}
