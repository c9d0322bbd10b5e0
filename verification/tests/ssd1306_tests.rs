use lode_stm32h723::ssd1306::{Error, Progress, Ssd1306, Write, FLUSH_COMMANDS, INIT_COMMANDS};

fn frame(d: &Ssd1306<()>) -> Vec<u8> {
    let p = d.frame_payload();
    assert_eq!(p.len(), 1025);
    assert_eq!(p[0], 0x40);
    p[1..].to_vec()
}

#[test]
fn new_display_is_blank() {
    let d = Ssd1306::new(());
    assert!(frame(&d).iter().all(|&b| b == 0));
}

#[test]
fn set_pixel_sets_and_clears_one_bit() {
    let mut d = Ssd1306::new(());
    assert_eq!(d.set_pixel(5, 10, true), Some(()));
    let f = frame(&d);
    assert_eq!(f[128 + 5], 1 << 2);
    assert_eq!(f.iter().filter(|&&b| b != 0).count(), 1);
    assert_eq!(d.set_pixel(5, 10, false), Some(()));
    assert!(frame(&d).iter().all(|&b| b == 0));
}

#[test]
fn set_pixel_off_screen_is_refused() {
    let mut d = Ssd1306::new(());
    assert_eq!(d.set_pixel(128, 0, true), None);
    assert_eq!(d.set_pixel(0, 64, true), None);
    assert_eq!(d.set_pixel(127, 63, true), Some(()));
    assert_eq!(frame(&d)[1023], 0x80);
}

#[test]
fn clear_turns_everything_off() {
    let mut d = Ssd1306::new(());
    for x in 0..128 {
        d.set_pixel(x, x % 64, true);
    }
    d.clear();
    assert!(frame(&d).iter().all(|&b| b == 0));
}

#[test]
fn draw_char_copies_glyph_columns() {
    let mut d = Ssd1306::new(());
    d.draw_char(0, 0, b'A');
    let f = frame(&d);
    assert_eq!(&f[0..6], &[0x7E, 0x11, 0x11, 0x11, 0x7E, 0x00]);
}

#[test]
fn draw_char_straddles_pages() {
    let mut d = Ssd1306::new(());
    d.draw_char(10, 3, b'A');
    let f = frame(&d);
    assert_eq!(f[10], (0x7Eu8 << 3));
    assert_eq!(f[128 + 10], 0x7E >> 5);
    assert_eq!(f[11], 0x11 << 3);
    assert_eq!(f[128 + 11], 0);
}

#[test]
fn draw_char_ignores_unprintable_and_overflowing() {
    let mut d = Ssd1306::new(());
    d.draw_char(0, 0, 0x1F);
    d.draw_char(0, 0, 0x7F);
    d.draw_char(124, 0, b'A');
    d.draw_char(0, 58, b'A');
    assert!(frame(&d).iter().all(|&b| b == 0));
    d.draw_char(123, 57, b'|');
    assert!(frame(&d).iter().any(|&b| b != 0));
}

#[test]
fn draw_str_spaces_characters_six_apart() {
    let mut d = Ssd1306::new(());
    d.draw_str(0, 0, "Hi");
    let f = frame(&d);
    assert_eq!(&f[0..5], &[0x7F, 0x08, 0x08, 0x08, 0x7F]);
    assert_eq!(f[5], 0);
    assert_eq!(&f[6..11], &[0x00, 0x44, 0x7D, 0x40, 0x00]);
}

#[test]
fn draw_str_stops_at_right_edge() {
    let mut d = Ssd1306::new(());
    d.draw_str(120, 0, "AB");
    let f = frame(&d);
    assert_eq!(&f[120..125], &[0x7E, 0x11, 0x11, 0x11, 0x7E]);
    assert_eq!(&f[125..128], &[0, 0, 0]);
    let mut e = Ssd1306::new(());
    e.draw_str(124, 0, "A");
    assert!(frame(&e).iter().all(|&b| b == 0));
}

#[test]
fn draw_str_is_draw_char_per_fitting_byte() {
    let mut a = Ssd1306::new(());
    let mut b = Ssd1306::new(());
    a.draw_str(120, 0, "AB");
    b.draw_char(120, 0, b'A');
    assert_eq!(frame(&a), frame(&b));

    // each UTF-8 byte of a non-ASCII letter takes a cell and draws nothing
    let mut c = Ssd1306::new(());
    let mut d = Ssd1306::new(());
    c.draw_str(0, 8, "\u{e9}A");
    d.draw_char(12, 8, b'A');
    assert_eq!(frame(&c), frame(&d));

    let mut e = Ssd1306::new(());
    let mut f = Ssd1306::new(());
    e.draw_str(3, 20, "ok!");
    f.draw_char(3, 20, b'o');
    f.draw_char(9, 20, b'k');
    f.draw_char(15, 20, b'!');
    assert_eq!(frame(&e), frame(&f));
}

fn run_sequence(
    d: &Ssd1306<()>,
    flush: bool,
    mut outcome: impl FnMut(usize) -> Result<(), u8>,
) -> (Vec<Write>, Result<(), Error<u8>>) {
    let mut sent = 0usize;
    let mut last: Result<(), u8> = Ok(());
    let mut writes = Vec::new();
    loop {
        let p = if flush { d.flush(sent, last) } else { d.init(sent, last) };
        match p {
            Progress::Send(w) => {
                writes.push(w);
                last = outcome(sent);
                sent += 1;
            }
            Progress::Finished(r) => return (writes, r),
        }
    }
}

#[test]
fn init_sends_the_command_list() {
    let d = Ssd1306::new(());
    let (writes, r) = run_sequence(&d, false, |_| Ok(()));
    assert!(r.is_ok());
    let expected: Vec<Write> = INIT_COMMANDS.iter().map(|&c| Write::Command(c)).collect();
    assert_eq!(writes, expected);
    assert_eq!(writes[0], Write::Command(0xAE));
    assert_eq!(writes[20], Write::Command(0xAF));
}

#[test]
fn init_ignores_failed_display_off() {
    let d = Ssd1306::new(());
    let (writes, r) = run_sequence(&d, false, |i| if i == 0 { Err(1) } else { Ok(()) });
    assert!(r.is_ok());
    assert_eq!(writes.len(), 21);
}

#[test]
fn init_stops_at_first_later_failure() {
    let d = Ssd1306::new(());
    let (writes, r) = run_sequence(&d, false, |i| if i == 3 { Err(9) } else { Ok(()) });
    assert!(matches!(r, Err(Error::I2c(9))));
    assert_eq!(writes.len(), 4);
}

#[test]
fn flush_sends_window_then_frame() {
    let d = Ssd1306::new(());
    let (writes, r) = run_sequence(&d, true, |_| Ok(()));
    assert!(r.is_ok());
    let mut expected: Vec<Write> = FLUSH_COMMANDS.iter().map(|&c| Write::Command(c)).collect();
    expected.push(Write::Frame);
    assert_eq!(writes, expected);
}

#[test]
fn flush_stops_on_failure() {
    let d = Ssd1306::new(());
    let (writes, r) = run_sequence(&d, true, |i| if i == 0 { Err(2) } else { Ok(()) });
    assert!(matches!(r, Err(Error::I2c(2))));
    assert_eq!(writes.len(), 1);
    let (writes, r) = run_sequence(&d, true, |i| if i == 6 { Err(3) } else { Ok(()) });
    assert!(matches!(r, Err(Error::I2c(3))));
    assert_eq!(writes.len(), 7);
}

#[test]
fn writes_put_control_byte_first() {
    let mut d = Ssd1306::new(());
    assert_eq!(d.write_bytes(Write::Command(0xAF)), vec![0x00, 0xAF]);
    d.draw_char(0, 0, b'A');
    let bytes = d.write_bytes(Write::Frame);
    assert_eq!(bytes.len(), 1025);
    assert_eq!(bytes[0], 0x40);
    assert_eq!(&bytes[1..6], &[0x7E, 0x11, 0x11, 0x11, 0x7E]);
    assert_eq!(bytes, d.frame_payload());
}
