use st7789::canvas::{Canvas, Image};
use st7789::color::{pack_rgb565, Color};
use st7789::conv::{bytes_from_img, encode_rgb565, ConvError};
use st7789::protocol::{chunk_bounds, coord_bytes, fill_bytes, window, CASET, DEFAULT_CHUNK, DISPON, RAMWR, SWRESET};
use st7789::script::{cleanup_steps, init_steps, reset_steps, Action, Line};
use st7789::transport::{spi_settings, SpiSettings};
use st7789::{bring_up_error, DriverError};

#[test]
fn packed_primaries() {
    assert_eq!(Color::new(0xFF0000).get_rgb565(), 0xF800);
    assert_eq!(Color::new(0x00FF00).get_rgb565(), 0x07E0);
    assert_eq!(Color::new(0x0000FF).get_rgb565(), 0x001F);
    assert_eq!(Color::new(0xFFFFFF).get_rgb565(), 0xFFFF);
    assert_eq!(Color::new(0x000000).get_rgb565(), 0x0000);
}

#[test]
fn packed_is_stable_across_calls() {
    let c = Color::new(0x123456);
    assert_eq!(c.get_rgb565(), c.get_rgb565());
    assert_eq!(Color::new(0x123456).get_rgb565(), c.get_rgb565());
    assert_eq!(c.get_rgb565(), 0x11AA);
}

#[test]
fn packed_drops_low_bits_and_high_byte() {
    assert_eq!(Color::new(0x070303).get_rgb565(), 0x0000);
    assert_eq!(Color::new(0xAB123456).get_rgb565(), Color::new(0x123456).get_rgb565());
    assert_eq!(Color::new(0xAB123456).channels(), (0x12, 0x34, 0x56));
}

#[test]
fn channels_and_pixels() {
    let c = Color::from_rgb(0x12, 0x34, 0x56);
    assert_eq!(c.channels(), (0x12, 0x34, 0x56));
    assert_eq!(c.get_rgb565(), pack_rgb565(0x12, 0x34, 0x56));
    assert_eq!(c.get_rgb(), image::Rgb([0x12, 0x34, 0x56]));
    assert_eq!(c.get_rgba(), image::Rgba([0x12, 0x34, 0x56, 0xff]));
}

#[test]
fn encode_single_pixel() {
    let out = encode_rgb565(&[0x12, 0x34, 0x56]).unwrap();
    let w = Color::new(0x123456).get_rgb565();
    assert_eq!(out, w.to_be_bytes().to_vec());
    assert_eq!(out, vec![0x11, 0xAA]);
}

#[test]
fn encode_is_big_endian_in_order() {
    let out = encode_rgb565(&[0xFF, 0, 0, 0, 0, 0xFF, 0xFF, 0xFF, 0xFF]).unwrap();
    assert_eq!(out, vec![0xF8, 0x00, 0x00, 0x1F, 0xFF, 0xFF]);
}

#[test]
fn encode_empty() {
    assert_eq!(encode_rgb565(&[]).unwrap(), Vec::<u8>::new());
}

#[test]
fn encode_rejects_partial_pixel() {
    assert_eq!(encode_rgb565(&[1, 2, 3, 4]), Err(ConvError::InvalidBufferLength));
    assert_eq!(encode_rgb565(&[1]), Err(ConvError::InvalidBufferLength));
}

#[test]
fn encode_canvas() {
    let mut c = Canvas::new(2, 1);
    c.stamp(0, 0, &Color::new(0xFF0000));
    c.stamp(1, 0, &Color::new(0x00FF00));
    assert_eq!(bytes_from_img(&c), vec![0xF8, 0x00, 0x07, 0xE0]);
    assert_eq!(bytes_from_img(&Canvas::new(320, 170)).len(), 2 * 320 * 170);
}

#[test]
fn default_window_covers_panel() {
    assert_eq!(window(320, 170, 0, 0, None, None, None, None), (0, 0, 319, 169));
    assert_eq!(coord_bytes(0, 319), [0x00, 0x00, 0x01, 0x3F]);
    assert_eq!(coord_bytes(0, 169), [0x00, 0x00, 0x00, 0xA9]);
}

#[test]
fn window_offset_shifts_bounds() {
    assert_eq!(window(320, 170, 2, 3, None, None, None, None), (2, 3, 321, 172));
    assert_eq!(window(320, 170, 2, 3, Some(10), Some(20), Some(30), Some(40)), (12, 23, 31, 42));
}

#[test]
fn window_negative_coordinate_bytes() {
    assert_eq!(coord_bytes(-1, 256), [0xFF, 0xFF, 0x01, 0x00]);
}

#[test]
fn fill_repeats_color() {
    let b = fill_bytes(0xF81F, 3);
    assert_eq!(b, vec![0xF8, 0x1F, 0xF8, 0x1F, 0xF8, 0x1F]);
    let w = 320usize;
    let h = 170usize;
    let all = fill_bytes(0x1234, w * h);
    assert_eq!(all.len(), 2 * w * h);
    assert!(all.chunks(2).all(|p| p == [0x12, 0x34]));
    assert!(fill_bytes(0xFFFF, 0).is_empty());
}

#[test]
fn command_constants() {
    assert_eq!(CASET, 0x2A);
    assert_eq!(RAMWR, 0x2C);
    assert_eq!(DEFAULT_CHUNK, 4096);
}

#[test]
fn reset_pulse_only_with_line() {
    assert!(reset_steps(false).is_empty());
    assert_eq!(
        reset_steps(true),
        vec![
            Action::Drive(Line::Reset, true),
            Action::Wait(10),
            Action::Drive(Line::Reset, false),
            Action::Wait(10),
            Action::Drive(Line::Reset, true),
            Action::Wait(10),
        ]
    );
}

#[test]
fn init_sequence_shape() {
    let s = init_steps(false, true);
    assert_eq!(s[0], Action::Command(SWRESET));
    assert_eq!(s[1], Action::Wait(150));
    assert_eq!(s[2], Action::Command(0x36));
    assert_eq!(s[3], Action::Data(0x70));
    assert_eq!(s[4], Action::Command(0xB2));
    let n = s.len();
    assert_eq!(s[n - 3], Action::Command(0x21));
    assert_eq!(s[n - 2], Action::Command(0x11));
    assert_eq!(s[n - 1], Action::Command(DISPON));
    let commands = s.iter().filter(|a| matches!(a, Action::Command(_))).count();
    let data = s.iter().filter(|a| matches!(a, Action::Data(_))).count();
    assert_eq!(commands, 17);
    assert_eq!(data, 44);
    assert_eq!(init_steps(false, false)[n - 3], Action::Command(0x20));
    assert_eq!(init_steps(true, true).len(), n + 6);
}

#[test]
fn cleanup_only_with_reset_line() {
    assert!(cleanup_steps(false).is_empty());
    assert_eq!(
        cleanup_steps(true),
        vec![
            Action::Drive(Line::Reset, true),
            Action::Drive(Line::DataCommand, false),
            Action::Wait(1),
            Action::Drive(Line::Backlight, true),
        ]
    );
}

#[test]
fn canvas_starts_black() {
    let c = Canvas::new(4, 3);
    assert_eq!((c.width(), c.height()), (4, 3));
    assert_eq!(c.as_bytes().len(), 36);
    assert!(c.as_bytes().iter().all(|b| *b == 0));
}

#[test]
fn canvas_rect_is_clipped() {
    let mut c = Canvas::new(3, 2);
    c.fill_rect(2, 1, 5, 5, &Color::new(0x102030));
    let mut want = vec![0u8; 18];
    want[15] = 0x10;
    want[16] = 0x20;
    want[17] = 0x30;
    assert_eq!(c.as_bytes(), &want);
    c.fill_rect(-5, -5, 2, 2, &Color::new(0xFFFFFF));
    assert_eq!(c.as_bytes(), &want);
}

#[test]
fn canvas_fill_and_stamp() {
    let mut c = Canvas::new(2, 2);
    c.fill(&Color::new(0x0000FF));
    assert_eq!(c.as_bytes(), &vec![0, 0, 0xFF, 0, 0, 0xFF, 0, 0, 0xFF, 0, 0, 0xFF]);
    c.stamp(1, 0, &Color::new(0xFF0000));
    c.stamp(5, 5, &Color::new(0xFF0000));
    c.stamp(i32::MAX, 0, &Color::new(0xFF0000));
    assert_eq!(c.as_bytes(), &vec![0, 0, 0xFF, 0xFF, 0, 0, 0, 0, 0xFF, 0, 0, 0xFF]);
}

#[test]
fn canvas_overlay_and_encode() {
    let mut c = Canvas::new(2, 1);
    let top = Image::from_rgba(1, 1, vec![0xFF, 0xFF, 0xFF, 0xFF]).unwrap();
    c.overlay(&top, 1, 0);
    c.overlay(&top, 7, 7);
    assert_eq!(c.as_bytes(), &vec![0, 0, 0, 0xFF, 0xFF, 0xFF]);
    assert_eq!(encode_rgb565(c.as_bytes()).unwrap(), vec![0, 0, 0xFF, 0xFF]);
}

#[test]
fn chunks_cover_input_in_order() {
    assert_eq!(chunk_bounds(10, 4), vec![(0, 4), (4, 8), (8, 10)]);
    assert_eq!(chunk_bounds(8, 4), vec![(0, 4), (4, 8)]);
    assert_eq!(chunk_bounds(0, 4096), Vec::<(usize, usize)>::new());
    assert_eq!(chunk_bounds(3, 4096), vec![(0, 3)]);
    assert_eq!(chunk_bounds(4097, 4096), vec![(0, 4096), (4096, 4097)]);
    let n = 2 * 320 * 170;
    let b = chunk_bounds(n, 4096);
    assert_eq!(b.len(), (n + 4095) / 4096);
    assert_eq!(b[0].0, 0);
    assert_eq!(b[b.len() - 1].1, n);
    for w in b.windows(2) {
        assert_eq!(w[0].1, w[1].0);
    }
    assert!(b.iter().all(|(s, e)| s < e && e - s <= 4096));
}

#[test]
fn chunk_of_one_byte_each() {
    assert_eq!(chunk_bounds(3, 1), vec![(0, 1), (1, 2), (2, 3)]);
}

#[test]
fn bring_up_errors_by_failure() {
    assert_eq!(bring_up_error(false, false), Some(DriverError::TransportOpenError));
    assert_eq!(bring_up_error(false, true), Some(DriverError::TransportOpenError));
    assert_eq!(bring_up_error(true, false), Some(DriverError::TransportConfigError));
    assert_eq!(bring_up_error(true, true), None);
}

#[test]
fn controller_spi_settings() {
    assert_eq!(
        spi_settings(60_000_000),
        SpiSettings { bits_per_word: 0, max_speed_hz: 60_000_000, lsb_first: false, mode: 0 }
    );
}

#[test]
fn canvas_overlay_keeps_outside_pixels() {
    let mut c = Canvas::new(3, 1);
    c.fill(&Color::new(0x0000FF));
    let top = Image::from_rgba(1, 1, vec![0xFF, 0, 0, 0xFF]).unwrap();
    c.overlay(&top, 1, 0);
    assert_eq!(c.as_bytes(), &vec![0, 0, 0xFF, 0xFF, 0, 0, 0, 0, 0xFF]);
}

#[test]
fn image_needs_four_bytes_per_pixel() {
    assert!(Image::from_rgba(2, 1, vec![0; 7]).is_none());
    let img = Image::from_rgba(2, 1, vec![0; 8]).unwrap();
    assert_eq!((img.width(), img.height()), (2, 1));
}

#[test]
fn overlay_blends_translucent_pixel() {
    let mut c = Canvas::new(1, 1);
    c.fill(&Color::new(0xFFFFFF));
    let clear = Image::from_rgba(1, 1, vec![0, 0, 0, 0]).unwrap();
    c.overlay(&clear, 0, 0);
    assert_eq!(c.as_bytes(), &vec![0xFF, 0xFF, 0xFF]);
}
