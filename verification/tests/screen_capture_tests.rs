use base64::Engine;
use deskpet::screen_capture::{bgra_to_rgba, screen_bounds, screen_size, screenshot_png_base64};
use deskpet::screenshot_commands::ScreenshotService;

#[test]
fn screen_size_must_be_positive() {
    assert_eq!(screen_size(0, 0, 1920, 1080), Ok((1920, 1080)));
    assert_eq!(
        screen_size(-1920, 0, 0, 1080).unwrap_err(),
        "Invalid virtual screen size: 0x1080 at (-1920,0)"
    );
    assert_eq!(screen_bounds(-1920, -8, 3840, 1080), Ok((-1920, -8, 3840, 1080)));
    assert_eq!(screen_bounds(5, 6, 7, -1).unwrap_err(), "Invalid virtual screen: 7x-1 at (5,6)");
}

#[test]
fn grabbed_pixels_become_opaque_rgba() {
    let mut p = vec![1, 2, 3, 4, 5, 6, 7, 8, 9];
    bgra_to_rgba(&mut p);
    assert_eq!(p, vec![3, 2, 1, 255, 7, 6, 5, 255, 9]);
}

#[test]
fn a_grab_becomes_a_base64_png() {
    let text = screenshot_png_base64(2, 1, vec![10, 20, 30, 0, 40, 50, 60, 7]).unwrap();
    let png_bytes = base64::engine::general_purpose::STANDARD.decode(text).unwrap();
    assert_eq!(&png_bytes[..8], &[137, 80, 78, 71, 13, 10, 26, 10]);
    let decoder = png::Decoder::new(std::io::Cursor::new(png_bytes));
    let mut reader = decoder.read_info().unwrap();
    let mut buf = vec![0u8; reader.output_buffer_size()];
    let info = reader.next_frame(&mut buf).unwrap();
    assert_eq!((info.width, info.height), (2, 1));
    assert_eq!(&buf[..info.buffer_size()], &[30, 20, 10, 255, 60, 50, 40, 255]);
}

#[test]
fn encoding_failures_name_their_stage() {
    assert!(screenshot_png_base64(0, 1, vec![]).unwrap_err().starts_with("PNG header error: "));
    assert!(screenshot_png_base64(2, 2, vec![0; 4]).unwrap_err().starts_with("PNG data error: "));
}

#[test]
fn bounds_are_not_read_off_windows() {
    assert_eq!(
        ScreenshotService::virtual_screen_bounds().unwrap_err(),
        "Virtual screen bounds is only supported on Windows"
    );
}
