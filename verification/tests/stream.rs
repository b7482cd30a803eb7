use raytrace::ppm::push_color_line;
use raytrace::ppm::push_decimal;
use raytrace::ppm::push_pixel_line;
use raytrace::ppm::render_text;
use raytrace::ppm::Pixel;
use raytrace::raster::flip_row;
use raytrace::raster::pixel_index;

fn decimal(n: u32) -> Vec<u8> {
    let mut out = Vec::new();
    push_decimal(&mut out, n);
    out
}

#[test]
fn decimal_digits() {
    assert_eq!(decimal(0), b"0");
    assert_eq!(decimal(7), b"7");
    assert_eq!(decimal(10), b"10");
    assert_eq!(decimal(42), b"42");
    assert_eq!(decimal(255), b"255");
    assert_eq!(decimal(1200), b"1200");
    assert_eq!(decimal(u32::MAX), b"4294967295");
}

#[test]
fn decimal_appends() {
    let mut out = b"x".to_vec();
    push_decimal(&mut out, 31);
    assert_eq!(out, b"x31");
}

#[test]
fn pixel_line_layout() {
    let mut out = Vec::new();
    push_pixel_line(&mut out, Pixel { r: 0, g: 128, b: 255 });
    assert_eq!(out, b"0 128 255\n");
}

#[test]
fn color_line_quantizes_and_formats() {
    let mut out = Vec::new();
    // 0.25, 0.5 and an overexposed 1.2, in millionths: 63.75 and 127.5
    // round up, the overexposed channel is clamped and capped.
    let p = push_color_line(&mut out, 250_000, 500_000, 1_200_000);
    assert_eq!(p, Pixel { r: 64, g: 128, b: 254 });
    assert_eq!(out, b"64 128 254\n");
}

#[test]
fn image_stream_layout() {
    let pixels = vec![
        Pixel { r: 0, g: 0, b: 0 },
        Pixel { r: 255, g: 254, b: 7 },
    ];
    let out = render_text(2, 1, &pixels);
    assert_eq!(out, b"P3\n2 1\n255\n0 0 0\n255 254 7\n");
}

#[test]
fn empty_image_is_header_only() {
    let out = render_text(0, 0, &Vec::new());
    assert_eq!(out, b"P3\n0 0\n255\n");
}

#[test]
fn image_stream_has_one_line_per_pixel() {
    let w: u32 = 4;
    let h: u32 = 3;
    let mut pixels = Vec::new();
    for i in 0..w * h {
        pixels.push(Pixel { r: i as u8, g: 0, b: 255 });
    }
    let out = render_text(w, h, &pixels);
    let newlines = out.iter().filter(|&&b| b == b'\n').count();
    assert_eq!(newlines, 3 + (w * h) as usize);
    assert!(out.iter().all(|&b| {
        b == b'\n' || b == b' ' || b == b'P' || b.is_ascii_digit()
    }));
}

#[test]
fn pixels_are_stored_row_major() {
    assert_eq!(pixel_index(400, 0, 0), 0);
    assert_eq!(pixel_index(400, 0, 399), 399);
    assert_eq!(pixel_index(400, 1, 0), 400);
    assert_eq!(pixel_index(400, 224, 399), 400 * 225 - 1);
}

#[test]
fn vertical_coordinate_counts_from_the_bottom() {
    assert_eq!(flip_row(225, 0), 224);
    assert_eq!(flip_row(225, 224), 0);
    assert_eq!(flip_row(1, 0), 0);
}
