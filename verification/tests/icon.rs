use vex_bridge::desktop::decode_png_rgba;
use vex_bridge::errors::BridgeError;

fn encode(width: u32, height: u32, color: png::ColorType, data: &[u8]) -> Vec<u8> {
    let mut out = Vec::new();
    {
        let mut encoder = png::Encoder::new(&mut out, width, height);
        encoder.set_color(color);
        encoder.set_depth(png::BitDepth::Eight);
        let mut writer = encoder.write_header().unwrap();
        writer.write_image_data(data).unwrap();
        writer.finish().unwrap();
    }
    out
}

#[test]
fn rgb_icon_gains_an_opaque_alpha() {
    let bytes = encode(2, 1, png::ColorType::Rgb, &[1, 2, 3, 4, 5, 6]);
    let (rgba, width, height) = decode_png_rgba(&bytes).unwrap();
    assert_eq!((width, height), (2, 1));
    assert_eq!(rgba, vec![1, 2, 3, 255, 4, 5, 6, 255]);
}

#[test]
fn gray_alpha_icon_copies_the_level_to_each_colour() {
    let bytes = encode(1, 2, png::ColorType::GrayscaleAlpha, &[9, 100, 7, 0]);
    let (rgba, width, height) = decode_png_rgba(&bytes).unwrap();
    assert_eq!((width, height), (1, 2));
    assert_eq!(rgba, vec![9, 9, 9, 100, 7, 7, 7, 0]);
}

#[test]
fn rgba_icon_is_kept_as_decoded() {
    let bytes = encode(1, 1, png::ColorType::Rgba, &[10, 20, 30, 40]);
    assert_eq!(decode_png_rgba(&bytes).unwrap(), (vec![10, 20, 30, 40], 1, 1));
}

#[test]
fn bytes_that_are_not_a_png_are_refused_at_the_header() {
    match decode_png_rgba(b"not a png") {
        Err(BridgeError::Config(m)) => assert!(m.starts_with("could not decode tray icon: "), "{m}"),
        other => panic!("unexpected {other:?}"),
    }
}
