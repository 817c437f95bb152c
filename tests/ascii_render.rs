use echo_service::ascii::{bright_to_char, image_to_ascii, ascii_handler, AsciiError, Raster};
use echo_service::params::Params;

fn raster(width: u32, height: u32, pixels: Vec<(u8, u8, u8, u8)>) -> Raster {
    assert_eq!(pixels.len(), (width * height) as usize);
    Raster { width, height, pixels }
}

fn png_bytes(width: u32, height: u32, fill: [u8; 4]) -> Vec<u8> {
    let img = image::RgbaImage::from_pixel(width, height, image::Rgba(fill));
    let mut out = std::io::Cursor::new(Vec::new());
    img.write_to(&mut out, image::ImageFormat::Png).unwrap();
    out.into_inner()
}

#[test]
fn ramp_ends() {
    assert_eq!(bright_to_char(0), ' ');
    assert_eq!(bright_to_char(255), '@');
}

#[test]
fn ramp_middle_values() {
    // 128 * 8 / 255 = 4
    assert_eq!(bright_to_char(128), '=');
    // 31 * 8 / 255 = 0, 32 * 8 / 255 = 1
    assert_eq!(bright_to_char(31), ' ');
    assert_eq!(bright_to_char(32), '.');
    assert_eq!(bright_to_char(254), '#');
}

#[test]
fn renders_every_pixel_at_scale_one() {
    let img = raster(
        2,
        2,
        vec![(0, 0, 0, 255), (255, 255, 255, 255), (90, 90, 90, 255), (255, 255, 255, 0)],
    );
    // brightness 90 -> 90 * 8 / 255 = 2 -> ':'
    assert_eq!(image_to_ascii(&img, 1), " @\n: \n");
}

#[test]
fn brightness_is_truncated_average() {
    // (255 + 255 + 0) / 3 = 170 -> 170 * 8 / 255 = 5 -> '+'
    let img = raster(1, 1, vec![(255, 255, 0, 1)]);
    assert_eq!(image_to_ascii(&img, 1), "+\n");
}

#[test]
fn zero_scale_is_treated_as_one() {
    let img = raster(2, 1, vec![(255, 255, 255, 255), (0, 0, 0, 255)]);
    assert_eq!(image_to_ascii(&img, 0), image_to_ascii(&img, 1));
    assert_eq!(image_to_ascii(&img, 0), "@ \n");
}

#[test]
fn shape_is_ceil_of_size_over_scale() {
    let (w, h, s) = (5u32, 4u32, 2u32);
    let img = raster(w, h, vec![(255, 255, 255, 255); (w * h) as usize]);
    let out = image_to_ascii(&img, s);
    let lines: Vec<&str> = out.split_terminator('\n').collect();
    assert_eq!(lines.len(), 2);
    for line in lines {
        assert_eq!(line.len(), 3);
    }
    assert!(out.ends_with('\n'));
}

#[test]
fn samples_only_multiples_of_scale() {
    // 3x3 image, scale 2: samples (0,0), (2,0), (0,2), (2,2)
    let mut pixels = vec![(0, 0, 0, 255); 9];
    pixels[2] = (255, 255, 255, 255);
    pixels[8] = (255, 255, 255, 255);
    pixels[4] = (255, 255, 255, 255);
    let img = raster(3, 3, pixels);
    assert_eq!(image_to_ascii(&img, 2), " @\n @\n");
}

#[test]
fn transparent_pixel_is_space() {
    let img = raster(1, 1, vec![(255, 255, 255, 0)]);
    assert_eq!(image_to_ascii(&img, 1), " \n");
}

#[test]
fn empty_image_renders_nothing() {
    let img = raster(0, 0, vec![]);
    assert_eq!(image_to_ascii(&img, 3), "");
}

#[test]
fn rendering_is_deterministic() {
    let img = raster(3, 2, vec![(10, 200, 30, 255), (0, 0, 0, 0), (99, 99, 99, 9), (1, 2, 3, 4), (250, 250, 250, 250), (60, 70, 80, 90)]);
    assert_eq!(image_to_ascii(&img, 1), image_to_ascii(&img, 1));
    assert_eq!(image_to_ascii(&img, 2), image_to_ascii(&img, 2));
}

#[test]
fn decodes_png_and_uses_default_scale() {
    let bytes = png_bytes(7, 4, [255, 255, 255, 255]);
    let out = ascii_handler(&Params::new(None), &bytes).unwrap();
    // default scale 3: ceil(4/3) = 2 lines of ceil(7/3) = 3 characters
    assert_eq!(out, "@@@\n@@@\n");
    let out = ascii_handler(&Params::new(Some(1)), &bytes).unwrap();
    assert_eq!(out.lines().count(), 4);
    assert_eq!(out.lines().next().unwrap(), "@@@@@@@");
}

#[test]
fn decoded_transparent_png_is_blank() {
    let bytes = png_bytes(2, 2, [255, 255, 255, 0]);
    assert_eq!(ascii_handler(&Params::new(Some(1)), &bytes).unwrap(), "  \n  \n");
}

#[test]
fn unreadable_image_is_an_error() {
    match ascii_handler(&Params::new(Some(1)), b"definitely not an image") {
        Err(AsciiError::UnreadableImage(msg)) => assert!(!msg.is_empty()),
        Ok(_) => panic!("garbage decoded as an image"),
    }
}

#[test]
fn params_scale() {
    assert_eq!(Params::new(Some(5)).get_scale(), Some(5));
    assert_eq!(Params::new(None).get_scale(), None);
}

fn decoded(bytes: &[u8]) -> Raster {
    let img = image::load_from_memory(bytes).unwrap().to_rgba8();
    let (width, height) = img.dimensions();
    let pixels = img.pixels().map(|p| (p[0], p[1], p[2], p[3])).collect();
    Raster { width, height, pixels }
}

#[test]
fn handler_renders_the_decoded_image() {
    let mut img = image::RgbaImage::new(5, 4);
    for (x, y, p) in img.enumerate_pixels_mut() {
        let v = (x * 50 + y * 20) as u8;
        *p = image::Rgba([v, 255 - v, v / 2, if x == 1 { 0 } else { 255 }]);
    }
    let mut out = std::io::Cursor::new(Vec::new());
    img.write_to(&mut out, image::ImageFormat::Png).unwrap();
    let bytes = out.into_inner();
    let raster = decoded(&bytes);
    assert_eq!(ascii_handler(&Params::new(None), &bytes).unwrap(), image_to_ascii(&raster, 3));
    assert_eq!(ascii_handler(&Params::new(Some(2)), &bytes).unwrap(), image_to_ascii(&raster, 2));
    assert_eq!(ascii_handler(&Params::new(Some(0)), &bytes).unwrap(), image_to_ascii(&raster, 1));
}

#[test]
fn handler_error_is_the_decoder_diagnostic() {
    let bytes = b"\x89PNG\r\n\x1a\nbroken";
    let expected = image::load_from_memory(bytes).unwrap_err().to_string();
    assert_eq!(
        ascii_handler(&Params::new(None), bytes),
        Err(AsciiError::UnreadableImage(expected))
    );
}
