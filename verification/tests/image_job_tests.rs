use dither_bot::image_job::{
    dither_rgb8, followup_url, image_file_name, image_path, render_dithered_png, ImageJobError,
    QUANT_PER_COLOR,
};
use std::io::Cursor;

fn png_of(img: image::DynamicImage) -> Vec<u8> {
    let mut c = Cursor::new(Vec::new());
    img.write_to(&mut c, image::ImageOutputFormat::Png).unwrap();
    c.into_inner()
}

fn palette_of_four() -> [u8; 5] {
    [0, 63, 127, 191, 255]
}

#[test]
fn file_and_path_names() {
    assert_eq!(image_file_name("abc"), "image_abc.png");
    assert_eq!(image_path("image_abc.png"), "image/image_abc.png");
}

#[test]
fn followup_url_names_the_first_reply() {
    assert_eq!(
        followup_url("123", "tok"),
        "https://discord.com/api/v10/webhooks/123/tok/messages/@original"
    );
}

#[test]
fn dither_rgb8_uses_four_levels() {
    assert_eq!(QUANT_PER_COLOR, 4);
    assert_eq!(dither_rgb8(1, 1, vec![100, 200, 30]), vec![63, 191, 0]);
}

#[test]
fn render_produces_a_png_of_the_input_size_on_the_palette() {
    let mut src = image::RgbImage::new(40, 30);
    for (x, y, p) in src.enumerate_pixels_mut() {
        *p = image::Rgb([(x * 6) as u8, (y * 8) as u8, ((x + y) * 3) as u8]);
    }
    let png = render_dithered_png(png_of(image::DynamicImage::ImageRgb8(src))).unwrap();
    let out = image::load_from_memory(&png).unwrap().to_rgb8();
    assert_eq!(out.dimensions(), (40, 30));
    for b in out.as_raw() {
        assert!(palette_of_four().contains(b));
    }
}

#[test]
fn render_rejects_bytes_that_are_no_picture() {
    assert_eq!(render_dithered_png(b"not a picture".to_vec()).err(), Some(ImageJobError::Decode));
}

#[test]
fn render_rejects_pictures_without_rgb_pixels() {
    let grey = image::DynamicImage::ImageLuma8(image::GrayImage::new(4, 4));
    assert_eq!(render_dithered_png(png_of(grey)).err(), Some(ImageJobError::NotRgb8));
}

#[test]
fn picture_of_working_size_comes_back_with_its_dithered_pixels() {
    let mut src = image::RgbImage::new(200, 200);
    for (x, y, p) in src.enumerate_pixels_mut() {
        *p = image::Rgb([(x + y) as u8, (x * 3) as u8, (y * 5) as u8]);
    }
    let raw = src.as_raw().clone();
    let out = dither_bot::image_job::dither_image(&image::DynamicImage::ImageRgb8(src)).unwrap();
    let out = out.as_rgb8().unwrap();
    assert_eq!(out.dimensions(), (200, 200));
    assert_eq!(out.as_raw(), &dither_rgb8(200, 200, raw));
}

#[test]
fn dither_image_needs_rgb_pixels() {
    let rgba = image::DynamicImage::ImageRgba8(image::RgbaImage::new(3, 3));
    assert!(dither_bot::image_job::dither_image(&rgba).is_none());
}

#[test]
fn render_image_shrinks_dithers_and_scales_back() {
    let mut src = image::RgbImage::new(50, 30);
    for (x, y, p) in src.enumerate_pixels_mut() {
        *p = image::Rgb([(x * 5) as u8, (y * 8) as u8, ((x + y) * 3) as u8]);
    }
    let input = image::DynamicImage::ImageRgb8(src);
    let small = input.resize(200, 200, image::imageops::FilterType::Nearest);
    let small = small.as_rgb8().unwrap();
    let (w, h) = small.dimensions();
    assert_eq!((w, h), (200, 120));
    let dithered = image::RgbImage::from_raw(w, h, dither_rgb8(w, h, small.as_raw().clone())).unwrap();
    let back = image::DynamicImage::ImageRgb8(dithered).resize(50, 30, image::imageops::FilterType::Nearest);
    let expected = png_of(back.clone());
    assert_eq!(dither_bot::image_job::render_image(&input).unwrap(), expected);
    let out = dither_bot::image_job::dither_image(&input).unwrap();
    assert_eq!(out.as_rgb8().unwrap().as_raw(), back.as_rgb8().unwrap().as_raw());
}

#[test]
fn render_image_needs_rgb_pixels() {
    let grey = image::DynamicImage::ImageLuma8(image::GrayImage::new(4, 4));
    assert_eq!(dither_bot::image_job::render_image(&grey).err(), Some(ImageJobError::NotRgb8));
}
