use dither_bot::dither::{add_to_rgb, add_two_rgb, dither, get_closest_color, Rgb};
use dither_bot::rgb_image::RgbImage;

/// Error diffusion written against the `image` crate's own buffer, pixel access
/// for pixel access, to compare the library with.
fn reference_dither(img: &mut image::RgbImage, quant: u8) {
    fn closest(p: &image::Rgb<u8>, q: u8) -> image::Rgb<u8> {
        let f = |c: u8| (((c as u16) * (q as u16) / 255) * 255 / q as u16) as u8;
        image::Rgb([f(p.0[0]), f(p.0[1]), f(p.0[2])])
    }
    fn add(p: &mut image::Rgb<u8>, e: &image::Rgb<u8>, n: i32) {
        for c in 0..3 {
            let s = p.0[c] as i32 + (e.0[c] as i32 * n / 16);
            p.0[c] = s.clamp(0, 255) as u8;
        }
    }
    for y in 0..img.height() {
        for x in 0..img.width() {
            let pix = img.get_pixel_mut_checked(x, y).unwrap();
            let new = closest(pix, quant);
            let err = image::Rgb([pix.0[0] - new.0[0], pix.0[1] - new.0[1], pix.0[2] - new.0[2]]);
            *pix = new;
            if let Some(p) = img.get_pixel_mut_checked(x + 1, y) {
                add(p, &err, 7);
            }
            if x != 0 {
                if let Some(p) = img.get_pixel_mut_checked(x - 1, y + 1) {
                    add(p, &err, 3);
                }
            }
            if let Some(p) = img.get_pixel_mut_checked(x, y + 1) {
                add(p, &err, 5);
            }
            if let Some(p) = img.get_pixel_mut_checked(x + 1, y + 1) {
                add(p, &err, 1);
            }
        }
    }
}

fn pseudo_random_bytes(n: usize, seed: u32) -> Vec<u8> {
    let mut state = seed.wrapping_mul(2654435761).wrapping_add(12345);
    (0..n)
        .map(|_| {
            state ^= state << 13;
            state ^= state >> 17;
            state ^= state << 5;
            (state >> 7) as u8
        })
        .collect()
}

fn palette(levels: u8) -> Vec<u8> {
    (0..=levels as u32).map(|l| (l * 255 / levels as u32) as u8).collect()
}

#[test]
fn closest_color_with_four_levels() {
    let r = get_closest_color(&Rgb([0, 100, 255]), 4);
    // 100 * 4 / 255 = 1, 1 * 255 / 4 = 63
    assert_eq!(r, Rgb([0, 63, 255]));
    let r = get_closest_color(&Rgb([63, 64, 191]), 4);
    // 63 -> 0; 64 -> 1 -> 63; 191 -> 2 -> 127
    assert_eq!(r, Rgb([0, 63, 127]));
}

#[test]
fn closest_color_never_exceeds_input() {
    for q in 1..=255u8 {
        for c in 0..=255u8 {
            let r = get_closest_color(&Rgb([c, c, c]), q);
            assert!(r.0[0] <= c);
        }
    }
}

#[test]
fn closest_color_full_levels_is_identity() {
    for c in 0..=255u8 {
        assert_eq!(get_closest_color(&Rgb([c, 255 - c, c / 2]), 255), Rgb([c, 255 - c, c / 2]));
    }
}

#[test]
fn add_to_rgb_adds_a_fraction() {
    let mut p = 10u8;
    add_to_rgb(&mut p, &32, &7, &16);
    assert_eq!(p, 24);
}

#[test]
fn add_to_rgb_clamps_high() {
    let mut p = 250u8;
    add_to_rgb(&mut p, &255, &7, &16);
    assert_eq!(p, 255);
}

#[test]
fn add_to_rgb_clamps_low() {
    let mut p = 5u8;
    add_to_rgb(&mut p, &100, &-1, &1);
    assert_eq!(p, 0);
}

#[test]
fn add_to_rgb_rounds_towards_zero() {
    // -7 / 2 rounds to -3, not -4
    let mut p = 10u8;
    add_to_rgb(&mut p, &7, &-1, &2);
    assert_eq!(p, 7);
    // 7 / -2 rounds to -3 as well
    let mut p = 10u8;
    add_to_rgb(&mut p, &7, &1, &-2);
    assert_eq!(p, 7);
    // -7 / -2 rounds to 3
    let mut p = 10u8;
    add_to_rgb(&mut p, &7, &-1, &-2);
    assert_eq!(p, 13);
}

#[test]
fn add_two_rgb_works_per_channel() {
    let mut p = Rgb([0, 100, 250]);
    add_two_rgb(&mut p, &Rgb([16, 32, 200]), 5, 16);
    assert_eq!(p, Rgb([5, 110, 255]));
}

#[test]
fn rgb_image_from_raw_checks_length() {
    assert!(RgbImage::from_raw(2, 2, vec![0; 11]).is_none());
    let img = RgbImage::from_raw(2, 2, vec![0; 12]).unwrap();
    assert_eq!((img.width(), img.height()), (2, 2));
    assert!(RgbImage::from_raw(2, 2, vec![0; 13]).is_some());
    assert!(RgbImage::from_raw(u32::MAX, u32::MAX, vec![0; 3]).is_none());
    assert!(RgbImage::from_raw(0, 5, vec![]).is_some());
}

#[test]
fn pixel_slot_follows_rows() {
    let img = RgbImage::from_raw(3, 2, vec![0; 18]).unwrap();
    assert_eq!(img.pixel_slot(0, 0), Some(0));
    assert_eq!(img.pixel_slot(2, 0), Some(6));
    assert_eq!(img.pixel_slot(0, 1), Some(9));
    assert_eq!(img.pixel_slot(3, 0), None);
    assert_eq!(img.pixel_slot(0, 2), None);
    // a buffer longer than the pixels lets the row after the last be reached
    let longer = RgbImage::from_raw(3, 2, vec![0; 21]).unwrap();
    assert_eq!(longer.pixel_slot(0, 2), Some(18));
    assert_eq!(longer.pixel_slot(1, 2), None);
}

#[test]
fn pixel_access_round_trips() {
    let mut img = RgbImage::from_raw(2, 1, vec![1, 2, 3, 4, 5, 6]).unwrap();
    assert_eq!(img.pixel_at(3), Rgb([4, 5, 6]));
    img.set_pixel_at(0, Rgb([9, 8, 7]));
    assert_eq!(img.into_raw(), vec![9, 8, 7, 4, 5, 6]);
}

#[test]
fn dither_single_pixel() {
    let mut img = RgbImage::from_raw(1, 1, vec![100, 200, 30]).unwrap();
    dither(&mut img, 4);
    // 100 -> 63, 200 -> 191, 30 -> 0
    assert_eq!(img.as_raw(), &vec![63, 191, 0]);
}

#[test]
fn dither_spreads_error_to_the_right_and_below() {
    // 2x2 grey 100: first pixel 100 -> 63 with error 37
    let mut img = RgbImage::from_raw(2, 2, vec![100; 12]).unwrap();
    dither(&mut img, 4);
    let mut reference = image::RgbImage::from_raw(2, 2, vec![100; 12]).unwrap();
    reference_dither(&mut reference, 4);
    assert_eq!(img.as_raw(), reference.as_raw());
    // right neighbour got 100 + 37*7/16 = 116 -> quantised to 63
    assert_eq!(&img.as_raw()[3..6], &[63, 63, 63]);
}

#[test]
fn dither_matches_the_image_crate_reference() {
    for (seed, (w, h)) in [(1u32, (7u32, 5u32)), (2, (1, 9)), (3, (9, 1)), (4, (16, 16)), (5, (3, 3))]
        .into_iter()
    {
        for q in [1u8, 2, 4, 7, 128] {
            let data = pseudo_random_bytes((w * h * 3) as usize, seed + q as u32);
            let mut img = RgbImage::from_raw(w, h, data.clone()).unwrap();
            dither(&mut img, q);
            let mut reference = image::RgbImage::from_raw(w, h, data).unwrap();
            reference_dither(&mut reference, q);
            assert_eq!(img.as_raw(), reference.as_raw(), "seed {seed} size {w}x{h} levels {q}");
        }
    }
}

#[test]
fn dithered_pixels_lie_on_the_palette() {
    for q in [1u8, 3, 4, 10] {
        let data = pseudo_random_bytes(10 * 6 * 3, q as u32);
        let mut img = RgbImage::from_raw(10, 6, data).unwrap();
        dither(&mut img, q);
        let levels = palette(q);
        for b in img.as_raw() {
            assert!(levels.contains(b), "{b} not on the palette of {q} levels");
        }
    }
}

#[test]
fn dither_with_full_levels_changes_nothing() {
    let data = pseudo_random_bytes(8 * 4 * 3, 99);
    let mut img = RgbImage::from_raw(8, 4, data.clone()).unwrap();
    dither(&mut img, 255);
    assert_eq!(img.as_raw(), &data);
}

#[test]
fn dither_of_an_empty_image_with_zero_levels_changes_nothing() {
    let mut img = RgbImage::from_raw(0, 3, vec![7, 8]).unwrap();
    dither(&mut img, 0);
    assert_eq!(img.as_raw(), &vec![7, 8]);
}

#[test]
fn dither_keeps_the_dimensions() {
    let mut img = RgbImage::from_raw(4, 3, vec![128; 36]).unwrap();
    dither(&mut img, 4);
    assert_eq!((img.width(), img.height()), (4, 3));
    assert_eq!(img.as_raw().len(), 36);
}
