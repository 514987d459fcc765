//! Colour quantisation and error-diffusion dithering on RGB images.

use crate::rgb_image::{slot, slot_exists, RgbImage};
use vstd::math::abs;
use vstd::prelude::*;

verus! {

/// A pixel with a red, a green and a blue channel.
#[derive(Clone, Copy, Debug, PartialEq, Eq)]
pub struct Rgb(pub [u8; 3]);

/// `v` clamped into the range of a colour channel.
pub open spec fn clamp_channel(v: int) -> u8 {
    if v < 0 {
        0
    } else if v > 255 {
        255
    } else {
        v as u8
    }
}

/// Division rounding towards zero, as Rust's `/` on signed integers does.
pub open spec fn trunc_div(a: int, b: int) -> int {
    let q: int = abs(a) as int / abs(b) as int;
    if (a < 0) != (b < 0) {
        -q
    } else {
        q
    }
}

/// The channel `pixel` after `numerator / denominator` of `other` has been added
/// to it, clamped into `0..=255`.
pub open spec fn channel_add(pixel: u8, other: u8, numerator: int, denominator: int) -> u8 {
    clamp_channel(pixel + trunc_div(other * numerator, denominator))
}

/// The inputs on which `add_to_rgb` computes without dividing by zero or
/// overflowing `i32`.
pub open spec fn channel_add_in_range(pixel: u8, other: u8, numerator: int, denominator: int) -> bool {
    let product = other * numerator;
    &&& denominator != 0
    &&& i32::MIN <= product <= i32::MAX
    &&& !(product == i32::MIN && denominator == -1)
    &&& i32::MIN <= pixel + trunc_div(product, denominator) <= i32::MAX
}

/// The `level`-th of the `levels + 1` evenly spaced values that a channel is
/// quantised to.
pub open spec fn palette_level(level: int, levels: int) -> int {
    level * 255 / levels
}

/// `v` is one of the values that quantisation to `levels` steps produces.
pub open spec fn on_palette(v: u8, levels: u8) -> bool {
    exists|level: int| 0 <= level <= levels && v == palette_level(level, levels as int)
}

/// The channel value that `c` is quantised to with `levels` steps:
/// `c` scaled down to `0..=levels` (rounding down) and scaled back up.
pub open spec fn quantize(c: u8, levels: u8) -> u8 {
    palette_level((c as int) * (levels as int) / 255, levels as int) as u8
}

/// The part of `c` that quantisation removes.
pub open spec fn quant_error(c: u8, levels: u8) -> u8 {
    (c - quantize(c, levels)) as u8
}

/// Facts about quantising one channel: the result lies on the palette and never
/// exceeds the input.
pub proof fn lemma_quantize(c: u8, levels: u8)
    requires
        levels > 0,
    ensures
        quantize(c, levels) <= c,
        (c as int) * (levels as int) / 255 <= levels,
        palette_level((c as int) * (levels as int) / 255, levels as int) <= 255,
        on_palette(quantize(c, levels), levels),
{
    let l = levels as int;
    let a = (c as int) * l / 255;
    assert(0 <= a <= l) by (nonlinear_arith)
        requires
            a == (c as int) * l / 255,
            0 <= c <= 255,
            0 < l,
    ;
    assert(a * 255 <= (c as int) * l) by (nonlinear_arith)
        requires
            a == (c as int) * l / 255,
            0 <= c,
            0 < l,
    ;
    assert(0 <= a * 255 / l <= c) by (nonlinear_arith)
        requires
            a * 255 <= (c as int) * l,
            0 <= a,
            0 <= c <= 255,
            0 < l,
    ;
    assert(palette_level(a, l) == a * 255 / l);
    assert(quantize(c, levels) == palette_level(a, l));
}

/// With `255` steps every channel value is its own quantisation.
pub proof fn lemma_quantize_full_levels(c: u8)
    ensures
        quantize(c, 255) == c,
        quant_error(c, 255) == 0,
{
    assert((c as int) * 255 / 255 == c);
    assert(palette_level(c as int, 255) == c);
}

/// Quantises each channel of `pixel` to `quant + 1` evenly spaced levels.
pub fn get_closest_color(pixel: &Rgb, quant: u8) -> (r: Rgb)
    requires
        quant > 0,
    ensures
        forall|c: int| 0 <= c < 3 ==> r.0[c] == quantize(#[trigger] pixel.0[c], quant),
        forall|c: int| 0 <= c < 3 ==> r.0[c] <= #[trigger] pixel.0[c],
{
    let r = closest_channel(pixel.0[0], quant);
    let g = closest_channel(pixel.0[1], quant);
    let b = closest_channel(pixel.0[2], quant);
    Rgb([r, g, b])
}

/// Quantises one channel value to `quant + 1` evenly spaced levels.
fn closest_channel(c: u8, quant: u8) -> (r: u8)
    requires
        quant > 0,
    ensures
        r == quantize(c, quant),
        r <= c,
{
    proof {
        lemma_quantize(c, quant);
    }
    assert((c as u16) * (quant as u16) <= 65025) by (nonlinear_arith)
        requires
            c <= 255,
            quant <= 255,
    ;
    let scaled = (c as u16) * (quant as u16) / 255;
    assert(scaled * 255 <= 65025) by (nonlinear_arith)
        requires
            scaled <= quant,
            quant <= 255,
    ;
    let back = scaled * 255 / (quant as u16);
    back as u8
}

/// Adds `numerator / denominator` of `other_pixel` to `pixel`, clamping the
/// sum into `0..=255`.
pub fn add_to_rgb(pixel: &mut u8, other_pixel: &u8, numerator: &i32, denominator: &i32)
    requires
        channel_add_in_range(*old(pixel), *other_pixel, *numerator as int, *denominator as int),
    ensures
        *final(pixel) == channel_add(
            *old(pixel),
            *other_pixel,
            *numerator as int,
            *denominator as int,
        ),
{
    let product = *other_pixel as i32 * *numerator;
    // `product / denominator` rounded towards zero, computed on the magnitudes.
    let p = product as i64;
    let d = *denominator as i64;
    let magnitude_p: i64 = if p < 0 { -p } else { p };
    let magnitude_d: i64 = if d < 0 { -d } else { d };
    let magnitude_q = magnitude_p / magnitude_d;
    let quotient: i64 = if (p < 0) != (d < 0) { -magnitude_q } else { magnitude_q };
    assert(quotient == trunc_div(product as int, *denominator as int));
    let store = *pixel as i64 + quotient;
    if store < 0 {
        *pixel = 0;
    } else if store > 255 {
        *pixel = 255;
    } else {
        *pixel = store as u8;
    }
}

/// Adds `numerator / denominator` of each channel of `other_pixel` to the same
/// channel of `pixel`, clamping each sum into `0..=255`.
pub fn add_two_rgb(pixel: &mut Rgb, other_pixel: &Rgb, numerator: i32, denominator: i32)
    requires
        forall|c: int|
            0 <= c < 3 ==> channel_add_in_range(
                #[trigger] old(pixel).0[c],
                other_pixel.0[c],
                numerator as int,
                denominator as int,
            ),
    ensures
        forall|c: int|
            0 <= c < 3 ==> final(pixel).0[c] == channel_add(
                #[trigger] old(pixel).0[c],
                other_pixel.0[c],
                numerator as int,
                denominator as int,
            ),
{
    assert(channel_add_in_range(pixel.0[0], other_pixel.0[0], numerator as int, denominator as int));
    assert(channel_add_in_range(pixel.0[1], other_pixel.0[1], numerator as int, denominator as int));
    assert(channel_add_in_range(pixel.0[2], other_pixel.0[2], numerator as int, denominator as int));
    add_to_rgb(&mut pixel.0[0], &other_pixel.0[0], &numerator, &denominator);
    add_to_rgb(&mut pixel.0[1], &other_pixel.0[1], &numerator, &denominator);
    add_to_rgb(&mut pixel.0[2], &other_pixel.0[2], &numerator, &denominator);
}

/// `data` with the channels of the pixel at `i` quantised to `levels` steps.
pub open spec fn quantize_pixel(data: Seq<u8>, i: int, levels: u8) -> Seq<u8> {
    data.update(i, quantize(data[i], levels)).update(i + 1, quantize(data[i + 1], levels)).update(
        i + 2,
        quantize(data[i + 2], levels),
    )
}

/// `data` after `weight / 16` of the error `(e0, e1, e2)` has been added to pixel
/// `(x, y)` of an image `width` pixels wide, when that pixel can be reached.
pub open spec fn spread_error(
    data: Seq<u8>,
    width: int,
    x: int,
    y: int,
    e0: u8,
    e1: u8,
    e2: u8,
    weight: int,
) -> Seq<u8> {
    if slot_exists(data.len() as int, width, x, y) {
        let t = slot(width, x, y);
        data.update(t, channel_add(data[t], e0, weight, 16)).update(
            t + 1,
            channel_add(data[t + 1], e1, weight, 16),
        ).update(t + 2, channel_add(data[t + 2], e2, weight, 16))
    } else {
        data
    }
}

/// One step of the dithering: pixel `(x, y)` is quantised and its quantisation
/// error is spread over the pixels right (7/16), below left (3/16), below (5/16)
/// and below right (1/16) of it.
pub open spec fn dither_step(data: Seq<u8>, width: int, x: int, y: int, levels: u8) -> Seq<u8> {
    let s = slot(width, x, y);
    let e0 = quant_error(data[s], levels);
    let e1 = quant_error(data[s + 1], levels);
    let e2 = quant_error(data[s + 2], levels);
    let d1 = quantize_pixel(data, s, levels);
    let d2 = spread_error(d1, width, x + 1, y, e0, e1, e2, 7);
    let d3 = if x != 0 {
        spread_error(d2, width, x - 1, y + 1, e0, e1, e2, 3)
    } else {
        d2
    };
    let d4 = spread_error(d3, width, x, y + 1, e0, e1, e2, 5);
    spread_error(d4, width, x + 1, y + 1, e0, e1, e2, 1)
}

/// `data` after the first `count` pixels, in row order, have been dithered.
pub open spec fn dither_prefix(data: Seq<u8>, width: int, levels: u8, count: nat) -> Seq<u8>
    decreases count,
{
    if count == 0 {
        data
    } else {
        let k = count - 1;
        dither_step(
            dither_prefix(data, width, levels, (count - 1) as nat),
            width,
            k % width,
            k / width,
            levels,
        )
    }
}

/// The raw buffer of a `width` by `height` image after every pixel has been
/// dithered, row by row.
pub open spec fn dithered(data: Seq<u8>, width: int, height: int, levels: u8) -> Seq<u8> {
    dither_prefix(data, width, levels, (width * height) as nat)
}

/// Pixel `k` in row order is pixel `(k % width, k / width)`.
proof fn lemma_row_order(x: int, y: int, width: int)
    requires
        0 <= x < width,
        0 <= y,
    ensures
        (y * width + x) % width == x,
        (y * width + x) / width == y,
{
    vstd::arithmetic::div_mod::lemma_fundamental_div_mod_converse(y * width + x, width, y, x);
}

/// The pixels after pixel `(x, y)` that receive its error start at or after
/// the pixel that follows it.
proof fn lemma_neighbour_slots(width: int, x: int, y: int)
    requires
        0 <= x < width,
        0 <= y,
    ensures
        slot(width, x + 1, y) == slot(width, x, y) + 3,
        slot(width, x, y + 1) == slot(width, x, y) + 3 * width,
        slot(width, x + 1, y + 1) == slot(width, x, y) + 3 * width + 3,
        x >= 1 ==> slot(width, x - 1, y + 1) == slot(width, x, y) + 3 * width - 3,
        slot(width, x, y) >= 0,
{
    assert((y + 1) * width == y * width + width) by (nonlinear_arith);
    assert(y * width >= 0) by (nonlinear_arith)
        requires
            0 <= y,
            0 <= width,
    ;
}

/// A pixel inside a `width` by `height` image lies inside a buffer that holds
/// the image.
proof fn lemma_inside_slot(width: int, height: int, len: int, x: int, y: int)
    requires
        0 <= x < width,
        0 <= y < height,
        3 * width * height <= len,
    ensures
        slot_exists(len, width, x, y),
        y * width + x < width * height,
{
    assert(y * width + x < width * height) by (nonlinear_arith)
        requires
            0 <= x < width,
            0 <= y < height,
    ;
    assert(3 * width * height == 3 * (width * height)) by (nonlinear_arith);
}

/// Spreading an error only touches the three channels of the target pixel.
proof fn lemma_spread_frame(
    data: Seq<u8>,
    width: int,
    x: int,
    y: int,
    e0: u8,
    e1: u8,
    e2: u8,
    weight: int,
)
    ensures
        spread_error(data, width, x, y, e0, e1, e2, weight).len() == data.len(),
        forall|i: int|
            0 <= i < data.len() && !(slot_exists(data.len() as int, width, x, y) && slot(
                width,
                x,
                y,
            ) <= i < slot(width, x, y) + 3) ==> #[trigger] spread_error(
                data,
                width,
                x,
                y,
                e0,
                e1,
                e2,
                weight,
            )[i] == data[i],
{
}

/// A dithering step leaves the pixels before `(x, y)` alone and puts pixel
/// `(x, y)` on the palette.
proof fn lemma_step_frame(data: Seq<u8>, width: int, x: int, y: int, levels: u8)
    requires
        0 <= x < width,
        0 <= y,
        slot_exists(data.len() as int, width, x, y),
        levels > 0,
    ensures
        dither_step(data, width, x, y, levels).len() == data.len(),
        forall|i: int|
            0 <= i < slot(width, x, y) ==> #[trigger] dither_step(data, width, x, y, levels)[i]
                == data[i],
        forall|i: int|
            slot(width, x, y) <= i < slot(width, x, y) + 3 ==> #[trigger] dither_step(
                data,
                width,
                x,
                y,
                levels,
            )[i] == quantize(data[i], levels),
{
    lemma_neighbour_slots(width, x, y);
    let s = slot(width, x, y);
    let e0 = quant_error(data[s], levels);
    let e1 = quant_error(data[s + 1], levels);
    let e2 = quant_error(data[s + 2], levels);
    let d1 = quantize_pixel(data, s, levels);
    let d2 = spread_error(d1, width, x + 1, y, e0, e1, e2, 7);
    let d3 = if x != 0 {
        spread_error(d2, width, x - 1, y + 1, e0, e1, e2, 3)
    } else {
        d2
    };
    let d4 = spread_error(d3, width, x, y + 1, e0, e1, e2, 5);
    lemma_spread_frame(d1, width, x + 1, y, e0, e1, e2, 7);
    lemma_spread_frame(d2, width, x - 1, y + 1, e0, e1, e2, 3);
    lemma_spread_frame(d3, width, x, y + 1, e0, e1, e2, 5);
    lemma_spread_frame(d4, width, x + 1, y + 1, e0, e1, e2, 1);
    assert forall|i: int| 0 <= i < s + 3 implies #[trigger] dither_step(data, width, x, y, levels)[i]
        == d1[i] by {
        assert(d2[i] == d1[i]);
        assert(d3[i] == d1[i]);
        assert(d4[i] == d1[i]);
    }
}

/// After the first `count` pixels have been dithered, each of their channels lies
/// on the palette, and the buffer keeps its length.
proof fn lemma_prefix_on_palette(data: Seq<u8>, width: int, height: int, levels: u8, count: nat)
    requires
        levels > 0,
        0 < width,
        0 <= height,
        3 * width * height <= data.len(),
        count <= width * height,
    ensures
        dither_prefix(data, width, levels, count).len() == data.len(),
        forall|i: int|
            0 <= i < 3 * count ==> on_palette(
                #[trigger] dither_prefix(data, width, levels, count)[i],
                levels,
            ),
    decreases count,
{
    if count > 0 {
        let k = (count - 1) as int;
        let prev = dither_prefix(data, width, levels, (count - 1) as nat);
        lemma_prefix_on_palette(data, width, height, levels, (count - 1) as nat);
        let x = k % width;
        let y = k / width;
        vstd::arithmetic::div_mod::lemma_fundamental_div_mod(k, width);
        assert(0 <= x < width);
        assert(y >= 0) by (nonlinear_arith)
            requires
                y == k / width,
                k >= 0,
                width > 0,
        ;
        assert(y * width + x == k) by (nonlinear_arith)
            requires
                k == width * (k / width) + k % width,
                y == k / width,
                x == k % width,
        ;
        assert(y < height) by (nonlinear_arith)
            requires
                y * width + x == k,
                k < width * height,
                0 <= x,
                0 < width,
        ;
        lemma_inside_slot(width, height, data.len() as int, x, y);
        lemma_step_frame(prev, width, x, y, levels);
        assert(slot(width, x, y) == 3 * k);
        let next = dither_prefix(data, width, levels, count);
        assert(next == dither_step(prev, width, x, y, levels));
        assert forall|i: int| 0 <= i < 3 * count implies on_palette(#[trigger] next[i], levels) by {
            if i >= 3 * k {
                lemma_quantize(prev[i], levels);
            } else {
                assert(next[i] == prev[i]);
            }
        }
    }
}

/// Law: after dithering, every channel of every pixel of the image is one of the
/// `levels + 1` palette values.
pub proof fn lemma_dithered_on_palette(data: Seq<u8>, width: int, height: int, levels: u8)
    requires
        levels > 0,
        0 <= width,
        0 <= height,
        3 * width * height <= data.len(),
    ensures
        forall|i: int|
            0 <= i < 3 * width * height ==> on_palette(
                #[trigger] dithered(data, width, height, levels)[i],
                levels,
            ),
{
    assert(width * height >= 0) by (nonlinear_arith)
        requires
            0 <= width,
            0 <= height,
    ;
    assert(3 * width * height == 3 * (width * height)) by (nonlinear_arith);
    if width > 0 {
        lemma_prefix_on_palette(data, width, height, levels, (width * height) as nat);
    } else {
        assert(3 * width * height == 0);
    }
}

/// With 255 steps per channel, a dithering step changes nothing.
proof fn lemma_step_full_levels(data: Seq<u8>, width: int, x: int, y: int)
    requires
        slot_exists(data.len() as int, width, x, y),
    ensures
        dither_step(data, width, x, y, 255) == data,
{
    let s = slot(width, x, y);
    lemma_quantize_full_levels(data[s]);
    lemma_quantize_full_levels(data[s + 1]);
    lemma_quantize_full_levels(data[s + 2]);
    assert(quantize_pixel(data, s, 255) =~= data);
    assert forall|c: u8, w: int| channel_add(c, 0, w, 16) == c by {
        assert(trunc_div(0 * w, 16) == 0);
    }
    assert forall|cx: int, cy: int, w: int| #[trigger]
        spread_error(data, width, cx, cy, 0, 0, 0, w) == data by {
        if slot_exists(data.len() as int, width, cx, cy) {
            let t = slot(width, cx, cy);
            assert(spread_error(data, width, cx, cy, 0, 0, 0, w) =~= data);
        }
    }
}

/// With 255 steps per channel, dithering any number of pixels changes nothing.
proof fn lemma_prefix_full_levels(data: Seq<u8>, width: int, height: int, count: nat)
    requires
        0 < width,
        0 <= height,
        3 * width * height <= data.len(),
        count <= width * height,
    ensures
        dither_prefix(data, width, 255, count) == data,
    decreases count,
{
    if count > 0 {
        let k = (count - 1) as int;
        lemma_prefix_full_levels(data, width, height, (count - 1) as nat);
        let x = k % width;
        let y = k / width;
        vstd::arithmetic::div_mod::lemma_fundamental_div_mod(k, width);
        assert(y >= 0) by (nonlinear_arith)
            requires
                y == k / width,
                k >= 0,
                width > 0,
        ;
        assert(y * width + x == k) by (nonlinear_arith)
            requires
                k == width * (k / width) + k % width,
                y == k / width,
                x == k % width,
        ;
        assert(y < height) by (nonlinear_arith)
            requires
                y * width + x == k,
                k < width * height,
                0 <= x,
                0 < width,
        ;
        lemma_inside_slot(width, height, data.len() as int, x, y);
        lemma_step_full_levels(data, width, x, y);
    }
}

/// Law: dithering with 255 steps per channel leaves the image unchanged.
pub proof fn lemma_dithered_full_levels(data: Seq<u8>, width: int, height: int)
    requires
        0 <= width,
        0 <= height,
        3 * width * height <= data.len(),
    ensures
        dithered(data, width, height, 255) == data,
{
    if width > 0 {
        assert(width * height >= 0) by (nonlinear_arith)
            requires
                0 <= width,
                0 <= height,
        ;
        lemma_prefix_full_levels(data, width, height, (width * height) as nat);
    } else {
        assert(width * height == 0);
    }
}

/// `v` clamped to at most 255; the error spread to a pixel is never negative.
pub open spec fn at_most_255(v: int) -> int {
    if v > 255 {
        255
    } else {
        v
    }
}

/// Law: one Floyd-Steinberg step at pixel `(x, y)`. The pixel is replaced by
/// its quantised value; with `err` the amount each of its channels lost, the
/// pixel to the right gains `err * 7 / 16`, the pixel below left (for every
/// `x >= 1`) `err * 3 / 16`, the pixel below `err * 5 / 16` and the pixel
/// below right `err * 1 / 16`, each sum clamped at 255, whenever that pixel
/// lies in the buffer; every other byte is left as it was.
pub proof fn lemma_dither_step_spreads(data: Seq<u8>, width: int, x: int, y: int, levels: u8)
    requires
        0 <= x < width,
        0 <= y,
        slot_exists(data.len() as int, width, x, y),
        levels > 0,
    ensures
        ({
            let out = dither_step(data, width, x, y, levels);
            let s = slot(width, x, y);
            let len = data.len() as int;
            &&& out.len() == data.len()
            &&& forall|c: int|
                0 <= c < 3 ==> #[trigger] out[s + c] == quantize(data[s + c], levels)
                    && out[s + c] <= data[s + c]
            &&& forall|c: int|
                0 <= c < 3 && slot_exists(len, width, x + 1, y) ==> #[trigger] out[slot(
                    width,
                    x + 1,
                    y,
                ) + c] == at_most_255(
                    data[slot(width, x + 1, y) + c] + (data[s + c] - out[s + c]) * 7 / 16,
                )
            &&& forall|c: int|
                0 <= c < 3 && x >= 1 && slot_exists(len, width, x - 1, y + 1) ==> #[trigger] out[slot(
                    width,
                    x - 1,
                    y + 1,
                ) + c] == at_most_255(
                    data[slot(width, x - 1, y + 1) + c] + (data[s + c] - out[s + c]) * 3 / 16,
                )
            &&& forall|c: int|
                0 <= c < 3 && slot_exists(len, width, x, y + 1) ==> #[trigger] out[slot(
                    width,
                    x,
                    y + 1,
                ) + c] == at_most_255(
                    data[slot(width, x, y + 1) + c] + (data[s + c] - out[s + c]) * 5 / 16,
                )
            &&& forall|c: int|
                0 <= c < 3 && slot_exists(len, width, x + 1, y + 1) ==> #[trigger] out[slot(
                    width,
                    x + 1,
                    y + 1,
                ) + c] == at_most_255(
                    data[slot(width, x + 1, y + 1) + c] + (data[s + c] - out[s + c]) / 16,
                )
        }),
{
    lemma_neighbour_slots(width, x, y);
    lemma_step_frame(data, width, x, y, levels);
    let s = slot(width, x, y);
    let len = data.len() as int;
    let e0 = quant_error(data[s], levels);
    let e1 = quant_error(data[s + 1], levels);
    let e2 = quant_error(data[s + 2], levels);
    let d1 = quantize_pixel(data, s, levels);
    let d2 = spread_error(d1, width, x + 1, y, e0, e1, e2, 7);
    let d3 = if x != 0 {
        spread_error(d2, width, x - 1, y + 1, e0, e1, e2, 3)
    } else {
        d2
    };
    let d4 = spread_error(d3, width, x, y + 1, e0, e1, e2, 5);
    let out = dither_step(data, width, x, y, levels);
    assert(out == spread_error(d4, width, x + 1, y + 1, e0, e1, e2, 1));
    lemma_spread_frame(d1, width, x + 1, y, e0, e1, e2, 7);
    lemma_spread_frame(d2, width, x - 1, y + 1, e0, e1, e2, 3);
    lemma_spread_frame(d3, width, x, y + 1, e0, e1, e2, 5);
    lemma_spread_frame(d4, width, x + 1, y + 1, e0, e1, e2, 1);
    lemma_quantize(data[s], levels);
    lemma_quantize(data[s + 1], levels);
    lemma_quantize(data[s + 2], levels);
    assert(data[s] - out[s] == e0);
    assert(data[s + 1] - out[s + 1] == e1);
    assert(data[s + 2] - out[s + 2] == e2);
    assert forall|p: u8, e: u8, w: int| 0 <= w <= 16 implies #[trigger] channel_add(p, e, w, 16)
        == at_most_255(p + e * w / 16) by {
        assert(0 <= e * w) by (nonlinear_arith)
            requires
                0 <= e,
                0 <= w,
        ;
        assert(trunc_div(e * w, 16) == e * w / 16);
    }
    let bl = slot(width, x - 1, y + 1);
    assert forall|c: int| 0 <= c < 3 && x >= 1 && slot_exists(len, width, x - 1, y + 1) implies #[trigger] out[slot(
        width,
        x - 1,
        y + 1,
    ) + c] == at_most_255(data[slot(width, x - 1, y + 1) + c] + (data[s + c] - out[s + c]) * 3 / 16) by {
        assert(d1[bl + c] == data[bl + c]);
        assert(d2[bl + c] == d1[bl + c]);
        assert(d4[bl + c] == d3[bl + c]);
        assert(out[bl + c] == d4[bl + c]);
        if c == 0 {
        } else if c == 1 {
        } else {
        }
    }
    let r = slot(width, x + 1, y);
    assert forall|c: int| 0 <= c < 3 && slot_exists(len, width, x + 1, y) implies #[trigger] out[slot(
        width,
        x + 1,
        y,
    ) + c] == at_most_255(data[slot(width, x + 1, y) + c] + (data[s + c] - out[s + c]) * 7 / 16) by {
        assert(d1[r + c] == data[r + c]);
        assert(d3[r + c] == d2[r + c]);
        assert(d4[r + c] == d3[r + c]);
        assert(out[r + c] == d4[r + c]);
        if c == 0 {
        } else if c == 1 {
        } else {
        }
    }
    let b = slot(width, x, y + 1);
    assert forall|c: int| 0 <= c < 3 && slot_exists(len, width, x, y + 1) implies #[trigger] out[slot(
        width,
        x,
        y + 1,
    ) + c] == at_most_255(data[slot(width, x, y + 1) + c] + (data[s + c] - out[s + c]) * 5 / 16) by {
        assert(d1[b + c] == data[b + c]);
        assert(d2[b + c] == d1[b + c]);
        assert(d3[b + c] == d2[b + c]);
        assert(out[b + c] == d4[b + c]);
        if c == 0 {
        } else if c == 1 {
        } else {
        }
    }
    let br = slot(width, x + 1, y + 1);
    assert forall|c: int| 0 <= c < 3 && slot_exists(len, width, x + 1, y + 1) implies #[trigger] out[slot(
        width,
        x + 1,
        y + 1,
    ) + c] == at_most_255(data[slot(width, x + 1, y + 1) + c] + (data[s + c] - out[s + c]) / 16) by {
        assert(d1[br + c] == data[br + c]);
        assert(d2[br + c] == d1[br + c]);
        assert(d3[br + c] == d2[br + c]);
        assert(d4[br + c] == d3[br + c]);
        assert((data[s + c] - out[s + c]) * 1 == data[s + c] - out[s + c]);
        if c == 0 {
        } else if c == 1 {
        } else {
        }
    }
}

/// Adds `numerator / 16` of `err` to pixel `(x, y)` when that pixel can be
/// reached.
fn spread_to(img: &mut RgbImage, x: u32, y: u32, err: &Rgb, numerator: i32)
    requires
        0 <= numerator <= 16,
    ensures
        final(img)@.len() == old(img)@.len(),
        final(img).spec_width() == old(img).spec_width(),
        final(img).spec_height() == old(img).spec_height(),
        final(img)@ == spread_error(
            old(img)@,
            old(img).spec_width() as int,
            x as int,
            y as int,
            err.0[0],
            err.0[1],
            err.0[2],
            numerator as int,
        ),
{
    match img.pixel_slot(x, y) {
        Some(i) => {
            let mut p = img.pixel_at(i);
            proof {
                assert forall|c: int| 0 <= c < 3 implies channel_add_in_range(
                    #[trigger] p.0[c],
                    err.0[c],
                    numerator as int,
                    16,
                ) by {
                    let o = err.0[c] as int;
                    assert(0 <= o * (numerator as int) <= 4080) by (nonlinear_arith)
                        requires
                            0 <= o <= 255,
                            0 <= numerator <= 16,
                    ;
                    let q = trunc_div(o * (numerator as int), 16);
                    assert(q == (o * (numerator as int)) / 16);
                    assert(q <= 255);
                }
            }
            add_two_rgb(&mut p, err, numerator, 16);
            img.set_pixel_at(i, p);
        },
        None => {},
    }
}

/// Quantises pixel `(x, y)` and spreads its quantisation error over its
/// neighbours that have not been visited yet.
fn dither_pixel(img: &mut RgbImage, x: u32, y: u32, quant_per_color: u8)
    requires
        x < old(img).spec_width(),
        y < old(img).spec_height(),
        quant_per_color > 0,
    ensures
        final(img)@.len() == old(img)@.len(),
        final(img).spec_width() == old(img).spec_width(),
        final(img).spec_height() == old(img).spec_height(),
        final(img)@ == dither_step(
            old(img)@,
            old(img).spec_width() as int,
            x as int,
            y as int,
            quant_per_color,
        ),
{
    img.well_formed_facts();
    proof {
        lemma_inside_slot(
            img.spec_width() as int,
            img.spec_height() as int,
            img@.len() as int,
            x as int,
            y as int,
        );
    }
    let i = match img.pixel_slot(x, y) {
        Some(i) => i,
        None => return ,
    };
    let pix = img.pixel_at(i);
    let new = get_closest_color(&pix, quant_per_color);
    let err = Rgb([pix.0[0] - new.0[0], pix.0[1] - new.0[1], pix.0[2] - new.0[2]]);
    img.set_pixel_at(i, new);
    spread_to(img, x + 1, y, &err, 7);
    if x != 0 {
        spread_to(img, x - 1, y + 1, &err, 3);
    }
    spread_to(img, x, y + 1, &err, 5);
    spread_to(img, x + 1, y + 1, &err, 1);
}

/// Dithers `img` in place: pixel by pixel, row by row, each channel is quantised
/// to `quant_per_color + 1` evenly spaced levels and the quantisation error is
/// spread over the neighbouring pixels not yet visited.
pub fn dither(img: &mut RgbImage, quant_per_color: u8)
    requires
        (old(img).spec_width() as int) * (old(img).spec_height() as int) > 0 ==> quant_per_color
            > 0,
    ensures
        final(img)@.len() == old(img)@.len(),
        final(img).spec_width() == old(img).spec_width(),
        final(img).spec_height() == old(img).spec_height(),
        final(img)@ == dithered(
            old(img)@,
            old(img).spec_width() as int,
            old(img).spec_height() as int,
            quant_per_color,
        ),
        forall|i: int|
            0 <= i < 3 * (old(img).spec_width() as int) * (old(img).spec_height() as int)
                ==> on_palette(#[trigger] final(img)@[i], quant_per_color),
        quant_per_color == 255 ==> final(img)@ == old(img)@,
{
    let ghost start = img@;
    let width = img.width();
    let height = img.height();
    img.well_formed_facts();
    let mut y: u32 = 0;
    while y < height
        invariant
            img.spec_width() == width,
            img.spec_height() == height,
            img@.len() == start.len(),
            y <= height,
            (width as int) * (height as int) > 0 ==> quant_per_color > 0,
            img@ == dither_prefix(start, width as int, quant_per_color, (y * width) as nat),
        decreases height - y,
    {
        let mut x: u32 = 0;
        while x < width
            invariant
                img.spec_width() == width,
                img.spec_height() == height,
                img@.len() == start.len(),
                y < height,
                x <= width,
                (width as int) * (height as int) > 0 ==> quant_per_color > 0,
                img@ == dither_prefix(
                    start,
                    width as int,
                    quant_per_color,
                    (y * width + x) as nat,
                ),
            decreases width - x,
        {
            proof {
                assert((width as int) * (height as int) > 0) by (nonlinear_arith)
                    requires
                        x < width,
                        y < height,
                ;
                lemma_row_order(x as int, y as int, width as int);
                assert(y * width + x >= 0) by (nonlinear_arith)
                    requires
                        0 <= x,
                        0 <= y,
                        0 <= width,
                ;
            }
            dither_pixel(img, x, y, quant_per_color);
            x = x + 1;
        }
        proof {
            assert((y + 1) * width == y * width + width) by (nonlinear_arith);
        }
        y = y + 1;
    }
    proof {
        assert(y == height);
        assert((height as int) * (width as int) == (width as int) * (height as int))
            by (nonlinear_arith);
        assert(3 * (width as int) * (height as int) <= start.len());
        if quant_per_color > 0 {
            lemma_dithered_on_palette(start, width as int, height as int, quant_per_color);
        } else {
            assert((width as int) * (height as int) <= 0);
            assert(3 * (width as int) * (height as int) == 3 * ((width as int) * (height as int)))
                by (nonlinear_arith);
        }
        if quant_per_color == 255 {
            lemma_dithered_full_levels(start, width as int, height as int);
        }
    }
}

} // verus!
