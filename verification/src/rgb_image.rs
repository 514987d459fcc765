//! An RGB image with 8 bits per channel, stored row by row.

use crate::dither::Rgb;
use vstd::prelude::*;

verus! {

/// Index of the first channel of pixel `(x, y)` in the raw buffer of an image
/// `width` pixels wide.
pub open spec fn slot(width: int, x: int, y: int) -> int {
    (y * width + x) * 3
}

/// A pixel `(x, y)` can be reached in a raw buffer of `len` bytes of an image
/// `width` pixels wide: `x` lies inside a row and the three channels lie inside
/// the buffer.
pub open spec fn slot_exists(len: int, width: int, x: int, y: int) -> bool {
    &&& 0 <= x < width
    &&& 0 <= y
    &&& slot(width, x, y) + 3 <= len
}

/// An RGB image: `height` rows of `width` pixels, three bytes per pixel, in a
/// buffer that may be longer than the pixels need.
pub struct RgbImage {
    width: u32,
    height: u32,
    data: Vec<u8>,
}

impl View for RgbImage {
    type V = Seq<u8>;

    /// The raw buffer.
    closed spec fn view(&self) -> Seq<u8> {
        self.data@
    }
}

impl RgbImage {
    /// The buffer holds every pixel.
    #[verifier::type_invariant]
    spec fn well_formed(self) -> bool {
        3 * (self.width as int) * (self.height as int) <= self.data@.len()
    }

    /// The number of pixels in a row.
    pub closed spec fn spec_width(&self) -> u32 {
        self.width
    }

    /// The number of rows.
    pub closed spec fn spec_height(&self) -> u32 {
        self.height
    }

    /// Builds an image from a raw buffer; `None` when the buffer is too short to
    /// hold `width * height` pixels.
    pub fn from_raw(width: u32, height: u32, data: Vec<u8>) -> (r: Option<RgbImage>)
        ensures
            r is Some <==> 3 * (width as int) * (height as int) <= data@.len(),
            r matches Some(img) ==> {
                &&& img.spec_width() == width
                &&& img.spec_height() == height
                &&& img@ == data@
            },
    {
        let len = data.len();
        proof {
            assert(3 * (width as int) * (height as int) == ((width as int) * (height as int)) * 3)
                by (nonlinear_arith);
            assert((width as int) * (height as int) >= 0) by (nonlinear_arith);
        }
        let area = match (width as usize).checked_mul(height as usize) {
            Some(a) => a,
            None => return None,
        };
        let needed = match area.checked_mul(3) {
            Some(n) => n,
            None => return None,
        };
        if needed <= len {
            Some(RgbImage { width, height, data })
        } else {
            None
        }
    }

    /// The number of pixels in a row.
    pub fn width(&self) -> (w: u32)
        ensures
            w == self.spec_width(),
    {
        self.width
    }

    /// The number of rows.
    pub fn height(&self) -> (h: u32)
        ensures
            h == self.spec_height(),
    {
        self.height
    }

    /// The raw buffer.
    pub fn as_raw(&self) -> (r: &Vec<u8>)
        ensures
            r@ == self@,
    {
        &self.data
    }

    /// Gives up the image and returns its raw buffer.
    pub fn into_raw(self) -> (r: Vec<u8>)
        ensures
            r@ == self@,
    {
        self.data
    }

    /// The buffer holds every pixel.
    pub(crate) fn well_formed_facts(&self)
        ensures
            3 * (self.spec_width() as int) * (self.spec_height() as int) <= self@.len(),
    {
        proof {
            use_type_invariant(self);
        }
    }

    /// The index of the first channel of pixel `(x, y)`, or `None` when `x` lies
    /// outside a row or the pixel lies past the end of the buffer.
    pub fn pixel_slot(&self, x: u32, y: u32) -> (r: Option<usize>)
        ensures
            r is Some <==> slot_exists(self@.len() as int, self.spec_width() as int, x as int, y as int),
            r matches Some(i) ==> i == slot(self.spec_width() as int, x as int, y as int),
    {
        let len = self.data.len();
        if x >= self.width {
            return None;
        }
        let row = match (y as usize).checked_mul(self.width as usize) {
            Some(r) => r,
            None => {
                proof {
                    lemma_slot_lower_bound(self.width as int, x as int, y as int);
                }
                return None;
            },
        };
        let index = match row.checked_add(x as usize) {
            Some(i) => i,
            None => {
                proof {
                    lemma_slot_lower_bound(self.width as int, x as int, y as int);
                }
                return None;
            },
        };
        let start = match index.checked_mul(3) {
            Some(s) => s,
            None => return None,
        };
        if start >= len || len - start < 3 {
            return None;
        }
        Some(start)
    }

    /// The pixel whose first channel is at index `i`.
    pub fn pixel_at(&self, i: usize) -> (p: Rgb)
        requires
            i + 3 <= self@.len(),
        ensures
            p.0[0] == self@[i as int],
            p.0[1] == self@[i + 1],
            p.0[2] == self@[i + 2],
    {
        let len = self.data.len();
        Rgb([self.data[i], self.data[i + 1], self.data[i + 2]])
    }

    /// Overwrites the pixel whose first channel is at index `i`.
    pub fn set_pixel_at(&mut self, i: usize, p: Rgb)
        requires
            i + 3 <= old(self)@.len(),
        ensures
            final(self).spec_width() == old(self).spec_width(),
            final(self).spec_height() == old(self).spec_height(),
            final(self)@ == old(self)@.update(i as int, p.0[0]).update(i + 1, p.0[1]).update(
                i + 2,
                p.0[2],
            ),
    {
        proof {
            use_type_invariant(&*self);
        }
        let len = self.data.len();
        self.data[i] = p.0[0];
        self.data[i + 1] = p.0[1];
        self.data[i + 2] = p.0[2];
    }
}

/// The first channel of a pixel lies no earlier than the start of its row.
proof fn lemma_slot_lower_bound(width: int, x: int, y: int)
    requires
        0 <= x,
        0 <= y,
        0 <= width,
    ensures
        slot(width, x, y) >= 3 * (y * width),
        y * width >= 0,
{
    assert(y * width >= 0) by (nonlinear_arith)
        requires
            0 <= y,
            0 <= width,
    ;
}

} // verus!
