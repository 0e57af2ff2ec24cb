//! The pixel buffer that the canvas draws into: its size, checked before anything is
//! allocated.
use vstd::prelude::*;
use crate::error::{invalid_input, result_view, ErrorView, InputError};

verus! {

/// The layout of an RGBA image of 8 bits per channel, rows one after another.
#[derive(Clone, Copy, Debug, PartialEq, Eq, Structural)]
pub struct ImageLayout {
    pub width: usize,
    pub height: usize,
    /// Bytes per row: four per pixel.
    pub row_bytes: usize,
    /// Bytes of the whole image.
    pub byte_len: usize,
}

impl View for ImageLayout {
    type V = ImageLayout;

    open spec fn view(&self) -> ImageLayout {
        *self
    }
}

/// The layout of a `w` by `h` image: both must be positive, and its rows and the whole
/// image must count their bytes in a `usize`.
pub open spec fn image_layout_of(w: i32, h: i32) -> Result<ImageLayout, ErrorView> {
    if w <= 0 || h <= 0 {
        Err(ErrorView::InvalidInput("image size must be positive"@))
    } else if w * 4 > usize::MAX {
        Err(ErrorView::InvalidInput("image row is too large"@))
    } else if w * h * 4 > usize::MAX {
        Err(ErrorView::InvalidInput("image size is too large"@))
    } else {
        Ok(
            ImageLayout {
                width: w as usize,
                height: h as usize,
                row_bytes: (w * 4) as usize,
                byte_len: (w * h * 4) as usize,
            },
        )
    }
}

/// The layout of the RGBA buffer of a `w` by `h` image.
pub fn image_layout(w: i32, h: i32) -> (r: Result<ImageLayout, InputError>)
    ensures
        result_view(r) == image_layout_of(w, h),
        r matches Ok(l) ==> l.row_bytes == 4 * l.width && l.byte_len == l.row_bytes * l.height,
{
    if w <= 0 || h <= 0 {
        return Err(invalid_input("image size must be positive"));
    }
    let width: usize = w as usize;
    let height: usize = h as usize;
    let row_bytes: usize = match width.checked_mul(4) {
        Some(n) => n,
        None => return Err(invalid_input("image row is too large")),
    };
    let pixels: usize = match width.checked_mul(height) {
        Some(n) => n,
        None => {
            assert(w * h * 4 > usize::MAX) by (nonlinear_arith)
                requires
                    w * h > usize::MAX,
                    h > 0,
            ;
            return Err(invalid_input("image size is too large"));
        },
    };
    let byte_len: usize = match pixels.checked_mul(4) {
        Some(n) => n,
        None => return Err(invalid_input("image size is too large")),
    };
    assert(byte_len == row_bytes * height) by (nonlinear_arith)
        requires
            byte_len == pixels * 4,
            pixels == width * height,
            row_bytes == width * 4,
    ;
    Ok(ImageLayout { width, height, row_bytes, byte_len })
}

/// A buffer of `len` zero bytes: a transparent image.
pub fn zeroed_pixels(len: usize) -> (v: Vec<u8>)
    ensures
        v@.len() == len,
        forall|i: int| 0 <= i < len ==> v@[i] == 0,
{
    let mut v: Vec<u8> = Vec::with_capacity(len);
    let mut i: usize = 0;
    while i < len
        invariant
            i <= len,
            v@.len() == i,
            forall|j: int| 0 <= j < i ==> v@[j] == 0,
        decreases len - i,
    {
        v.push(0);
        i = i + 1;
    }
    v
}

} // verus!
