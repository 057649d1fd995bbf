//! Decoded frames.

use vstd::prelude::*;

verus! {

/// One decoded frame: the pixels row by row, and the row alignment in bytes.
pub struct ImageRgb {
    pub raw: Vec<u8>,
    pub w: usize,
    pub h: usize,
    pub align: usize,
}

/// What a frame is.
pub struct ImageRgbView {
    pub raw: Seq<u8>,
    pub w: usize,
    pub h: usize,
    pub align: usize,
}

impl View for ImageRgb {
    type V = ImageRgbView;

    open spec fn view(&self) -> ImageRgbView {
        ImageRgbView { raw: self.raw@, w: self.w, h: self.h, align: self.align }
    }
}

}
