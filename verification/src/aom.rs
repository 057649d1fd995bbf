//! AV1 is not served: the encoder and the decoder refuse to start, so that another codec is chosen.

use crate::error::Error;
use crate::image::ImageRgb;
use vstd::prelude::*;

verus! {

/// A planar pixel format.
#[derive(Debug, PartialEq, Eq, Clone, Copy, Structural)]
pub enum Pixfmt {
    Bgra,
    Rgba,
    Rgb565le,
    I420,
    Nv12,
    I444,
}

/// The chroma subsampling of a frame.
#[derive(Debug, PartialEq, Eq, Clone, Copy, Structural)]
pub enum Chroma {
    I420,
    I444,
}

/// The layout of the frames that an encoder takes.
pub struct EncodeYuvFormat {
    pub pixfmt: Pixfmt,
    pub w: usize,
    pub h: usize,
    pub stride: Vec<usize>,
    pub u: usize,
    pub v: usize,
}

/// What an AV1 encoder is set up with; the quality is of any number type.
#[derive(Clone, Copy, Debug)]
pub struct AomEncoderConfig<Q> {
    pub width: u32,
    pub height: u32,
    pub quality: Q,
    pub keyframe_interval: Option<usize>,
}

/// The AV1 encoder.
pub struct AomEncoder;

impl AomEncoder {
    /// Refuses every configuration.
    pub fn new<C>(_cfg: C, _i444: bool) -> (encoder: Result<AomEncoder, Error>)
        ensures
            encoder is Err,
            encoder->Err_0@ == "AV1 encoding deferred (see libs/scrap/src/common/aom.rs)"@,
    {
        Err(Error::new("AV1 encoding deferred (see libs/scrap/src/common/aom.rs)"))
    }

    /// Refuses every frame.
    pub fn encode_to_message<I>(&mut self, _frame: I, _ms: i64) -> (message: Result<Vec<u8>, Error>)
        ensures
            *final(self) == *old(self),
            message is Err,
            message->Err_0@ == "AV1 encoding deferred (see libs/scrap/src/common/aom.rs)"@,
    {
        Err(Error::new("AV1 encoding deferred (see libs/scrap/src/common/aom.rs)"))
    }

    /// The layout of an empty frame.
    pub fn yuvfmt(&self) -> (format: EncodeYuvFormat)
        ensures
            format.pixfmt == Pixfmt::I420,
            format.w == 0,
            format.h == 0,
            format.stride@ == Seq::<usize>::empty(),
            format.u == 0,
            format.v == 0,
    {
        EncodeYuvFormat { pixfmt: Pixfmt::I420, w: 0, h: 0, stride: Vec::new(), u: 0, v: 0 }
    }

    /// Accepts every quality and changes nothing.
    pub fn set_quality<R>(&mut self, _ratio: R) -> (done: Result<(), Error>)
        ensures
            *final(self) == *old(self),
            done is Ok,
    {
        Ok(())
    }

    pub fn bitrate(&self) -> (rate: u32)
        ensures
            rate == 0,
    {
        0
    }

    pub fn support_changing_quality(&self) -> (yes: bool)
        ensures
            !yes,
    {
        false
    }

    pub fn latency_free(&self) -> (yes: bool)
        ensures
            !yes,
    {
        false
    }

    pub fn is_hardware(&self) -> (yes: bool)
        ensures
            !yes,
    {
        false
    }

    pub fn disable(&self) {
    }

    /// Refuses every frame.
    pub fn encode(&mut self, _pts: i64, _data: &[u8], _stride_align: usize) -> (done: Result<
        (),
        Error,
    >)
        ensures
            *final(self) == *old(self),
            done is Err,
            done->Err_0@ == "AV1 encoding deferred (see libs/scrap/src/common/aom.rs)"@,
    {
        Err(Error::new("AV1 encoding deferred (see libs/scrap/src/common/aom.rs)"))
    }
}

/// The AV1 decoder.
pub struct AomDecoder;

/// A decoded AV1 picture; there is never one.
pub struct Image;

impl Image {
    pub fn new() -> (image: Image)
        ensures
            image == Image,
    {
        Image
    }

    pub fn is_null(&self) -> (null: bool)
        ensures
            null,
    {
        true
    }

    /// Leaves the frame as it is.
    pub fn to(&self, _rgb: &mut ImageRgb)
        ensures
            *final(_rgb) == *old(_rgb),
    {
    }

    pub fn width(&self) -> (w: usize)
        ensures
            w == 0,
    {
        0
    }

    pub fn height(&self) -> (h: usize)
        ensures
            h == 0,
    {
        0
    }

    pub fn stride(&self) -> (strides: Vec<i32>)
        ensures
            strides@ == Seq::<i32>::empty(),
    {
        Vec::new()
    }

    /// The addresses of the planes.
    pub fn planes(&self) -> (planes: Vec<usize>)
        ensures
            planes@ == Seq::<usize>::empty(),
    {
        Vec::new()
    }

    pub fn chroma(&self) -> (chroma: Chroma)
        ensures
            chroma == Chroma::I420,
    {
        Chroma::I420
    }
}

impl AomDecoder {
    /// Refuses to start.
    pub fn new() -> (decoder: Result<AomDecoder, Error>)
        ensures
            decoder is Err,
            decoder->Err_0@ == "AV1 decoding deferred (see libs/scrap/src/common/aom.rs)"@,
    {
        Err(Error::new("AV1 decoding deferred (see libs/scrap/src/common/aom.rs)"))
    }

    /// Gives no picture.
    pub fn decode(&mut self, _data: &[u8]) -> (images: Result<Vec<Image>, Error>)
        ensures
            *final(self) == *old(self),
            images is Ok,
            images->Ok_0@ == Seq::<Image>::empty(),
    {
        Ok(Vec::new())
    }

    /// Gives no picture.
    pub fn flush(&mut self) -> (images: Result<Vec<Image>, Error>)
        ensures
            *final(self) == *old(self),
            images is Ok,
            images->Ok_0@ == Seq::<Image>::empty(),
    {
        Ok(Vec::new())
    }
}

}
