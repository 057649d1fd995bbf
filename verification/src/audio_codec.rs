//! The Opus codec: a decoder for the peer's sound; nothing is ever encoded.

use vstd::prelude::*;

verus! {

/// `opus_rs::OpusDecoder`: the state of an Opus stream that is being decoded.
#[verifier::external_type_specification]
#[verifier::external_body]
pub struct ExOpusDecoder(opus_rs::OpusDecoder);

/// An error of the codec, with a message.
#[derive(Debug)]
pub struct OpusError {
    pub message: String,
}

impl View for OpusError {
    type V = Seq<char>;

    /// The message.
    open spec fn view(&self) -> Seq<char> {
        self.message@
    }
}

impl OpusError {
    pub fn new(message: &str) -> (error: OpusError)
        ensures
            error@ == message@,
    {
        OpusError { message: message.to_owned() }
    }

    /// The error as it is shown.
    pub fn display(&self) -> (text: String)
        ensures
            text@ == "opus decode error: "@ + self@,
    {
        let mut text = "opus decode error: ".to_owned();
        text.append(self.message.as_str());
        text
    }
}

/// How many channels a stream has.
#[derive(Debug, PartialEq, Eq, Clone, Copy, Structural)]
pub enum Channels {
    Mono,
    Stereo,
}

impl Channels {
    /// The number of channels.
    pub open spec fn number(self) -> usize {
        match self {
            Channels::Mono => 1,
            Channels::Stereo => 2,
        }
    }

    pub fn count(self) -> (n: usize)
        ensures
            n == self.number(),
    {
        match self {
            Channels::Mono => 1,
            Channels::Stereo => 2,
        }
    }
}

/// What an encoder is tuned for.
#[derive(Debug, PartialEq, Eq, Clone, Copy, Structural)]
pub enum Application {
    Voip,
    Audio,
    LowDelay,
}

/// Whether Opus knows the sampling rate.
pub open spec fn opus_rate(sample_rate: i32) -> bool {
    sample_rate == 8000 || sample_rate == 12000 || sample_rate == 16000 || sample_rate == 24000
        || sample_rate == 48000
}

/// The decoder that opus-rs makes for a sampling rate and a number of channels, before its first
/// packet.
pub uninterp spec fn fresh_opus_decoder(sample_rate: i32, channels: usize) -> opus_rs::OpusDecoder;

/// Calls `opus_rs::OpusDecoder::new`: the fresh decoder for that rate and that number of channels,
/// where the rate is one of Opus and there are one or two channels, and a message for anything
/// else, the rate being looked at first.
#[verifier::external_body]
fn opus_decoder(sample_rate: i32, channels: usize) -> (decoder: Result<
    opus_rs::OpusDecoder,
    &'static str,
>)
    ensures
        match decoder {
            Ok(d) => opus_rate(sample_rate) && 1 <= channels <= 2 && d == fresh_opus_decoder(
                sample_rate,
                channels,
            ),
            Err(message) => if !opus_rate(sample_rate) {
                message@ == "Invalid sampling rate"@
            } else {
                !(1 <= channels <= 2) && message@ == "Invalid number of channels"@
            },
        },
{
    opus_rs::OpusDecoder::new(sample_rate, channels)
}

/// An Opus decoder with its number of channels.
pub struct Decoder {
    pub inner: opus_rs::OpusDecoder,
    pub channels: usize,
}

impl Decoder {
    /// There is at least one channel.
    pub open spec fn wf(&self) -> bool {
        1 <= self.channels <= 2
    }

    /// A fresh decoder for a sampling rate of Opus and for the channels; any other rate is refused.
    pub fn new(sample_rate: u32, channels: Channels) -> (decoder: Result<Decoder, OpusError>)
        ensures
            decoder is Ok <==> opus_rate(sample_rate as i32),
            match decoder {
                Ok(d) => d.wf() && d.channels == channels.number() && d.inner
                    == fresh_opus_decoder(sample_rate as i32, channels.number()),
                Err(e) => e@ == "Invalid sampling rate"@,
            },
    {
        let count = channels.count();
        match opus_decoder(sample_rate as i32, count) {
            Ok(inner) => Ok(Decoder { inner, channels: count }),
            Err(message) => Err(OpusError::new(message)),
        }
    }

    /// How many samples of each channel fit in a buffer of interleaved samples.
    pub fn frame_size(&self, output_len: usize) -> (samples: usize)
        requires
            self.wf(),
        ensures
            samples == output_len as int / self.channels as int,
            samples * self.channels <= output_len,
    {
        let samples: usize = output_len / self.channels;
        let channels: usize = self.channels;
        assert(samples * channels <= output_len) by (nonlinear_arith)
            requires
                samples == output_len as int / channels as int,
                channels > 0,
        ;
        samples
    }
}

/// The encoder; there is never one.
pub struct Encoder;

impl Encoder {
    /// Refuses to start.
    pub fn new(_sample_rate: u32, _channels: Channels, _application: Application) -> (encoder: Result<
        Encoder,
        OpusError,
    >)
        ensures
            encoder is Err,
            encoder->Err_0@ == "encoding not implemented — this app never sends audio"@,
    {
        Err(OpusError::new("encoding not implemented — this app never sends audio"))
    }

    /// Gives no bytes, whatever the samples.
    pub fn encode_vec_float<S>(&mut self, _input: &[S], _max_size: usize) -> (bytes: Result<
        Vec<u8>,
        OpusError,
    >)
        ensures
            *final(self) == *old(self),
            bytes is Ok,
            bytes->Ok_0@ == Seq::<u8>::empty(),
    {
        Ok(Vec::new())
    }
}

}
