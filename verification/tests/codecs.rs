use rustdesk_bridge::aom::{AomDecoder, AomEncoder, AomEncoderConfig, Chroma, Image, Pixfmt};
use rustdesk_bridge::audio_codec::{Application, Channels, Decoder, Encoder, OpusError};
use rustdesk_bridge::image::ImageRgb;
use rustdesk_bridge::kcp_stream::KcpStream;

#[test]
fn av1_encoder_refuses() {
    let cfg = AomEncoderConfig { width: 640, height: 480, quality: 0.5f32, keyframe_interval: None };
    assert_eq!(
        AomEncoder::new(cfg, false).err().unwrap().message(),
        "AV1 encoding deferred (see libs/scrap/src/common/aom.rs)"
    );
    let mut encoder = AomEncoder;
    assert!(encoder.encode_to_message(vec![0u8; 4], 7).is_err());
    assert!(encoder.encode(0, &[1, 2, 3], 1).is_err());
    assert!(encoder.set_quality(1.5f32).is_ok());
    assert_eq!(encoder.bitrate(), 0);
    assert!(!encoder.support_changing_quality());
    assert!(!encoder.latency_free());
    assert!(!encoder.is_hardware());
    encoder.disable();
    let format = encoder.yuvfmt();
    assert_eq!(format.pixfmt, Pixfmt::I420);
    assert_eq!((format.w, format.h, format.u, format.v), (0, 0, 0, 0));
    assert!(format.stride.is_empty());
}

#[test]
fn av1_decoder_gives_nothing() {
    assert_eq!(
        AomDecoder::new().err().unwrap().message(),
        "AV1 decoding deferred (see libs/scrap/src/common/aom.rs)"
    );
    let mut decoder = AomDecoder;
    assert_eq!(decoder.decode(&[1, 2]).unwrap().len(), 0);
    assert_eq!(decoder.flush().unwrap().len(), 0);
}

#[test]
fn av1_picture_is_empty() {
    let image = Image::new();
    assert!(image.is_null());
    assert_eq!((image.width(), image.height()), (0, 0));
    assert!(image.stride().is_empty());
    assert!(image.planes().is_empty());
    assert_eq!(image.chroma(), Chroma::I420);
    let mut rgb = ImageRgb { raw: vec![9], w: 1, h: 1, align: 1 };
    image.to(&mut rgb);
    assert_eq!(rgb.raw, vec![9]);
}

#[test]
fn kcp_is_refused() {
    let accepted = KcpStream::accept((), 10, None);
    assert_eq!(
        accepted.err().unwrap().message(),
        "KCP transport deferred (see src/kcp_stream.rs)"
    );
    let connected = KcpStream::connect((), 10);
    assert_eq!(
        connected.err().unwrap().message(),
        "KCP transport deferred (see src/kcp_stream.rs)"
    );
}

#[test]
fn opus_decoder_takes_the_rates_of_opus() {
    for rate in [8000u32, 12000, 16000, 24000, 48000] {
        let decoder = Decoder::new(rate, Channels::Stereo).ok().unwrap();
        assert_eq!(decoder.channels, 2);
        assert_eq!(decoder.frame_size(961), 480);
    }
    let mono = Decoder::new(48000, Channels::Mono).ok().unwrap();
    assert_eq!(mono.channels, 1);
    assert_eq!(mono.frame_size(960), 960);
}

#[test]
fn opus_decoder_is_made_for_its_rate_and_channels() {
    // A lost packet is filled in 2.5 ms steps of the decoder's rate, for each of its channels.
    let fill = |rate: u32, channels: Channels, samples: usize, room: usize| {
        let mut decoder = Decoder::new(rate, channels).ok().unwrap();
        let mut output = vec![1.0f32; room];
        decoder.inner.decode(&[], samples, &mut output)
    };
    assert_eq!(fill(8000, Channels::Mono, 20, 20), Ok(20));
    assert_eq!(fill(48000, Channels::Mono, 120, 120), Ok(120));
    assert!(fill(48000, Channels::Mono, 20, 20).is_err());
    assert_eq!(fill(8000, Channels::Stereo, 20, 40), Ok(20));
    assert!(fill(8000, Channels::Stereo, 20, 20).is_err());
}

#[test]
fn opus_decoder_refuses_other_rates() {
    let refused = Decoder::new(44100, Channels::Mono).err().unwrap();
    assert_eq!(refused.message, "Invalid sampling rate");
    assert_eq!(refused.display(), "opus decode error: Invalid sampling rate");
}

#[test]
fn opus_encoder_refuses() {
    let refused = Encoder::new(48000, Channels::Mono, Application::Voip).err().unwrap();
    assert_eq!(refused.message, "encoding not implemented — this app never sends audio");
    let mut encoder = Encoder;
    assert_eq!(encoder.encode_vec_float(&[0.25f32, -0.5], 100).ok().unwrap(), Vec::<u8>::new());
}

#[test]
fn opus_error_from_a_text() {
    assert_eq!(OpusError::new("x").display(), "opus decode error: x");
    assert_eq!(Channels::Mono.count(), 1);
    assert_eq!(Channels::Stereo.count(), 2);
}
