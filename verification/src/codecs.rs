//! The media codecs that every router is created with.

use vstd::prelude::*;

verus! {

/// Audio codecs offered.
#[derive(PartialEq, Eq, Structural, Debug, Clone, Copy)]
pub enum AudioCodec {
    Opus,
}

/// Video codecs offered.
#[derive(PartialEq, Eq, Structural, Debug, Clone, Copy)]
pub enum VideoCodec {
    Vp8,
}

/// RTCP feedback mechanisms a codec supports.
#[derive(PartialEq, Eq, Structural, Debug, Clone, Copy)]
pub enum Feedback {
    Nack,
    NackPli,
    CcmFir,
    GoogRemb,
    TransportCc,
}

/// A numeric codec parameter.
pub struct CodecParameter {
    pub name: String,
    pub value: u32,
}

/// A codec capability of a router.
pub enum CodecSpec {
    Audio {
        mime_type: AudioCodec,
        preferred_payload_type: Option<u8>,
        clock_rate: u32,
        channels: u8,
        parameters: Vec<CodecParameter>,
        rtcp_feedback: Vec<Feedback>,
    },
    Video {
        mime_type: VideoCodec,
        preferred_payload_type: Option<u8>,
        clock_rate: u32,
        parameters: Vec<CodecParameter>,
        rtcp_feedback: Vec<Feedback>,
    },
}

/// Stereo Opus at 48 kHz with in-band FEC and transport-wide congestion control,
/// and VP8 at 90 kHz with NACK, PLI, FIR, REMB and transport-wide congestion
/// control; no preferred payload types.
pub fn media_codecs() -> (r: Vec<CodecSpec>)
    ensures
        r@.len() == 2,
        r@[0] matches CodecSpec::Audio {
            mime_type,
            preferred_payload_type,
            clock_rate,
            channels,
            parameters,
            rtcp_feedback,
        } && mime_type == AudioCodec::Opus && preferred_payload_type is None && clock_rate == 48000
            && channels == 2 && parameters@.len() == 1 && parameters@[0].name@ == "useinbandfec"@
            && parameters@[0].value == 1 && rtcp_feedback@ == seq![Feedback::TransportCc],
        r@[1] matches CodecSpec::Video {
            mime_type,
            preferred_payload_type,
            clock_rate,
            parameters,
            rtcp_feedback,
        } && mime_type == VideoCodec::Vp8 && preferred_payload_type is None && clock_rate == 90000
            && parameters@.len() == 0 && rtcp_feedback@ == seq![
            Feedback::Nack,
            Feedback::NackPli,
            Feedback::CcmFir,
            Feedback::GoogRemb,
            Feedback::TransportCc,
        ],
{
    let fec = CodecParameter { name: String::from_str("useinbandfec"), value: 1 };
    let mut audio_params: Vec<CodecParameter> = Vec::new();
    audio_params.push(fec);
    let mut audio_feedback: Vec<Feedback> = Vec::new();
    audio_feedback.push(Feedback::TransportCc);
    let mut video_feedback: Vec<Feedback> = Vec::new();
    video_feedback.push(Feedback::Nack);
    video_feedback.push(Feedback::NackPli);
    video_feedback.push(Feedback::CcmFir);
    video_feedback.push(Feedback::GoogRemb);
    video_feedback.push(Feedback::TransportCc);
    let mut r: Vec<CodecSpec> = Vec::new();
    r.push(
        CodecSpec::Audio {
            mime_type: AudioCodec::Opus,
            preferred_payload_type: None,
            clock_rate: 48000,
            channels: 2,
            parameters: audio_params,
            rtcp_feedback: audio_feedback,
        },
    );
    r.push(
        CodecSpec::Video {
            mime_type: VideoCodec::Vp8,
            preferred_payload_type: None,
            clock_rate: 90000,
            parameters: Vec::new(),
            rtcp_feedback: video_feedback,
        },
    );
    assert(r@[1]->Video_rtcp_feedback@ =~= seq![
        Feedback::Nack,
        Feedback::NackPli,
        Feedback::CcmFir,
        Feedback::GoogRemb,
        Feedback::TransportCc,
    ]);
    r
}

} // verus!
