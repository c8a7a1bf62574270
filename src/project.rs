//! Export settings as stored with a project.

use vstd::prelude::*;

verus! {

#[derive(Debug, Clone, Copy, PartialEq, Eq, Structural)]
pub enum Resolution {
    Source,
    UHD4K,
    QHD,
    FullHD,
    HD,
    SD,
}

#[derive(Debug, Clone, Copy, PartialEq, Eq, Structural)]
pub enum Codec {
    H264,
    Hevc,
    Vp9,
}

#[derive(Debug, Clone, Copy, PartialEq, Eq, Structural)]
pub enum Quality {
    High,
    Medium,
    Low,
}

#[derive(Debug, Clone, Copy, PartialEq, Eq, Structural)]
pub enum AudioCodec {
    Aac,
    Mp3,
    Opus,
}

/// A project's saved export settings.
#[derive(Debug, Clone, Copy, PartialEq, Eq, Structural)]
pub struct ExportSettings {
    pub resolution: Resolution,
    pub codec: Codec,
    pub quality: Quality,
    pub fps: Option<u32>,
    pub audio_codec: AudioCodec,
    /// Audio bitrate in kbps.
    pub audio_bitrate: u32,
    pub hardware_acceleration: bool,
}

/// 1080p H.264 at high quality, AAC at 192 kbps, hardware encoding on.
pub open spec fn default_settings() -> ExportSettings {
    ExportSettings {
        resolution: Resolution::FullHD,
        codec: Codec::H264,
        quality: Quality::High,
        fps: None,
        audio_codec: AudioCodec::Aac,
        audio_bitrate: 192,
        hardware_acceleration: true,
    }
}

impl Default for ExportSettings {
    /// 1080p H.264 at high quality, AAC at 192 kbps, hardware encoding on.
    fn default() -> (r: ExportSettings)
        ensures
            r == default_settings(),
    {
        ExportSettings {
            resolution: Resolution::FullHD,
            codec: Codec::H264,
            quality: Quality::High,
            fps: None,
            audio_codec: AudioCodec::Aac,
            audio_bitrate: 192,
            hardware_acceleration: true,
        }
    }
}

} // verus!
