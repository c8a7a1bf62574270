//! User-facing export settings and their encoder mappings.

use vstd::prelude::*;

verus! {

/// Output resolution target.
#[derive(Debug, Clone, Copy, PartialEq, Eq, Structural)]
pub enum ExportResolution {
    Source,
    UHD4K,
    QHD,
    FullHD,
    HD,
    SD,
}

/// Video codec of the rendered output.
#[derive(Debug, Clone, Copy, PartialEq, Eq, Structural)]
pub enum VideoCodec {
    H264,
    HEVC,
    VP9,
}

/// Encoding quality tier.
#[derive(Debug, Clone, Copy, PartialEq, Eq, Structural)]
pub enum ExportQuality {
    High,
    Medium,
    Low,
}

/// Audio codec of the rendered output.
#[derive(Debug, Clone, Copy, PartialEq, Eq, Structural)]
pub enum AudioCodec {
    AAC,
    MP3,
    Opus,
}

/// Settings for rendering a timeline to a video file.
#[derive(Debug, Clone, Copy, PartialEq, Eq, Structural)]
pub struct ExportSettings {
    pub resolution: ExportResolution,
    pub codec: VideoCodec,
    pub quality: ExportQuality,
    /// Frame-rate override; `None` keeps the source rate.
    pub fps: Option<u32>,
    pub audio_codec: AudioCodec,
    /// Audio bitrate in kbps.
    pub audio_bitrate: u32,
    pub hardware_acceleration: bool,
}

/// Width and height that a resolution target scales to; `None` for `Source`.
pub open spec fn resolution_dimensions(r: ExportResolution) -> Option<(u32, u32)> {
    match r {
        ExportResolution::Source => None,
        ExportResolution::UHD4K => Some((3840, 2160)),
        ExportResolution::QHD => Some((2560, 1440)),
        ExportResolution::FullHD => Some((1920, 1080)),
        ExportResolution::HD => Some((1280, 720)),
        ExportResolution::SD => Some((854, 480)),
    }
}

/// Name of the software encoder for a video codec.
pub open spec fn video_encoder_name(c: VideoCodec) -> Seq<char> {
    match c {
        VideoCodec::H264 => "libx264"@,
        VideoCodec::HEVC => "libx265"@,
        VideoCodec::VP9 => "libvpx-vp9"@,
    }
}

/// Container file extension for a video codec.
pub open spec fn video_extension(c: VideoCodec) -> Seq<char> {
    match c {
        VideoCodec::H264 => "mp4"@,
        VideoCodec::HEVC => "mp4"@,
        VideoCodec::VP9 => "webm"@,
    }
}

/// Constant-quality factor of a quality tier (lower is better).
pub open spec fn quality_crf(q: ExportQuality) -> u32 {
    match q {
        ExportQuality::High => 18,
        ExportQuality::Medium => 23,
        ExportQuality::Low => 28,
    }
}

/// Name of the encoder for an audio codec.
pub open spec fn audio_encoder_name(c: AudioCodec) -> Seq<char> {
    match c {
        AudioCodec::AAC => "aac"@,
        AudioCodec::MP3 => "libmp3lame"@,
        AudioCodec::Opus => "libopus"@,
    }
}

impl ExportResolution {
    /// Target dimensions (width, height), or `None` to keep the source size.
    pub fn dimensions(&self) -> (r: Option<(u32, u32)>)
        ensures
            r == resolution_dimensions(*self),
    {
        match self {
            ExportResolution::Source => None,
            ExportResolution::UHD4K => Some((3840, 2160)),
            ExportResolution::QHD => Some((2560, 1440)),
            ExportResolution::FullHD => Some((1920, 1080)),
            ExportResolution::HD => Some((1280, 720)),
            ExportResolution::SD => Some((854, 480)),
        }
    }
}

impl VideoCodec {
    /// Encoder name understood by the encoding process.
    pub fn ffmpeg_codec(&self) -> (r: &'static str)
        ensures
            r@ == video_encoder_name(*self),
    {
        match self {
            VideoCodec::H264 => "libx264",
            VideoCodec::HEVC => "libx265",
            VideoCodec::VP9 => "libvpx-vp9",
        }
    }

    /// File extension of the output container.
    pub fn extension(&self) -> (r: &'static str)
        ensures
            r@ == video_extension(*self),
    {
        match self {
            VideoCodec::H264 => "mp4",
            VideoCodec::HEVC => "mp4",
            VideoCodec::VP9 => "webm",
        }
    }
}

impl ExportQuality {
    /// Constant-quality factor (lower means higher quality).
    pub fn crf_value(&self) -> (r: u32)
        ensures
            r == quality_crf(*self),
    {
        match self {
            ExportQuality::High => 18,
            ExportQuality::Medium => 23,
            ExportQuality::Low => 28,
        }
    }
}

impl AudioCodec {
    /// Encoder name understood by the encoding process.
    pub fn ffmpeg_codec(&self) -> (r: &'static str)
        ensures
            r@ == audio_encoder_name(*self),
    {
        match self {
            AudioCodec::AAC => "aac",
            AudioCodec::MP3 => "libmp3lame",
            AudioCodec::Opus => "libopus",
        }
    }
}

impl Default for ExportSettings {
    /// 1080p H.264 at high quality, AAC at 192 kbps, hardware encoding on.
    fn default() -> (r: ExportSettings)
        ensures
            r == (ExportSettings {
                resolution: ExportResolution::FullHD,
                codec: VideoCodec::H264,
                quality: ExportQuality::High,
                fps: None,
                audio_codec: AudioCodec::AAC,
                audio_bitrate: 192,
                hardware_acceleration: true,
            }),
    {
        ExportSettings {
            resolution: ExportResolution::FullHD,
            codec: VideoCodec::H264,
            quality: ExportQuality::High,
            fps: None,
            audio_codec: AudioCodec::AAC,
            audio_bitrate: 192,
            hardware_acceleration: true,
        }
    }
}

} // verus!
