use clipforge::media::{needs_proxy, needs_proxy_lowered, MediaClip};
use clipforge::project;
use clipforge::settings::{AudioCodec, ExportQuality, ExportResolution, ExportSettings, VideoCodec};

#[test]
fn test_export_settings_defaults() {
    let settings = ExportSettings::default();
    assert_eq!(settings.audio_bitrate, 192);
    assert!(settings.hardware_acceleration);
}

#[test]
fn project_export_settings_defaults() {
    let s = project::ExportSettings::default();
    assert_eq!(s.resolution, project::Resolution::FullHD);
    assert_eq!(s.codec, project::Codec::H264);
    assert_eq!(s.quality, project::Quality::High);
    assert_eq!(s.fps, None);
    assert_eq!(s.audio_codec, project::AudioCodec::Aac);
    assert_eq!(s.audio_bitrate, 192);
    assert!(s.hardware_acceleration);
}

#[test]
fn resolution_dimensions() {
    assert_eq!(ExportResolution::Source.dimensions(), None);
    assert_eq!(ExportResolution::UHD4K.dimensions(), Some((3840, 2160)));
    assert_eq!(ExportResolution::QHD.dimensions(), Some((2560, 1440)));
    assert_eq!(ExportResolution::FullHD.dimensions(), Some((1920, 1080)));
    assert_eq!(ExportResolution::HD.dimensions(), Some((1280, 720)));
    assert_eq!(ExportResolution::SD.dimensions(), Some((854, 480)));
}

#[test]
fn codec_names_and_extensions() {
    assert_eq!(VideoCodec::H264.ffmpeg_codec(), "libx264");
    assert_eq!(VideoCodec::HEVC.ffmpeg_codec(), "libx265");
    assert_eq!(VideoCodec::VP9.ffmpeg_codec(), "libvpx-vp9");
    assert_eq!(VideoCodec::H264.extension(), "mp4");
    assert_eq!(VideoCodec::HEVC.extension(), "mp4");
    assert_eq!(VideoCodec::VP9.extension(), "webm");
    assert_eq!(AudioCodec::AAC.ffmpeg_codec(), "aac");
    assert_eq!(AudioCodec::MP3.ffmpeg_codec(), "libmp3lame");
    assert_eq!(AudioCodec::Opus.ffmpeg_codec(), "libopus");
    assert_eq!(ExportQuality::High.crf_value(), 18);
    assert_eq!(ExportQuality::Medium.crf_value(), 23);
    assert_eq!(ExportQuality::Low.crf_value(), 28);
}

#[test]
fn test_needs_proxy() {
    assert!(!needs_proxy("h264"));
    assert!(!needs_proxy("H264"));
    assert!(!needs_proxy("vp8"));
    assert!(!needs_proxy("vp9"));
    assert!(!needs_proxy("av1"));

    assert!(needs_proxy("hevc"));
    assert!(needs_proxy("prores"));
    assert!(needs_proxy("mpeg4"));
    assert!(needs_proxy("mjpeg"));
    assert!(needs_proxy("dnxhd"));
}

#[test]
fn needs_proxy_matches_codec_inside_longer_names() {
    assert!(!needs_proxy_lowered("avc1.h264.main"));
    assert!(needs_proxy_lowered("H264"));
    assert!(!needs_proxy("LIBVPX-VP9"));
    assert!(needs_proxy(""));
}

#[test]
fn media_clip_size_classes() {
    let mut clip = MediaClip {
        id: "m".to_string(),
        name: "m.mp4".to_string(),
        source_path: "/m.mp4".to_string(),
        proxy_path: None,
        thumbnail_path: None,
        duration: 0,
        resolution: "3840x2160".to_string(),
        width: 3840,
        height: 2160,
        fps: 30_000,
        codec: "h264".to_string(),
        audio_codec: None,
        file_size: 0,
        bitrate: None,
        has_audio: false,
        imported_at: 0,
        captions: vec![],
    };
    assert!(clip.is_4k());
    assert!(clip.is_hd());
    assert_eq!(clip.playable_path(), "/m.mp4");
    clip.width = 1920;
    clip.proxy_path = Some("/p.mp4".to_string());
    assert!(!clip.is_4k());
    assert!(clip.is_hd());
    assert_eq!(clip.playable_path(), "/p.mp4");
}
