use clipforge::media::{load_clip_for_playback, thumbnail_time, MediaClip};
use clipforge::probe::{metadata_from_probe, parse_count, parse_seconds, ProbeFormat, ProbeStream};

fn stream(kind: &str, codec: Option<&str>, size: Option<(u32, u32)>, rate: Option<&str>, bit_rate: Option<&str>) -> ProbeStream {
    ProbeStream {
        codec_type: Some(kind.to_string()),
        codec_name: codec.map(|c| c.to_string()),
        width: size.map(|s| s.0),
        height: size.map(|s| s.1),
        r_frame_rate: rate.map(|r| r.to_string()),
        bit_rate: bit_rate.map(|b| b.to_string()),
    }
}

#[test]
fn probe_report_to_metadata() {
    let streams = vec![
        stream("audio", Some("aac"), None, None, Some("128000")),
        stream("video", Some("h264"), Some((1920, 1080)), Some("30000/1001"), None),
        stream("video", Some("hevc"), Some((640, 480)), Some("25/1"), None),
    ];
    let format = ProbeFormat { duration: Some("12.3456789".to_string()), bit_rate: Some("5000000".to_string()) };
    let m = metadata_from_probe(&streams, &format).unwrap();
    assert_eq!(m.width, 1920);
    assert_eq!(m.height, 1080);
    assert_eq!(m.resolution, "1920x1080");
    assert_eq!(m.codec, "h264");
    assert_eq!(m.fps, 29_970);
    assert_eq!(m.duration, 12_345_678);
    assert_eq!(m.bitrate, Some(5_000_000));
    assert_eq!(m.audio_codec.as_deref(), Some("aac"));
    assert!(m.has_audio);
}

#[test]
fn probe_report_problems() {
    let format = ProbeFormat { duration: Some("1".to_string()), bit_rate: None };
    let no_video = vec![stream("audio", Some("aac"), None, None, None)];
    assert_eq!(metadata_from_probe(&no_video, &format).unwrap_err(), "No video stream found");
    let no_width = vec![stream("video", Some("h264"), None, None, None)];
    assert_eq!(metadata_from_probe(&no_width, &format).unwrap_err(), "Width not found");
    let no_codec = vec![stream("video", None, Some((1, 1)), None, None)];
    assert_eq!(metadata_from_probe(&no_codec, &format).unwrap_err(), "Codec not found");
    let bad_rate = vec![stream("video", Some("h264"), Some((1, 1)), Some("30/0"), None)];
    assert_eq!(metadata_from_probe(&bad_rate, &format).unwrap_err(), "Frame rate denominator cannot be zero");
    let ok = vec![stream("video", Some("vp9"), Some((2, 2)), None, Some("bad"))];
    let no_duration = ProbeFormat { duration: Some("N/A".to_string()), bit_rate: Some("7".to_string()) };
    assert_eq!(metadata_from_probe(&ok, &no_duration).unwrap_err(), "Duration not found");
    let m = metadata_from_probe(&ok, &format).unwrap();
    assert_eq!(m.fps, 30_000);
    assert_eq!(m.bitrate, None);
    assert!(!m.has_audio);
    assert_eq!(m.duration, 1_000_000);
}

#[test]
fn seconds_and_counts() {
    assert_eq!(parse_seconds("5"), Some(5_000_000));
    assert_eq!(parse_seconds("5."), Some(5_000_000));
    assert_eq!(parse_seconds(".25"), Some(250_000));
    assert_eq!(parse_seconds("0.0000019"), Some(1));
    assert_eq!(parse_seconds("."), None);
    assert_eq!(parse_seconds("1.2.3"), None);
    assert_eq!(parse_seconds(""), None);
    assert_eq!(parse_seconds("-1"), None);
    assert_eq!(parse_count("18446744073709551615"), Some(u64::MAX));
    assert_eq!(parse_count("18446744073709551616"), None);
    assert_eq!(parse_count(""), None);
    assert_eq!(parse_count("12a"), None);
}

#[test]
fn playback_prefers_proxy() {
    let mut clip = MediaClip::new("/m/src.mov".to_string(), 2_000_000, 1280, 720, 24_000, "prores".to_string(), 1);
    let id = clip.id.clone();
    let lib = vec![clip.clone()];
    assert_eq!(load_clip_for_playback(&lib, &id, false).unwrap(), "/m/src.mov");
    clip.proxy_path = Some("/cache/p.mp4".to_string());
    let lib = vec![clip];
    assert_eq!(load_clip_for_playback(&lib, &id, false).unwrap(), "/cache/p.mp4");
    assert_eq!(load_clip_for_playback(&lib, &id, true).unwrap(), "/cache/p.mp4");
    assert_eq!(load_clip_for_playback(&lib, &"x".to_string(), true).unwrap_err(), "Media clip not found: x");
}

#[test]
fn thumbnail_times() {
    assert_eq!(thumbnail_time(5_000_000), 1_000_000);
    assert_eq!(thumbnail_time(1_000_000), 0);
    assert_eq!(thumbnail_time(0), 0);
}
