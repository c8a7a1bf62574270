use clipforge::captions::{delete_caption, update_caption};
use clipforge::media::{caption_source, get_media_metadata};
use clipforge::captions::{parse_srt_content, parse_srt_time, parse_srt_timestamp, Caption, CaptionAlignment, CaptionPosition, CaptionStyle, WhisperConfig};
use clipforge::media::{parse_frame_rate, MediaClip};
use clipforge::platform::{macos, stop_step, windows, ActiveRecordings, StopAction};
use clipforge::recording::{RecordingSession, RecordingStatus, RecordingType};

#[test]
fn test_parse_srt_time() {
    assert_eq!(parse_srt_time("00:00:01,500"), Some(1500));
    assert_eq!(parse_srt_time("00:01:30,250"), Some(90_250));
    assert_eq!(parse_srt_time("01:00:00,000"), Some(3_600_000));
}

#[test]
fn test_parse_srt_timestamp() {
    let line = "00:00:01,500 --> 00:00:04,200";
    let result = parse_srt_timestamp(line);
    assert_eq!(result, Some((1500, 4200)));
}

#[test]
fn srt_times_reject_malformed_input() {
    assert_eq!(parse_srt_time("00:00:01.500"), None);
    assert_eq!(parse_srt_time("00:01,500"), None);
    assert_eq!(parse_srt_time("00:00:01,"), None);
    assert_eq!(parse_srt_time("a0:00:01,500"), None);
    assert_eq!(parse_srt_time("00:00:01,500 "), None);
    assert_eq!(parse_srt_time("99999999999:00:00,000"), None);
    assert_eq!(parse_srt_time("1:2:3,4"), Some(3_723_004));
    assert_eq!(parse_srt_timestamp("00:00:01,500 -> 00:00:04,200"), None);
    assert_eq!(parse_srt_timestamp("00:00:01,500 --> 00:00:04,200 --> 00:00:05,000"), None);
}

#[test]
fn test_caption_creation() {
    let caption = Caption::new("clip-123".to_string(), "Hello world".to_string(), 0, 2500, "en".to_string());
    assert_eq!(caption.media_clip_id, "clip-123");
    assert_eq!(caption.text, "Hello world");
    assert_eq!(caption.duration(), 2500);
    assert_eq!(caption.word_count(), 2);
}

#[test]
fn test_caption_validation() {
    let mut caption = Caption::new("clip-123".to_string(), "Valid caption".to_string(), 0, 2500, "en".to_string());
    assert!(caption.validate().is_ok());

    caption.text = "".to_string();
    assert!(caption.validate().is_err());

    caption.text = "Valid caption".to_string();
    caption.end_time = caption.start_time;
    assert!(caption.validate().is_err());
}

#[test]
fn caption_validation_messages() {
    let mut c = Caption::new("c".to_string(), "x".repeat(501), 0, 10, "en".to_string());
    assert_eq!(c.validate().unwrap_err(), "Caption text exceeds maximum length (500 chars)");
    c.text = "é".repeat(250);
    assert!(c.validate().is_ok());
    c.text = "é".repeat(251);
    assert!(c.validate().is_err());
    c.text = "ok".to_string();
    c.start_time = -1;
    assert_eq!(c.validate().unwrap_err(), "Start time cannot be negative");
    c.start_time = 0;
    c.confidence = Some(1_000_001);
    assert_eq!(c.validate().unwrap_err(), "Confidence must be between 0.0 and 1.0");
    c.confidence = Some(1_000_000);
    assert!(c.validate().is_ok());
    assert_eq!(Caption::new("c".to_string(), "  a  b\tc\n".to_string(), 0, 1, "en".to_string()).word_count(), 3);
}

#[test]
fn caption_style_defaults_and_validation() {
    let mut style = CaptionStyle::default();
    assert_eq!(style.font, "Arial");
    assert_eq!(style.size, 24);
    assert_eq!(style.color, "#FFFFFF");
    assert_eq!(style.background_color.as_deref(), Some("transparent"));
    assert_eq!(style.position, CaptionPosition::Bottom);
    assert_eq!(style.alignment, CaptionAlignment::Center);
    assert!(style.validate().is_ok());
    style.color = "#12abEF".to_string();
    assert!(style.validate().is_ok());
    style.color = "#12abEG".to_string();
    assert_eq!(style.validate().unwrap_err(), "Color must be in hex format (#RRGGBB)");
    style.color = "#FFFFFF0".to_string();
    assert!(style.validate().is_err());
    style.color = "#FFFFFF".to_string();
    style.size = 73;
    assert_eq!(style.validate().unwrap_err(), "Font size must be between 12 and 72");
    style.size = 12;
    style.font = "".to_string();
    assert_eq!(style.validate().unwrap_err(), "Font cannot be empty");
}

#[test]
fn whisper_config_defaults() {
    let c = WhisperConfig::default();
    assert_eq!(c.executable_path, "whisper-cli");
    assert_eq!(c.model_path, "~/.clipforge/models/ggml-base.en.bin");
    assert_eq!(c.language, "en");
}

#[test]
fn test_parse_frame_rate() {
    assert_eq!(parse_frame_rate("30/1").unwrap(), 30_000);
    assert_eq!(parse_frame_rate("60/1").unwrap(), 60_000);
    assert!((parse_frame_rate("30000/1001").unwrap() as i64 - 29_970).abs() < 10);
}

#[test]
fn frame_rate_errors() {
    assert_eq!(parse_frame_rate("30000/1001").unwrap(), 29_970);
    assert_eq!(parse_frame_rate("30").unwrap_err(), "Invalid frame rate format: 30");
    assert_eq!(parse_frame_rate("1/2/3").unwrap_err(), "Invalid frame rate format: 1/2/3");
    assert_eq!(parse_frame_rate("x/1").unwrap_err(), "Invalid numerator: x");
    assert_eq!(parse_frame_rate("30/").unwrap_err(), "Invalid denominator: ");
    assert_eq!(parse_frame_rate("30/0").unwrap_err(), "Frame rate denominator cannot be zero");
}

#[test]
fn media_clip_new_names_after_file() {
    let clip = MediaClip::new("/videos/holiday.mov".to_string(), 5_000_000, 1920, 1080, 30_000, "prores".to_string(), 1024);
    assert_eq!(clip.name, "holiday.mov");
    assert_eq!(clip.resolution, "1920x1080");
    assert_eq!(clip.id.len(), 36);
    assert!(clip.proxy_path.is_none());
    assert!(!clip.has_audio);
    let odd = MediaClip::new("/".to_string(), 0, -1, 2, 0, "x".to_string(), 0);
    assert_eq!(odd.name, "Unknown");
    assert_eq!(odd.resolution, "-1x2");
}

#[test]
fn test_recording_session_lifecycle() {
    let mut session = RecordingSession::new(RecordingType::Screen, "/tmp/test.mp4".to_string(), "1920x1080".to_string(), 30);
    assert_eq!(session.status, RecordingStatus::Preparing);
    assert!(session.started_at.is_none());

    session.start();
    assert_eq!(session.status, RecordingStatus::Recording);
    assert!(session.started_at.is_some());

    session.stop();
    assert_eq!(session.status, RecordingStatus::Stopped);
    assert!(session.stopped_at.is_some());
    assert!(session.duration.is_some());
}

#[test]
fn test_recording_session_validation() {
    let mut session = RecordingSession::new(RecordingType::Screen, "/tmp/test.mp4".to_string(), "1920x1080".to_string(), 30);
    assert!(session.validate().is_ok());

    session.fps = 99;
    assert!(session.validate().is_err());

    session.fps = 30;
    session.resolution = "invalid".to_string();
    assert!(session.validate().is_err());
}

#[test]
fn test_screen_webcam_validation() {
    let mut session =
        RecordingSession::new(RecordingType::ScreenWebcam, "/tmp/test.mp4".to_string(), "1920x1080".to_string(), 30);
    assert!(session.validate().is_err());

    session.screen_source = Some("screen-1".to_string());
    assert!(session.validate().is_err());

    session.camera_device = Some("camera-1".to_string());
    assert!(session.validate().is_ok());
}

#[test]
fn recording_validation_messages_and_failure() {
    let mut s = RecordingSession::new(RecordingType::Webcam, "/o.mp4".to_string(), "640x480".to_string(), 99);
    assert_eq!(s.validate().unwrap_err(), "Invalid FPS: 99. Must be 15, 24, 30, or 60");
    s.fps = 15;
    s.resolution = "big".to_string();
    assert_eq!(s.validate().unwrap_err(), "Invalid resolution format: big");
    s.update_duration(1500);
    assert_eq!(s.duration, Some(1500));
    s.fail("disk full".to_string());
    assert_eq!(s.status, RecordingStatus::Failed);
    assert_eq!(s.error_message.as_deref(), Some("disk full"));
    assert!(s.stopped_at.is_some());
}

#[test]
fn windows_capture_arguments() {
    let args = windows::recording_args(
        "C:/out.mp4",
        &Some("desktop".to_string()),
        &Some("HD Webcam".to_string()),
        &vec!["microphone".to_string()],
        "1280x720",
        30,
    );
    let expected: Vec<&str> = vec![
        "-y", "-f", "gdigrab", "-framerate", "30", "-i", "desktop", "-f", "dshow", "-i", "video=HD Webcam", "-f", "dshow",
        "-i", "audio=Microphone", "-c:v", "libx264", "-preset", "ultrafast", "-crf", "23", "-pix_fmt", "yuv420p", "-c:a",
        "aac", "-b:a", "192k", "-s", "1280x720", "-movflags", "+faststart", "C:/out.mp4",
    ];
    assert_eq!(args, expected);
    let plain = windows::recording_args("o.mp4", &None, &None, &vec![], "source", 24);
    let expected: Vec<&str> = vec![
        "-y", "-c:v", "libx264", "-preset", "ultrafast", "-crf", "23", "-pix_fmt", "yuv420p", "-movflags", "+faststart", "o.mp4",
    ];
    assert_eq!(plain, expected);
}

#[test]
fn macos_capture_arguments() {
    let both = macos::recording_args(
        "/o.mp4",
        &Some("Capture screen 0".to_string()),
        &Some("0".to_string()),
        &vec!["system".to_string(), "microphone".to_string()],
        &Some("2".to_string()),
        "1920x1080",
        60,
    );
    let expected: Vec<&str> = vec![
        "-y", "-f", "avfoundation", "-capture_cursor", "1", "-r", "60", "-i", "Capture screen 0:none", "-f", "avfoundation",
        "-r", "60", "-i", "0:2", "-filter_complex",
        "[1:v]scale=iw*0.30:ih*0.30,eq=brightness=0.06:contrast=1.1[cam];[0:v][cam]overlay=20:main_h-overlay_h-20",
        "-c:v", "libx264", "-preset", "ultrafast", "-crf", "23", "-pix_fmt", "yuv420p", "-c:a", "aac", "-b:a", "256k", "-ar",
        "48000", "-movflags", "+faststart", "/o.mp4",
    ];
    assert_eq!(both, expected);
    let mic_only = macos::recording_args("/o.mp4", &None, &None, &vec!["microphone".to_string()], &None, "1280x720", 30);
    let expected: Vec<&str> = vec![
        "-y", "-f", "avfoundation", "-i", ":0", "-c:v", "libx264", "-preset", "ultrafast", "-crf", "23", "-pix_fmt",
        "yuv420p", "-c:a", "aac", "-b:a", "256k", "-ar", "48000", "-s", "1280x720", "-movflags", "+faststart", "/o.mp4",
    ];
    assert_eq!(mic_only, expected);
    let odd_size = macos::recording_args("/o.mp4", &Some("s".to_string()), &None, &vec![], &None, "1x2x3", 30);
    assert!(!odd_size.contains(&"-s".to_string()));
}

#[test]
fn active_recordings_track_sessions() {
    let mut active: ActiveRecordings<u8> = ActiveRecordings::new();
    assert!(!macos::is_recording_active(&active, "a"));
    assert_eq!(active.insert("a".to_string(), 1), Ok(()));
    assert_eq!(active.insert("a".to_string(), 2), Err(2));
    assert!(windows::is_recording_active(&active, "a"));
    assert_eq!(active.remove("a"), Some(1));
    assert_eq!(active.remove("a"), None);
    assert!(!active.contains("a"));
}

#[test]
fn stop_sequence() {
    assert_eq!(stop_step(true, 10_000), StopAction::Done);
    assert_eq!(stop_step(false, 100), StopAction::Wait);
    assert_eq!(stop_step(false, 5000), StopAction::Wait);
    assert_eq!(stop_step(false, 5001), StopAction::Kill);
}

#[test]
fn test_parse_srt_content() {
    let srt = "1\n00:00:01,500 --> 00:00:04,200\nHello world\n\n2\n00:00:05,000 --> 00:00:08,500\nThis is a test caption";
    let captions = parse_srt_content(srt, "clip-123".to_string(), "en".to_string()).unwrap();
    assert_eq!(captions.len(), 2);
    assert_eq!(captions[0].text, "Hello world");
    assert_eq!(captions[0].start_time, 1500);
    assert_eq!(captions[0].end_time, 4200);
    assert_eq!(captions[1].text, "This is a test caption");
}

#[test]
fn srt_content_edge_cases() {
    let srt = "\r\n1\r\n00:00:00,000 --> 00:00:01,000\r\n  first line \r\nsecond line\r\n\n\n\n2\n00:00:02,000 --> 00:00:03,000\n\nbroken\nnot a time\nx\n\n3\n00:00:04,000 --> 00:00:05,000\nlast\n";
    let captions = parse_srt_content(srt, "m".to_string(), "fr".to_string()).unwrap();
    assert_eq!(captions.len(), 2);
    assert_eq!(captions[0].text, "first line  second line");
    assert_eq!((captions[0].start_time, captions[0].end_time), (0, 1000));
    assert_eq!(captions[1].text, "last");
    assert_eq!(captions[1].language, "fr");
    assert_eq!(captions[1].media_clip_id, "m");
    assert_eq!(parse_srt_content("", "m".to_string(), "en".to_string()).unwrap_err(), "No captions found in SRT file");
    assert!(parse_srt_content("1\n00:00:00,000 --> 00:00:01,000", "m".to_string(), "en".to_string()).is_err());
}

#[test]
fn caption_editing() {
    let a = Caption::new("m".to_string(), "one".to_string(), 0, 1000, "en".to_string());
    let b = Caption::new("m".to_string(), "two".to_string(), 1000, 2000, "en".to_string());
    let (a_id, b_id) = (a.id.clone(), b.id.clone());
    let mut list = vec![a, b];
    let c = update_caption(&mut list, &b_id, Some("deux".to_string()), None, Some(2500)).unwrap();
    assert_eq!((c.text.as_str(), c.start_time, c.end_time), ("deux", 1000, 2500));
    assert_eq!(list[1].text, "deux");
    assert_eq!(
        update_caption(&mut list, &a_id, None, Some(5000), None).unwrap_err(),
        "End time must be greater than start time"
    );
    assert_eq!(list[0].start_time, 5000);
    assert_eq!(update_caption(&mut list, &"zz".to_string(), None, None, None).unwrap_err(), "Caption not found: zz");
    assert_eq!(delete_caption(&mut list, &"zz".to_string()).unwrap_err(), "Caption not found: zz");
    assert_eq!(list.len(), 2);
    assert!(delete_caption(&mut list, &a_id).is_ok());
    assert_eq!(list.len(), 1);
    assert_eq!(list[0].id, b_id);
}

#[test]
fn caption_sources_and_lookups() {
    let mut clip = MediaClip::new("/m/talk.mp4".to_string(), 1, 2, 2, 1, "h264".to_string(), 1);
    let id = clip.id.clone();
    assert_eq!(caption_source(&[clip.clone()], &id).unwrap_err(), "Media clip does not contain audio track");
    clip.has_audio = true;
    let lib = vec![clip];
    assert_eq!(caption_source(&lib, &id).unwrap(), "/m/talk.mp4");
    assert_eq!(caption_source(&lib, &"q".to_string()).unwrap_err(), "Media clip not found: q");
    assert_eq!(get_media_metadata(&lib, &id).unwrap().name, "talk.mp4");
    assert!(get_media_metadata(&lib, &"q".to_string()).is_err());
}

#[test]
fn word_count_uses_unicode_whitespace() {
    let c = Caption::new("m".to_string(), "un\u{a0}deux\u{3000}trois  \u{2028}".to_string(), 0, 1, "fr".to_string());
    assert_eq!(c.word_count(), 3);
    let e = Caption::new("m".to_string(), "".to_string(), 0, 1, "fr".to_string());
    assert_eq!(e.word_count(), 0);
}
