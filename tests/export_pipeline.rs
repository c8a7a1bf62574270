use clipforge::command::{build_export_command, hardware_h264_encoder, ExportCommand, Platform};
use clipforge::export::{
    failure_message, plan_export, ExportRequest, ExportSupervisor, JobOutcome, RecentLines,
};
use clipforge::job::{transition, CancelOutcome, ExportStatus, JobError, JobEvent, JobRegistry};
use clipforge::manifest::{build_manifest, select_main_track, stable_order, ManifestError};
use clipforge::media::MediaClip;
use clipforge::progress::parse_progress;
use clipforge::settings::{AudioCodec, ExportQuality, ExportResolution, ExportSettings, VideoCodec};
use clipforge::timeline::{calculate_timeline_duration, TimelineClip, Track, TrackType};

const SEC: i64 = 1_000_000;

fn mock_media_clip(id: &str, duration: i64, path: &str) -> MediaClip {
    MediaClip {
        id: id.to_string(),
        name: format!("test_{}.mp4", id),
        source_path: path.to_string(),
        proxy_path: None,
        thumbnail_path: None,
        duration: duration * SEC,
        resolution: "1920x1080".to_string(),
        width: 1920,
        height: 1080,
        fps: 30_000,
        codec: "h264".to_string(),
        audio_codec: Some("aac".to_string()),
        file_size: 1024 * 1024,
        bitrate: Some(5000),
        has_audio: true,
        imported_at: 0,
        captions: vec![],
    }
}

fn mock_media_clip_with_proxy(id: &str, duration: i64, source: &str, proxy: &str) -> MediaClip {
    let mut clip = mock_media_clip(id, duration, source);
    clip.proxy_path = Some(proxy.to_string());
    clip
}

fn mock_track_with_clips(name: &str, clips: Vec<TimelineClip>) -> Track {
    let mut track = Track::new(name.to_string(), TrackType::Main);
    track.clips = clips;
    track
}

fn mock_timeline_clip(media_clip_id: &str, track_id: &str, start: i64, in_point: i64, out_point: i64) -> TimelineClip {
    TimelineClip::new(
        media_clip_id.to_string(),
        track_id.to_string(),
        start * SEC,
        in_point * SEC,
        out_point * SEC,
    )
}

fn has_arg(cmd: &ExportCommand, a: &str) -> bool {
    cmd.args.iter().any(|x| x == a)
}

fn arg_after(cmd: &ExportCommand, flag: &str) -> Option<String> {
    let i = cmd.args.iter().position(|x| x == flag)?;
    cmd.args.get(i + 1).cloned()
}

// ----- manifest -----

#[test]
fn test_generate_concat_single_clip_full_duration() {
    let media_clip = mock_media_clip("clip1", 10, "/path/to/video.mp4");
    let timeline_clip = mock_timeline_clip("clip1", "track1", 0, 0, 10);
    let track = mock_track_with_clips("Main Track", vec![timeline_clip]);
    let media_library = vec![media_clip];

    let result = build_manifest(&[track], &media_library);
    assert!(result.is_ok());
    let content = result.unwrap();
    assert!(content.contains("ffconcat version 1.0"));
    assert!(content.contains("file '/path/to/video.mp4'"));
    assert!(content.contains("inpoint 0.000000"));
    assert!(content.contains("outpoint 10.000000"));
}

#[test]
fn test_generate_concat_single_clip_trimmed() {
    let media_clip = mock_media_clip("clip1", 10, "/path/to/video.mp4");
    let timeline_clip = mock_timeline_clip("clip1", "track1", 0, 2, 5);
    let track = mock_track_with_clips("Main Track", vec![timeline_clip]);
    let media_library = vec![media_clip];

    let result = build_manifest(&[track], &media_library);
    assert!(result.is_ok());
    let content = result.unwrap();
    assert!(content.contains("inpoint 2.000000"));
    assert!(content.contains("outpoint 5.000000"));
}

#[test]
fn test_generate_concat_multiple_clips_ordered() {
    let media1 = mock_media_clip("clip1", 5, "/path/to/video1.mp4");
    let media2 = mock_media_clip("clip2", 7, "/path/to/video2.mp4");
    let media3 = mock_media_clip("clip3", 3, "/path/to/video3.mp4");
    let timeline1 = mock_timeline_clip("clip1", "track1", 5, 0, 5);
    let timeline2 = mock_timeline_clip("clip2", "track1", 0, 0, 7);
    let timeline3 = mock_timeline_clip("clip3", "track1", 10, 0, 3);
    let track = mock_track_with_clips("Main Track", vec![timeline1, timeline2, timeline3]);
    let media_library = vec![media1, media2, media3];

    let result = build_manifest(&[track], &media_library);
    assert!(result.is_ok());
    let content = result.unwrap();
    let clip2_pos = content.find("video2.mp4").unwrap();
    let clip1_pos = content.find("video1.mp4").unwrap();
    let clip3_pos = content.find("video3.mp4").unwrap();
    assert!(clip2_pos < clip1_pos);
    assert!(clip1_pos < clip3_pos);
}

#[test]
fn test_generate_concat_escapes_paths_with_quotes() {
    let media_clip = mock_media_clip("clip1", 5, "/path/to/my'video.mp4");
    let timeline_clip = mock_timeline_clip("clip1", "track1", 0, 0, 5);
    let track = mock_track_with_clips("Main Track", vec![timeline_clip]);
    let media_library = vec![media_clip];

    let result = build_manifest(&[track], &media_library);
    assert!(result.is_ok());
    let content = result.unwrap();
    assert!(content.contains("my'\\''video.mp4"));
}

#[test]
fn test_generate_concat_uses_proxy_when_available() {
    let media_clip = mock_media_clip_with_proxy("clip1", 5, "/path/to/source.mov", "/path/to/proxy.mp4");
    let timeline_clip = mock_timeline_clip("clip1", "track1", 0, 0, 5);
    let track = mock_track_with_clips("Main Track", vec![timeline_clip]);
    let media_library = vec![media_clip];

    let result = build_manifest(&[track], &media_library);
    assert!(result.is_ok());
    let content = result.unwrap();
    assert!(content.contains("proxy.mp4"));
    assert!(!content.contains("source.mov"));
}

#[test]
fn test_generate_concat_fails_on_missing_media_clip() {
    let timeline_clip = mock_timeline_clip("nonexistent", "track1", 0, 0, 5);
    let track = mock_track_with_clips("Main Track", vec![timeline_clip]);
    let media_library: Vec<MediaClip> = vec![];

    let result = build_manifest(&[track], &media_library);
    assert!(result.is_err());
    assert!(result.unwrap_err().message().contains("Media clip not found"));
}

#[test]
fn test_generate_concat_fails_on_no_main_track() {
    let media_clip = mock_media_clip("clip1", 5, "/path/to/video.mp4");
    let media_library = vec![media_clip];
    let mut track = mock_track_with_clips("Overlay", vec![]);
    track.track_type = TrackType::Overlay;

    let result = build_manifest(&[track], &media_library);
    assert!(result.is_err());
    assert!(result.unwrap_err().message().contains("No main track found"));
}

#[test]
fn manifest_lists_segments_by_start_time() {
    let lib = vec![
        mock_media_clip("a", 5, "/m/a.mp4"),
        mock_media_clip("b", 7, "/m/b.mp4"),
        mock_media_clip("c", 3, "/m/c.mp4"),
    ];
    let track = mock_track_with_clips(
        "Main Track",
        vec![
            mock_timeline_clip("a", "t", 5, 0, 5),
            mock_timeline_clip("b", "t", 0, 0, 7),
            mock_timeline_clip("c", "t", 10, 0, 3),
        ],
    );
    assert_eq!(stable_order(&track.clips), vec![1, 0, 2]);
    let content = build_manifest(&[track], &lib).unwrap();
    assert_eq!(
        content,
        "ffconcat version 1.0\n\
         file '/m/b.mp4'\ninpoint 0.000000\noutpoint 7.000000\n\
         file '/m/a.mp4'\ninpoint 0.000000\noutpoint 5.000000\n\
         file '/m/c.mp4'\ninpoint 0.000000\noutpoint 3.000000\n"
    );
}

#[test]
fn stable_order_keeps_track_order_for_equal_starts() {
    let clips = vec![
        mock_timeline_clip("x", "t", 4, 0, 1),
        mock_timeline_clip("y", "t", 2, 0, 1),
        mock_timeline_clip("z", "t", 4, 0, 1),
        mock_timeline_clip("w", "t", 2, 0, 1),
    ];
    assert_eq!(stable_order(&clips), vec![1, 3, 0, 2]);
}

#[test]
fn missing_media_reports_first_missing_clip_in_order() {
    let lib = vec![mock_media_clip("a", 5, "/m/a.mp4")];
    let track = mock_track_with_clips(
        "Main Track",
        vec![
            mock_timeline_clip("late", "t", 9, 0, 1),
            mock_timeline_clip("a", "t", 0, 0, 1),
            mock_timeline_clip("early", "t", 3, 0, 1),
        ],
    );
    let err = build_manifest(&[track], &lib).unwrap_err();
    assert_eq!(err, ManifestError::MediaNotFound("early".to_string()));
    assert_eq!(err.message(), "Media clip not found: early");
}

#[test]
fn quoted_path_is_escaped_exactly() {
    let lib = vec![mock_media_clip("q", 5, "/a/b/my'clip.mp4")];
    let track = mock_track_with_clips("Main Track", vec![mock_timeline_clip("q", "t", 0, 0, 5)]);
    let content = build_manifest(&[track], &lib).unwrap();
    assert!(content.contains("file '/a/b/my'\\''clip.mp4'\n"));
}

#[test]
fn trim_points_keep_microseconds_and_sign() {
    let lib = vec![mock_media_clip("a", 5, "/m/a.mp4")];
    let mut clip = mock_timeline_clip("a", "t", 0, 0, 0);
    clip.in_point = 1_500_001;
    clip.out_point = -2_250_000;
    let track = mock_track_with_clips("Main Track", vec![clip]);
    let content = build_manifest(&[track], &lib).unwrap();
    assert!(content.contains("inpoint 1.500001\n"));
    assert!(content.contains("outpoint -2.250000\n"));
}

#[test]
fn main_track_with_most_clips_is_selected_first_on_ties() {
    let one = mock_track_with_clips("A", vec![mock_timeline_clip("a", "t", 0, 0, 1)]);
    let mut overlay = mock_track_with_clips("O", vec![
        mock_timeline_clip("a", "t", 0, 0, 1),
        mock_timeline_clip("a", "t", 1, 0, 1),
        mock_timeline_clip("a", "t", 2, 0, 1),
    ]);
    overlay.track_type = TrackType::Overlay;
    let two = mock_track_with_clips("B", vec![mock_timeline_clip("a", "t", 0, 0, 1), mock_timeline_clip("a", "t", 1, 0, 1)]);
    let two_again = mock_track_with_clips("C", vec![mock_timeline_clip("a", "t", 0, 0, 1), mock_timeline_clip("a", "t", 1, 0, 1)]);
    assert_eq!(select_main_track(&[one, overlay, two, two_again]), Some(2));
    assert_eq!(select_main_track(&[]), None);
}

// ----- command -----

#[test]
fn test_build_command_hardware_accel_macos() {
    let settings = ExportSettings { hardware_acceleration: true, codec: VideoCodec::H264, ..Default::default() };
    let cmd = build_export_command("/tmp/x/concat.txt", "/tmp/x/output.mp4", &settings, Platform::MacOs);
    assert!(has_arg(&cmd, "h264_videotoolbox"));
    assert!(has_arg(&cmd, "-b:v"));
    assert!(!has_arg(&cmd, "-crf"));
}

#[test]
fn test_build_command_software_encoding() {
    let settings = ExportSettings { hardware_acceleration: false, codec: VideoCodec::H264, ..Default::default() };
    let cmd = build_export_command("/tmp/x/concat.txt", "/tmp/x/output.mp4", &settings, Platform::Other);
    assert!(has_arg(&cmd, "libx264"));
    assert!(has_arg(&cmd, "-crf"));
    assert!(has_arg(&cmd, "-preset"));
}

#[test]
fn test_build_command_resolution_scaling() {
    let settings = ExportSettings { resolution: ExportResolution::FullHD, ..Default::default() };
    let cmd = build_export_command("/tmp/x/concat.txt", "/tmp/x/output.mp4", &settings, Platform::Other);
    assert!(has_arg(&cmd, "-vf"));
    assert!(arg_after(&cmd, "-vf").unwrap().contains("scale=1920:1080"));
}

#[test]
fn test_build_command_includes_audio_settings() {
    let settings = ExportSettings::default();
    let cmd = build_export_command("/tmp/x/concat.txt", "/tmp/x/output.mp4", &settings, Platform::Other);
    assert!(has_arg(&cmd, "-c:a"));
    assert!(has_arg(&cmd, "-b:a"));
}

#[test]
fn software_command_is_exact() {
    let settings = ExportSettings {
        resolution: ExportResolution::HD,
        codec: VideoCodec::VP9,
        quality: ExportQuality::Low,
        fps: Some(24),
        audio_codec: AudioCodec::Opus,
        audio_bitrate: 128,
        hardware_acceleration: false,
    };
    let cmd = build_export_command("/s/concat.txt", "/o/out.webm", &settings, Platform::Windows);
    assert_eq!(cmd.program, "ffmpeg");
    let expected: Vec<&str> = vec![
        "-f", "concat", "-safe", "0", "-i", "/s/concat.txt",
        "-c:v", "libvpx-vp9", "-crf", "28", "-preset", "medium",
        "-vf", "scale=1280:720:force_original_aspect_ratio=decrease",
        "-r", "24",
        "-c:a", "libopus", "-b:a", "128k",
        "-y", "/o/out.webm",
    ];
    assert_eq!(cmd.args, expected);
}

#[test]
fn hardware_command_is_exact_on_windows() {
    let settings = ExportSettings { resolution: ExportResolution::Source, ..Default::default() };
    let cmd = build_export_command("c.txt", "o.mp4", &settings, Platform::Windows);
    let expected: Vec<&str> = vec![
        "-f", "concat", "-safe", "0", "-i", "c.txt",
        "-c:v", "h264_nvenc", "-b:v", "5M",
        "-c:a", "aac", "-b:a", "192k",
        "-y", "o.mp4",
    ];
    assert_eq!(cmd.args, expected);
}

#[test]
fn hardware_request_falls_back_to_software_encoder_name() {
    let settings = ExportSettings::default();
    let cmd = build_export_command("c.txt", "o.mp4", &settings, Platform::Other);
    assert_eq!(arg_after(&cmd, "-c:v").unwrap(), "libx264");
    assert!(!has_arg(&cmd, "-crf"));
    assert_eq!(hardware_h264_encoder(Platform::Other), None);
    assert_eq!(hardware_h264_encoder(Platform::MacOs), Some("h264_videotoolbox"));
}

#[test]
fn constant_quality_only_off_the_hardware_path() {
    for codec in [VideoCodec::H264, VideoCodec::HEVC, VideoCodec::VP9] {
        for hw in [true, false] {
            for platform in [Platform::MacOs, Platform::Windows, Platform::Other] {
                let settings = ExportSettings { codec, hardware_acceleration: hw, ..Default::default() };
                let cmd = build_export_command("c.txt", "o.mp4", &settings, platform);
                if hw && codec == VideoCodec::H264 {
                    assert!(!has_arg(&cmd, "-crf"));
                    assert!(has_arg(&cmd, "-b:v"));
                }
                if !hw {
                    assert!(has_arg(&cmd, "-crf"));
                }
            }
        }
    }
}

#[test]
fn quality_tiers_map_to_crf_values() {
    for (q, v) in [(ExportQuality::High, "18"), (ExportQuality::Medium, "23"), (ExportQuality::Low, "28")] {
        let settings = ExportSettings { quality: q, hardware_acceleration: false, ..Default::default() };
        let cmd = build_export_command("c.txt", "o.mp4", &settings, Platform::Other);
        assert_eq!(arg_after(&cmd, "-crf").unwrap(), v);
    }
}

// ----- durations -----

#[test]
fn test_calculate_duration_single_track() {
    let timeline1 = mock_timeline_clip("clip1", "track1", 0, 0, 5);
    let timeline2 = mock_timeline_clip("clip2", "track1", 5, 0, 7);
    let track = mock_track_with_clips("Main Track", vec![timeline1, timeline2]);
    assert_eq!(calculate_timeline_duration(&[track]), 12 * SEC as i128);
}

#[test]
fn test_calculate_duration_multiple_tracks() {
    let track1 = mock_track_with_clips("Track 1", vec![mock_timeline_clip("clip1", "track1", 0, 0, 10)]);
    let track2 = mock_track_with_clips("Track 2", vec![mock_timeline_clip("clip2", "track2", 0, 0, 15)]);
    assert_eq!(calculate_timeline_duration(&[track1, track2]), 15 * SEC as i128);
}

#[test]
fn test_calculate_duration_with_trimming() {
    let track = mock_track_with_clips("Main Track", vec![mock_timeline_clip("clip1", "track1", 0, 2, 8)]);
    assert_eq!(calculate_timeline_duration(&[track]), 6 * SEC as i128);
}

#[test]
fn test_calculate_duration_empty_tracks() {
    let track = mock_track_with_clips("Main Track", vec![]);
    assert_eq!(calculate_timeline_duration(&[track]), 0);
}

#[test]
fn test_calculate_duration_with_gaps() {
    let timeline1 = mock_timeline_clip("clip1", "track1", 0, 0, 3);
    let timeline2 = mock_timeline_clip("clip2", "track1", 10, 0, 5);
    let track = mock_track_with_clips("Main Track", vec![timeline1, timeline2]);
    assert_eq!(calculate_timeline_duration(&[track]), 15 * SEC as i128);
}

#[test]
fn duration_of_gapped_track_is_thirteen_seconds() {
    let track = mock_track_with_clips(
        "Main Track",
        vec![mock_timeline_clip("a", "t", 0, 0, 5), mock_timeline_clip("b", "t", 10, 0, 3)],
    );
    assert_eq!(calculate_timeline_duration(&[track]), 13 * SEC as i128);
}

#[test]
fn duration_of_no_tracks_is_zero() {
    assert_eq!(calculate_timeline_duration(&[]), 0);
}

#[test]
fn clip_and_track_durations() {
    let clip = mock_timeline_clip("a", "t", 3, 2, 8);
    assert_eq!(clip.duration(), 6 * SEC as i128);
    assert_eq!(clip.end_time(), 9 * SEC as i128);
    let track = mock_track_with_clips("T", vec![clip, mock_timeline_clip("b", "t", 1, 0, 1)]);
    assert_eq!(track.duration(), 9 * SEC as i128);
    assert_eq!(track.clip_count(), 2);
}

// ----- progress -----

#[test]
fn test_parse_progress() {
    let line = "frame= 1234 fps= 30 q=28.0 size= 1024kB time=00:00:41.40 bitrate= 202.3kbits/s speed=1.2x";
    let total_duration = 120 * SEC as i128;
    let progress = parse_progress(line, total_duration);
    assert!(progress.is_some());
    let progress = progress.unwrap();
    assert_eq!(progress.current_frame, 1234);
    assert_eq!(progress.fps, 30_000);
    assert!(progress.progress > 0 && progress.progress < 1_000_000);
}

#[test]
fn test_parse_progress_returns_none_on_invalid() {
    let line = "Some random FFmpeg output without progress";
    assert!(parse_progress(line, 120 * SEC as i128).is_none());
}

#[test]
fn test_parse_progress_calculates_eta() {
    let line = "frame= 100 fps= 25 q=28.0 size= 1024kB time=00:00:04.00 bitrate= 202.3kbits/s speed=1.0x";
    let progress = parse_progress(line, 100 * SEC as i128);
    assert!(progress.is_some());
    let progress = progress.unwrap();
    assert!(progress.eta_seconds > 0);
}

#[test]
fn progress_sample_values_are_exact() {
    let line = "frame= 100 fps= 25 q=28.0 size= 1024kB time=00:00:04.00 bitrate= 202.3kbits/s speed=1.0x";
    let p = parse_progress(line, 100 * SEC as i128).unwrap();
    assert_eq!(p.current_frame, 100);
    assert_eq!(p.fps, 25_000);
    assert_eq!(p.progress, 40_000);
    assert_eq!(p.total_frames, 2500);
    assert_eq!(p.eta_seconds, 96);
}

#[test]
fn progress_defaults_without_fps_or_time() {
    let p = parse_progress("frame=7", 10 * SEC as i128).unwrap();
    assert_eq!(p.current_frame, 7);
    assert_eq!(p.fps, 30_000);
    assert_eq!(p.progress, 0);
    assert_eq!(p.total_frames, 300);
    assert_eq!(p.eta_seconds, 9);
}

#[test]
fn progress_with_fractional_rate_and_hours() {
    let p = parse_progress("frame=  10 fps=29.97 time=01:02:03.5", 7200 * SEC as i128).unwrap();
    assert_eq!(p.fps, 29_970);
    assert_eq!(p.progress, 517_152);
    assert_eq!(p.total_frames, 215_784);
}

#[test]
fn progress_is_clamped_and_zero_for_empty_timeline() {
    let p = parse_progress("frame=10 fps=10 time=00:10:00.00", 60 * SEC as i128).unwrap();
    assert_eq!(p.progress, 1_000_000);
    assert_eq!(p.eta_seconds, 59);
    let q = parse_progress("frame=10 fps=10 time=00:10:00.00", 0).unwrap();
    assert_eq!(q.progress, 0);
    assert_eq!(q.total_frames, 0);
    assert_eq!(q.eta_seconds, 0);
}

#[test]
fn progress_edge_cases() {
    assert!(parse_progress("frame=", 10).is_none());
    assert!(parse_progress("frame=99999999999999999999999", 10).is_none());
    let p = parse_progress("frame=0 fps=1.2.3", 10 * SEC as i128).unwrap();
    assert_eq!(p.fps, 30_000);
    assert_eq!(p.eta_seconds, 0);
    let z = parse_progress("frame=5 fps=0", 10 * SEC as i128).unwrap();
    assert_eq!(z.fps, 0);
    assert_eq!(z.total_frames, 0);
    assert_eq!(z.eta_seconds, 0);
}

// ----- jobs -----

#[test]
fn transition_table() {
    assert_eq!(transition(ExportStatus::Preparing, JobEvent::Spawned), ExportStatus::Rendering);
    assert_eq!(transition(ExportStatus::Preparing, JobEvent::SpawnFailed), ExportStatus::Failed);
    assert_eq!(transition(ExportStatus::Rendering, JobEvent::Exited { success: true }), ExportStatus::Complete);
    assert_eq!(transition(ExportStatus::Rendering, JobEvent::Exited { success: false }), ExportStatus::Failed);
    assert_eq!(transition(ExportStatus::Rendering, JobEvent::CancelRequested), ExportStatus::Cancelled);
    assert_eq!(transition(ExportStatus::Cancelled, JobEvent::Exited { success: true }), ExportStatus::Cancelled);
    assert_eq!(transition(ExportStatus::Complete, JobEvent::CancelRequested), ExportStatus::Complete);
}

#[test]
fn job_runs_to_completion() {
    let mut reg: JobRegistry<u32> = JobRegistry::new();
    let id = reg.create_job("/o/out.mp4".to_string());
    assert_eq!(id.len(), 36);
    assert_eq!(reg.status(&id), Some(ExportStatus::Preparing));
    assert_eq!(reg.attach_process(&id, 7), Ok(()));
    assert_eq!(reg.status(&id), Some(ExportStatus::Rendering));
    let sup = ExportSupervisor::new(id.clone(), "/o/out.mp4".to_string(), 10 * SEC as i128);
    match sup.on_exit(&mut reg, true, "exit status: 0") {
        Some(JobOutcome::Complete(e)) => {
            assert_eq!(e.job_id, id);
            assert_eq!(e.output_path, "/o/out.mp4");
        }
        other => panic!("unexpected outcome {:?}", other),
    }
    assert_eq!(reg.status(&id), Some(ExportStatus::Complete));
    assert!(matches!(reg.cancel(&id), Ok(CancelOutcome::AlreadyFinished)));
    assert_eq!(reg.status(&id), Some(ExportStatus::Complete));
}

#[test]
fn cancelled_job_hands_back_process_and_never_completes() {
    let mut reg: JobRegistry<u32> = JobRegistry::new();
    let id = reg.create_job("/o/out.mp4".to_string());
    reg.attach_process(&id, 42).unwrap();
    match reg.cancel(&id) {
        Ok(CancelOutcome::Cancelled(Some(p))) => assert_eq!(p, 42),
        _ => panic!("expected the live process back"),
    }
    assert_eq!(reg.status(&id), Some(ExportStatus::Cancelled));
    let sup = ExportSupervisor::new(id.clone(), "/o/out.mp4".to_string(), 0);
    assert!(sup.on_exit(&mut reg, true, "exit status: 0").is_none());
    assert!(sup.on_spawn_failed(&mut reg, "gone").is_none());
    assert_eq!(reg.status(&id), Some(ExportStatus::Cancelled));
}

#[test]
fn cancel_before_spawn_marks_cancelled_and_rejects_late_process() {
    let mut reg: JobRegistry<u32> = JobRegistry::new();
    let id = reg.create_job("/o/out.mp4".to_string());
    assert!(matches!(reg.cancel(&id), Ok(CancelOutcome::Cancelled(None))));
    assert_eq!(reg.attach_process(&id, 5), Err(5));
    assert_eq!(reg.status(&id), Some(ExportStatus::Cancelled));
}

#[test]
fn cancel_unknown_job_is_an_error() {
    let mut reg: JobRegistry<u32> = JobRegistry::new();
    match reg.cancel(&"nope".to_string()) {
        Err(JobError::JobNotFound(id)) => assert_eq!(id, "nope"),
        _ => panic!("expected JobNotFound"),
    }
    assert_eq!(reg.status(&"nope".to_string()), None);
}

#[test]
fn spawn_failure_fails_the_job() {
    let mut reg: JobRegistry<u32> = JobRegistry::new();
    reg.insert_job("j1".to_string(), "/o/a.mp4".to_string());
    let sup = ExportSupervisor::new("j1".to_string(), "/o/a.mp4".to_string(), 0);
    let e = sup.on_spawn_failed(&mut reg, "No such file").unwrap();
    assert_eq!(e.error, "Failed to spawn FFmpeg process: No such file");
    assert_eq!(reg.status(&"j1".to_string()), Some(ExportStatus::Failed));
    assert_eq!(reg.output_path(&"j1".to_string()), Some("/o/a.mp4".to_string()));
}

#[test]
fn failed_exit_reports_last_ten_lines() {
    let mut reg: JobRegistry<u32> = JobRegistry::new();
    reg.insert_job("j".to_string(), "/o/a.mp4".to_string());
    reg.attach_process(&"j".to_string(), 1).unwrap();
    let mut sup = ExportSupervisor::new("j".to_string(), "/o/a.mp4".to_string(), 10 * SEC as i128);
    for i in 0..12 {
        let ev = sup.on_line(format!("line {}", i));
        assert!(ev.is_none());
    }
    let ev = sup.on_line("frame= 50 fps= 25 time=00:00:02.00".to_string()).unwrap();
    assert_eq!(ev.job_id, "j");
    assert_eq!(ev.current_frame, 50);
    assert_eq!(ev.progress, 200_000);
    match sup.on_exit(&mut reg, false, "exit status: 1") {
        Some(JobOutcome::Failed(e)) => {
            let mut expected = "FFmpeg export failed with status: exit status: 1\n\nRecent output:\n".to_string();
            for i in 3..12 {
                expected.push_str(&format!("line {}\n", i));
            }
            expected.push_str("frame= 50 fps= 25 time=00:00:02.00");
            assert_eq!(e.error, expected);
        }
        other => panic!("unexpected outcome {:?}", other),
    }
    assert_eq!(reg.status(&"j".to_string()), Some(ExportStatus::Failed));
}

#[test]
fn failure_without_output_gives_generic_message() {
    let recent = RecentLines::new();
    assert!(recent.is_empty());
    assert_eq!(failure_message("signal: 9", &recent), "FFmpeg export failed with status: signal: 9");
}

#[test]
fn plan_export_builds_everything_or_fails_early() {
    let lib = vec![mock_media_clip("a", 5, "/m/a.mp4")];
    let track = mock_track_with_clips("Main Track", vec![mock_timeline_clip("a", "t", 2, 0, 5)]);
    let request = ExportRequest { output_path: "/o/out.mp4".to_string(), settings: ExportSettings::default() };
    let plan = plan_export(&[track.clone()], &lib, "/s/concat.txt", &request, Platform::MacOs).unwrap();
    assert!(plan.manifest.starts_with("ffconcat version 1.0\n"));
    assert_eq!(plan.command.args[5], "/s/concat.txt");
    assert_eq!(plan.command.args.last().unwrap(), "/o/out.mp4");
    assert_eq!(plan.total_duration, 7 * SEC as i128);
    let err = plan_export(&[track], &[], "/s/concat.txt", &request, Platform::MacOs).unwrap_err();
    assert_eq!(err, ManifestError::MediaNotFound("a".to_string()));
}

#[test]
fn reversed_trim_window_never_gives_negative_duration() {
    let track = mock_track_with_clips("Main Track", vec![mock_timeline_clip("a", "t", 0, 5, 2)]);
    assert_eq!(track.duration(), 0);
    assert_eq!(calculate_timeline_duration(&[track]), 0);
    let mixed = mock_track_with_clips(
        "Main Track",
        vec![mock_timeline_clip("a", "t", 0, 5, 2), mock_timeline_clip("b", "t", 1, 0, 2)],
    );
    assert_eq!(calculate_timeline_duration(&[mixed]), 3 * SEC as i128);
}

#[test]
fn progress_accepts_unicode_spaces() {
    let p = parse_progress("frame=\u{a0}\u{3000}42 fps=\u{2009}24 time=00:00:01.00", 10 * SEC as i128).unwrap();
    assert_eq!(p.current_frame, 42);
    assert_eq!(p.fps, 24_000);
    assert!(parse_progress("frame=\u{a0}x", 10).is_none());
}

#[test]
fn created_jobs_get_new_ids_and_failed_output_is_discarded() {
    let mut reg: JobRegistry<u32> = JobRegistry::new();
    reg.insert_job("a".to_string(), "/o/a.mp4".to_string());
    let id = reg.create_job("/o/b.mp4".to_string());
    assert_ne!(id, "a");
    assert_eq!(reg.output_path(&"a".to_string()), Some("/o/a.mp4".to_string()));
    assert_eq!(reg.output_path(&id), Some("/o/b.mp4".to_string()));
    let sup = ExportSupervisor::new(id.clone(), "/o/b.mp4".to_string(), 0);
    assert!(!sup.discard_output(&reg));
    reg.attach_process(&id, 1).unwrap();
    assert!(sup.on_exit(&mut reg, false, "exit status: 1").is_some());
    assert!(sup.discard_output(&reg));
    let done = ExportSupervisor::new("a".to_string(), "/o/a.mp4".to_string(), 0);
    reg.attach_process(&"a".to_string(), 2).unwrap();
    assert!(done.on_exit(&mut reg, true, "exit status: 0").is_some());
    assert!(!done.discard_output(&reg));
}
