use clipforge::editing::{add_clip_to_timeline, create_track, track_type_from_lowercase, update_timeline_clip, Project, TimelineClipUpdates};
use clipforge::media::MediaClip;
use clipforge::project::{AudioCodec, Codec, Quality, Resolution};
use clipforge::timeline::TrackType;

fn library() -> Vec<MediaClip> {
    vec![MediaClip::new("/m/a.mp4".to_string(), 10_000_000, 1920, 1080, 30_000, "h264".to_string(), 10)]
}

#[test]
fn new_project_has_a_main_track() {
    let p = Project::new("Demo".to_string());
    assert_eq!(p.name, "Demo");
    assert_eq!(p.version, "1.0.0");
    assert_eq!(p.tracks.len(), 1);
    assert_eq!(p.tracks[0].name, "Main Track");
    assert_eq!(p.tracks[0].track_type, TrackType::Main);
    assert_eq!(p.export_settings.resolution, Resolution::FullHD);
    assert_eq!(p.export_settings.codec, Codec::H264);
    assert_eq!(p.export_settings.quality, Quality::High);
    assert_eq!(p.export_settings.audio_codec, AudioCodec::Aac);
    assert!(p.auto_save_enabled);
}

#[test]
fn adding_clips_checks_inputs() {
    let lib = library();
    let mut p = Project::new("Demo".to_string());
    let track_id = p.tracks[0].id.clone();
    let media_id = lib[0].id.clone();
    assert_eq!(
        add_clip_to_timeline(&mut p, &lib, media_id.clone(), track_id.clone(), 0, 5, 5).unwrap_err(),
        "in_point must be less than out_point"
    );
    assert_eq!(
        add_clip_to_timeline(&mut p, &lib, media_id.clone(), track_id.clone(), -1, 0, 5).unwrap_err(),
        "start_time must be non-negative"
    );
    assert_eq!(
        add_clip_to_timeline(&mut p, &lib, "nope".to_string(), track_id.clone(), 0, 0, 5).unwrap_err(),
        "Media clip not found: nope"
    );
    assert_eq!(
        add_clip_to_timeline(&mut p, &lib, media_id.clone(), "t?".to_string(), 0, 0, 5).unwrap_err(),
        "Track not found: t?"
    );
    assert!(p.tracks[0].clips.is_empty());
    let clip = add_clip_to_timeline(&mut p, &lib, media_id.clone(), track_id.clone(), 1_000_000, 0, 5_000_000).unwrap();
    assert_eq!(p.tracks[0].clips.len(), 1);
    assert_eq!(p.tracks[0].clips[0].id, clip.id);
    assert_eq!(clip.start_time, 1_000_000);
}

#[test]
fn updating_clips_applies_valid_changes_only() {
    let lib = library();
    let mut p = Project::new("Demo".to_string());
    let track_id = p.tracks[0].id.clone();
    let clip = add_clip_to_timeline(&mut p, &lib, lib[0].id.clone(), track_id, 0, 1_000, 5_000).unwrap();
    let updates = TimelineClipUpdates { start_time: Some(-5), in_point: Some(6_000), out_point: Some(4_000), track_id: None };
    let c = update_timeline_clip(&mut p, &clip.id, updates).unwrap();
    assert_eq!((c.start_time, c.in_point, c.out_point), (0, 1_000, 4_000));
    let updates = TimelineClipUpdates { start_time: Some(7), in_point: Some(2_000), out_point: None, track_id: Some("t2".to_string()) };
    let c = update_timeline_clip(&mut p, &clip.id, updates).unwrap();
    assert_eq!((c.start_time, c.in_point, c.out_point), (7, 2_000, 4_000));
    assert_eq!(c.track_id, "t2");
    assert_eq!(p.tracks[0].clips[0].in_point, 2_000);
    let none = TimelineClipUpdates { start_time: None, in_point: None, out_point: None, track_id: None };
    assert_eq!(update_timeline_clip(&mut p, &"zz".to_string(), none).unwrap_err(), "Clip not found: zz");
}

#[test]
fn creating_tracks() {
    let mut p = Project::new("Demo".to_string());
    let t = create_track(&mut p, "Titles".to_string(), "OVERLAY").unwrap();
    assert_eq!(t.track_type, TrackType::Overlay);
    assert_eq!(t.order, 1);
    assert_eq!(p.tracks.len(), 2);
    assert_eq!(p.tracks[1].id, t.id);
    assert_eq!(create_track(&mut p, "X".to_string(), "audio").unwrap_err(), "Invalid track type: audio");
    assert_eq!(p.tracks.len(), 2);
}

#[test]
fn track_type_names() {
    assert_eq!(track_type_from_lowercase("main"), Some(TrackType::Main));
    assert_eq!(track_type_from_lowercase("overlay"), Some(TrackType::Overlay));
    assert_eq!(track_type_from_lowercase("Main"), None);
}
