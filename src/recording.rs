//! Screen and camera recording: sessions, configuration and sources.

use crate::clock::now_millis;
use crate::ids::new_id;
use crate::text::{contains_text, decimal, find_text, push_decimal};
use vstd::prelude::*;

verus! {

#[derive(Debug, Clone, Copy, PartialEq, Eq, Structural)]
pub enum RecordingType {
    Screen,
    Webcam,
    ScreenWebcam,
}

#[derive(Debug, Clone, Copy, PartialEq, Eq, Structural)]
pub enum RecordingStatus {
    Preparing,
    Recording,
    Paused,
    Stopped,
    Failed,
}

#[derive(Debug, Clone)]
pub struct RecordingSettings {
    pub resolution: String,
    pub fps: u32,
}

/// What the user asked to record.
#[derive(Debug, Clone)]
pub struct RecordingConfig {
    pub recording_type: RecordingType,
    pub screen_source_id: Option<String>,
    pub camera_device_id: Option<String>,
    pub audio_sources: Vec<String>,
    pub microphone_device_id: Option<String>,
    pub settings: RecordingSettings,
}

#[derive(Debug, Clone)]
pub struct RecordingSource {
    pub id: String,
    pub name: String,
}

#[derive(Debug, Clone)]
pub struct ScreenSource {
    pub id: String,
    pub name: String,
    pub resolution: String,
}

#[derive(Debug, Clone)]
pub struct WindowSource {
    pub id: String,
    pub name: String,
    pub app: String,
}

/// Everything that can be recorded on this machine.
#[derive(Debug, Clone)]
pub struct RecordingSources {
    pub screens: Vec<ScreenSource>,
    pub windows: Vec<WindowSource>,
    pub cameras: Vec<RecordingSource>,
    pub microphones: Vec<RecordingSource>,
}

#[derive(Debug, Clone, Copy, PartialEq, Eq, Structural)]
pub enum Permission {
    Screen,
    Camera,
    Microphone,
}

#[derive(Debug, Clone, Copy, PartialEq, Eq, Structural)]
pub struct PermissionStatus {
    pub screen: bool,
    pub camera: bool,
    pub microphone: bool,
}

#[derive(Debug, Clone, Copy, PartialEq, Eq, Structural)]
pub struct PermissionResult {
    pub granted: PermissionStatus,
}

/// A screen or camera recording, from preparation to its end.
#[derive(Debug, Clone)]
pub struct RecordingSession {
    pub id: String,
    pub recording_type: RecordingType,
    pub status: RecordingStatus,
    pub output_path: String,
    /// Start time, in milliseconds since the Unix epoch.
    pub started_at: Option<i64>,
    /// Stop time, in milliseconds since the Unix epoch.
    pub stopped_at: Option<i64>,
    /// Recorded length in milliseconds.
    pub duration: Option<i64>,
    pub screen_source: Option<String>,
    pub camera_device: Option<String>,
    pub audio_sources: Vec<String>,
    /// Frame size such as `1920x1080`.
    pub resolution: String,
    pub fps: u32,
    pub error_message: Option<String>,
    pub created_media_clip_id: Option<String>,
}

/// Frame rates a recording may use.
pub open spec fn allowed_fps(fps: u32) -> bool {
    fps == 15 || fps == 24 || fps == 30 || fps == 60
}

/// The first problem with a session's configuration, if any.
pub open spec fn session_problem(s: RecordingSession) -> Option<Seq<char>> {
    if !contains_text(s.resolution@, "x"@) {
        Some("Invalid resolution format: "@ + s.resolution@)
    } else if !allowed_fps(s.fps) {
        Some("Invalid FPS: "@ + decimal(s.fps as nat) + ". Must be 15, 24, 30, or 60"@)
    } else if s.recording_type == RecordingType::ScreenWebcam && s.screen_source is None {
        Some("Screen source required for screen_webcam recording"@)
    } else if s.recording_type == RecordingType::ScreenWebcam && s.camera_device is None {
        Some("Camera device required for screen_webcam recording"@)
    } else {
        None
    }
}

impl RecordingSession {
    /// A session in `Preparing`, with a fresh id and no sources yet.
    pub fn new(recording_type: RecordingType, output_path: String, resolution: String, fps: u32) -> (r: RecordingSession)
        ensures
            r.id@.len() == 36,
            r.recording_type == recording_type,
            r.status == RecordingStatus::Preparing,
            r.output_path == output_path,
            r.started_at is None && r.stopped_at is None && r.duration is None,
            r.screen_source is None && r.camera_device is None,
            r.audio_sources@.len() == 0,
            r.resolution == resolution,
            r.fps == fps,
            r.error_message is None && r.created_media_clip_id is None,
    {
        RecordingSession {
            id: new_id(),
            recording_type,
            status: RecordingStatus::Preparing,
            output_path,
            started_at: None,
            stopped_at: None,
            duration: None,
            screen_source: None,
            camera_device: None,
            audio_sources: Vec::new(),
            resolution,
            fps,
            error_message: None,
            created_media_clip_id: None,
        }
    }

    /// Recording has begun now.
    pub fn start(&mut self)
        ensures
            final(self).status == RecordingStatus::Recording,
            final(self).started_at is Some,
            final(self).stopped_at == old(self).stopped_at,
            final(self).duration == old(self).duration,
            final(self).id == old(self).id,
            final(self).output_path == old(self).output_path,
    {
        self.status = RecordingStatus::Recording;
        self.started_at = Some(now_millis());
    }

    /// Recording has stopped now; the duration is the time since the start
    /// when there was one (and it fits an `i64`).
    pub fn stop(&mut self)
        ensures
            final(self).status == RecordingStatus::Stopped,
            final(self).started_at == old(self).started_at,
            final(self).stopped_at matches Some(stop) && (match old(self).started_at {
                Some(start) => if i64::MIN <= stop - start <= i64::MAX {
                    final(self).duration == Some((stop - start) as i64)
                } else {
                    final(self).duration == old(self).duration
                },
                None => final(self).duration == old(self).duration,
            }),
            final(self).id == old(self).id,
            final(self).output_path == old(self).output_path,
    {
        self.status = RecordingStatus::Stopped;
        let stop = now_millis();
        self.stopped_at = Some(stop);
        match self.started_at {
            Some(start) => {
                let d = stop as i128 - start as i128;
                if i64::MIN as i128 <= d && d <= i64::MAX as i128 {
                    self.duration = Some(d as i64);
                }
            },
            None => {},
        }
    }

    /// Recording failed with `error`.
    pub fn fail(&mut self, error: String)
        ensures
            final(self).status == RecordingStatus::Failed,
            final(self).error_message == Some(error),
            final(self).stopped_at is Some,
            final(self).started_at == old(self).started_at,
            final(self).id == old(self).id,
    {
        self.status = RecordingStatus::Failed;
        self.error_message = Some(error);
        self.stopped_at = Some(now_millis());
    }

    /// Records the length recorded so far, in milliseconds.
    pub fn update_duration(&mut self, duration: i64)
        ensures
            final(self).duration == Some(duration),
            final(self).status == old(self).status,
            final(self).started_at == old(self).started_at,
            final(self).stopped_at == old(self).stopped_at,
            final(self).id == old(self).id,
    {
        self.duration = Some(duration);
    }

    /// Checks the configuration: a `WxH` resolution, an allowed frame
    /// rate, and both sources for a combined screen and camera recording.
    pub fn validate(&self) -> (r: Result<(), String>)
        ensures
            r is Ok <==> session_problem(*self) is None,
            r matches Err(e) ==> Some(e@) == session_problem(*self),
    {
        if !find_text(self.resolution.as_str(), "x") {
            let mut e = String::from_str("Invalid resolution format: ");
            e.append(self.resolution.as_str());
            return Err(e);
        }
        if !(self.fps == 15 || self.fps == 24 || self.fps == 30 || self.fps == 60) {
            let mut e = String::from_str("Invalid FPS: ");
            push_decimal(&mut e, self.fps as u64);
            e.append(". Must be 15, 24, 30, or 60");
            return Err(e);
        }
        if self.recording_type == RecordingType::ScreenWebcam {
            if self.screen_source.is_none() {
                return Err(String::from_str("Screen source required for screen_webcam recording"));
            }
            if self.camera_device.is_none() {
                return Err(String::from_str("Camera device required for screen_webcam recording"));
            }
        }
        Ok(())
    }
}

} // verus!
