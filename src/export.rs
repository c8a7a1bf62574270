//! An export request end to end: planning (manifest, command, duration)
//! and the supervisor's decisions while the encoder runs.
//!
//! The caller owns the effects: it writes the manifest, spawns the
//! process, reads its diagnostic stream line by line, waits for it, and
//! publishes the events these functions return.

use crate::command::{build_export_command, export_args, arg_views, ExportCommand, Platform};
use crate::job::{is_terminal, next_status, ExportStatus, JobEvent, JobRegistry, JobView};
use crate::manifest::{build_manifest, is_manifest_outcome, ManifestError};
use crate::media::MediaClip;
use crate::progress::{parse_progress, progress_of, ExportProgress};
use crate::settings::ExportSettings;
use crate::timeline::{calculate_timeline_duration, timeline_duration, Track};
use vstd::prelude::*;
use vstd::utf8::encode_utf8;

verus! {

/// A request to export the timeline.
#[derive(Debug, Clone)]
pub struct ExportRequest {
    pub output_path: String,
    pub settings: ExportSettings,
}

/// The answer to an export request.
#[derive(Debug, Clone)]
pub struct ExportJobResponse {
    pub job_id: String,
}

/// Progress of a running export.
#[derive(Debug, Clone)]
pub struct ExportProgressEvent {
    pub job_id: String,
    /// Fraction done, in millionths.
    pub progress: u32,
    pub current_frame: u64,
    pub total_frames: u64,
    /// Encoding rate, in thousandths of a frame per second.
    pub fps: u64,
    pub eta_seconds: u64,
}

/// An export finished and its output is complete.
#[derive(Debug, Clone)]
pub struct ExportCompleteEvent {
    pub job_id: String,
    pub output_path: String,
}

/// An export failed.
#[derive(Debug, Clone)]
pub struct ExportErrorEvent {
    pub job_id: String,
    pub error: String,
}

/// An export was cancelled.
#[derive(Debug, Clone)]
pub struct ExportCancelledEvent {
    pub job_id: String,
}

/// How a job ended, as announced.
#[derive(Debug, Clone)]
pub enum JobOutcome {
    Complete(ExportCompleteEvent),
    Failed(ExportErrorEvent),
}

/// Everything an export needs before its process starts.
#[derive(Debug, Clone)]
pub struct ExportPlan {
    /// Text to write at the manifest path.
    pub manifest: String,
    pub command: ExportCommand,
    /// Length of the timeline in microseconds, for progress estimates.
    pub total_duration: i128,
}

/// Builds the manifest, the encoder command and the timeline duration of
/// an export. Fails, before anything is written, exactly when the
/// manifest cannot be built.
pub fn plan_export(
    tracks: &[Track],
    library: &[MediaClip],
    manifest_path: &str,
    request: &ExportRequest,
    platform: Platform,
) -> (r: Result<ExportPlan, ManifestError>)
    ensures
        r matches Err(e) ==> is_manifest_outcome(tracks@, library@, Err(e)),
        r matches Ok(p) ==> is_manifest_outcome(tracks@, library@, Ok(p.manifest))
            && p.command.program@ == "ffmpeg"@
            && arg_views(p.command.args@) == export_args(manifest_path@, request.output_path@, request.settings, platform)
            && p.total_duration == timeline_duration(tracks@),
{
    let manifest = match build_manifest(tracks, library) {
        Err(e) => {
            return Err(e);
        },
        Ok(m) => m,
    };
    let command = build_export_command(manifest_path, request.output_path.as_str(), &request.settings, platform);
    let total_duration = calculate_timeline_duration(tracks);
    Ok(ExportPlan { manifest, command, total_duration })
}

/// Number of diagnostic lines kept for error reports.
pub const RECENT_LINE_LIMIT: usize = 10;

/// The last `n` elements of `s` (all of them when there are fewer).
pub open spec fn keep_last(s: Seq<Seq<char>>, n: nat) -> Seq<Seq<char>> {
    if s.len() <= n {
        s
    } else {
        s.subrange(s.len() - n, s.len() as int)
    }
}

/// The most recent diagnostic lines of a process, oldest first.
#[derive(Debug, Clone)]
pub struct RecentLines {
    lines: Vec<String>,
}

impl View for RecentLines {
    type V = Seq<Seq<char>>;

    closed spec fn view(&self) -> Seq<Seq<char>> {
        self.lines@.map_values(|s: String| s@)
    }
}

impl RecentLines {
    /// At most `RECENT_LINE_LIMIT` lines are kept.
    pub closed spec fn wf(&self) -> bool {
        self.lines@.len() <= RECENT_LINE_LIMIT
    }

    /// No lines yet.
    pub fn new() -> (r: RecentLines)
        ensures
            r.wf(),
            r@ == Seq::<Seq<char>>::empty(),
    {
        let r = RecentLines { lines: Vec::new() };
        assert(r@ =~= Seq::<Seq<char>>::empty());
        r
    }

    /// Records a line, forgetting the oldest beyond the limit.
    pub fn push(&mut self, line: String)
        requires
            old(self).wf(),
        ensures
            final(self).wf(),
            final(self)@ == keep_last(old(self)@.push(line@), RECENT_LINE_LIMIT as nat),
    {
        let ghost v = line@;
        self.lines.push(line);
        assert(self@ =~= old(self)@.push(v));
        if self.lines.len() > RECENT_LINE_LIMIT {
            let ghost full = self@;
            let _ = self.lines.remove(0);
            assert(self@ =~= full.subrange(full.len() - RECENT_LINE_LIMIT, full.len() as int));
        }
    }

    /// Whether no line has been recorded.
    pub fn is_empty(&self) -> (r: bool)
        ensures
            r == (self@.len() == 0),
    {
        self.lines.len() == 0
    }

    /// The kept lines, oldest first.
    pub fn lines(&self) -> (r: &Vec<String>)
        ensures
            r@.map_values(|s: String| s@) == self@,
    {
        &self.lines
    }
}

/// Lines joined with line breaks between them.
pub open spec fn join_lines(s: Seq<Seq<char>>) -> Seq<char>
    decreases s.len(),
{
    if s.len() == 0 {
        Seq::empty()
    } else if s.len() == 1 {
        s[0]
    } else {
        join_lines(s.drop_last()) + "\n"@ + s.last()
    }
}

/// The error message of a failed encode: the exit status, then the recent
/// diagnostic lines when there are any.
pub open spec fn failure_text(status: Seq<char>, recent: Seq<Seq<char>>) -> Seq<char> {
    if recent.len() == 0 {
        "FFmpeg export failed with status: "@ + status
    } else {
        "FFmpeg export failed with status: "@ + status + "\n\nRecent output:\n"@ + join_lines(recent)
    }
}

/// The error message of an encoder that could not be started.
pub open spec fn spawn_failure_text(error: Seq<char>) -> Seq<char> {
    "Failed to spawn FFmpeg process: "@ + error
}

fn push_joined(out: &mut String, lines: &Vec<String>)
    ensures
        final(out)@ == old(out)@ + join_lines(lines@.map_values(|s: String| s@)),
{
    let ghost views = lines@.map_values(|s: String| s@);
    let mut i: usize = 0;
    assert(views.subrange(0, 0) =~= Seq::<Seq<char>>::empty());
    assert(old(out)@ + join_lines(Seq::<Seq<char>>::empty()) =~= old(out)@);
    while i < lines.len()
        invariant
            i <= lines@.len(),
            views == lines@.map_values(|s: String| s@),
            out@ == old(out)@ + join_lines(views.subrange(0, i as int)),
        decreases lines@.len() - i,
    {
        let ghost before = out@;
        let ghost next = views.subrange(0, i + 1);
        assert(next.drop_last() =~= views.subrange(0, i as int));
        assert(next.last() == lines@[i as int]@);
        if i > 0 {
            out.append("\n");
        }
        out.append(lines[i].as_str());
        proof {
            if i == 0 {
                assert(join_lines(next) == next[0]);
                assert(join_lines(views.subrange(0, 0)) =~= Seq::<char>::empty());
                assert(out@ =~= old(out)@ + join_lines(next));
            } else {
                assert(out@ =~= before + "\n"@ + lines@[i as int]@);
                assert(out@ =~= old(out)@ + join_lines(next));
            }
        }
        i = i + 1;
    }
    assert(views.subrange(0, lines@.len() as int) =~= views);
}

/// The error message for an encoder that exited with `status`.
pub fn failure_message(status: &str, recent: &RecentLines) -> (r: String)
    ensures
        r@ == failure_text(status@, recent@),
{
    let mut text = String::from_str("FFmpeg export failed with status: ");
    text.append(status);
    if !recent.is_empty() {
        text.append("\n\nRecent output:\n");
        push_joined(&mut text, recent.lines());
    }
    text
}

/// The progress event of a sample.
pub open spec fn progress_event_of(job_id: Seq<char>, p: ExportProgress, e: ExportProgressEvent) -> bool {
    &&& e.job_id@ == job_id
    &&& e.progress == p.progress
    &&& e.current_frame == p.current_frame
    &&& e.total_frames == p.total_frames
    &&& e.fps == p.fps
    &&& e.eta_seconds == p.eta_seconds
}

/// The decisions of one job's supervising task.
#[derive(Debug, Clone)]
pub struct ExportSupervisor {
    pub job_id: String,
    pub output_path: String,
    /// Length of the timeline in microseconds.
    pub total_duration: i128,
    pub recent: RecentLines,
}

impl ExportSupervisor {
    /// A supervisor that has seen no output yet.
    pub fn new(job_id: String, output_path: String, total_duration: i128) -> (r: ExportSupervisor)
        ensures
            r.job_id == job_id,
            r.output_path == output_path,
            r.total_duration == total_duration,
            r.recent.wf(),
            r.recent@ == Seq::<Seq<char>>::empty(),
    {
        ExportSupervisor { job_id, output_path, total_duration, recent: RecentLines::new() }
    }

    /// One line of the process's diagnostic stream: it joins the recent
    /// lines, and when it carries progress the event to publish is returned.
    pub fn on_line(&mut self, line: String) -> (r: Option<ExportProgressEvent>)
        requires
            old(self).recent.wf(),
        ensures
            final(self).recent.wf(),
            final(self).recent@ == keep_last(old(self).recent@.push(line@), RECENT_LINE_LIMIT as nat),
            final(self).job_id == old(self).job_id,
            final(self).output_path == old(self).output_path,
            final(self).total_duration == old(self).total_duration,
            r is None <==> progress_of(encode_utf8(line@), old(self).total_duration as int) is None,
            r matches Some(e) ==> progress_event_of(
                old(self).job_id@,
                progress_of(encode_utf8(line@), old(self).total_duration as int).unwrap(),
                e,
            ),
    {
        let sample = parse_progress(line.as_str(), self.total_duration);
        self.recent.push(line);
        match sample {
            None => None,
            Some(p) => Some(
                ExportProgressEvent {
                    job_id: self.job_id.clone(),
                    progress: p.progress,
                    current_frame: p.current_frame,
                    total_frames: p.total_frames,
                    fps: p.fps,
                    eta_seconds: p.eta_seconds,
                },
            ),
        }
    }

    /// The process could not be started. A job not yet terminal becomes
    /// `Failed` and the error event is returned; a job cancelled meanwhile
    /// stays cancelled and nothing is announced.
    pub fn on_spawn_failed<P>(&self, registry: &mut JobRegistry<P>, error: &str) -> (r: Option<ExportErrorEvent>)
        requires
            old(registry).wf(),
        ensures
            final(registry).wf(),
            old(registry)@.contains_key(self.job_id@) && !is_terminal(old(registry)@[self.job_id@].status) ==> final(registry)@
                == old(registry)@.insert(
                self.job_id@,
                JobView { output_path: old(registry)@[self.job_id@].output_path, status: ExportStatus::Failed, process: None },
            ) && (r matches Some(e) && e.job_id@ == self.job_id@ && e.error@ == spawn_failure_text(error@)),
            !(old(registry)@.contains_key(self.job_id@) && !is_terminal(old(registry)@[self.job_id@].status)) ==> r is None
                && final(registry)@ == old(registry)@,
    {
        match registry.finish(&self.job_id, JobEvent::SpawnFailed) {
            None => None,
            Some(_) => {
                let mut text = String::from_str("Failed to spawn FFmpeg process: ");
                text.append(error);
                Some(ExportErrorEvent { job_id: self.job_id.clone(), error: text })
            },
        }
    }

    /// Whether the job's output file is to be deleted once its process is
    /// gone: the job failed or was cancelled, so the file is partial.
    pub fn discard_output<P>(&self, registry: &JobRegistry<P>) -> (r: bool)
        requires
            registry.wf(),
        ensures
            r == (registry@.contains_key(self.job_id@) && (registry@[self.job_id@].status == ExportStatus::Failed
                || registry@[self.job_id@].status == ExportStatus::Cancelled)),
    {
        match registry.status(&self.job_id) {
            Some(s) => s == ExportStatus::Failed || s == ExportStatus::Cancelled,
            None => false,
        }
    }

    /// The process exited. A job not yet terminal becomes `Complete` on
    /// success or `Failed` otherwise, and the event to publish is returned;
    /// a job cancelled meanwhile stays cancelled and nothing is announced.
    pub fn on_exit<P>(&self, registry: &mut JobRegistry<P>, success: bool, status: &str) -> (r: Option<JobOutcome>)
        requires
            old(registry).wf(),
        ensures
            final(registry).wf(),
            old(registry)@.contains_key(self.job_id@) && !is_terminal(old(registry)@[self.job_id@].status) ==> final(registry)@
                == old(registry)@.insert(
                self.job_id@,
                JobView {
                    output_path: old(registry)@[self.job_id@].output_path,
                    status: next_status(old(registry)@[self.job_id@].status, JobEvent::Exited { success }),
                    process: None,
                },
            ),
            old(registry)@.contains_key(self.job_id@) && !is_terminal(old(registry)@[self.job_id@].status) && success ==> (r matches Some(
                JobOutcome::Complete(e),
            ) && e.job_id@ == self.job_id@ && e.output_path@ == self.output_path@),
            old(registry)@.contains_key(self.job_id@) && !is_terminal(old(registry)@[self.job_id@].status) && !success ==> (r matches Some(
                JobOutcome::Failed(e),
            ) && e.job_id@ == self.job_id@ && e.error@ == failure_text(status@, self.recent@)),
            !(old(registry)@.contains_key(self.job_id@) && !is_terminal(old(registry)@[self.job_id@].status)) ==> r is None
                && final(registry)@ == old(registry)@,
    {
        match registry.finish(&self.job_id, JobEvent::Exited { success }) {
            None => None,
            Some(s) => {
                if s == ExportStatus::Complete {
                    Some(JobOutcome::Complete(ExportCompleteEvent { job_id: self.job_id.clone(), output_path: self.output_path.clone() }))
                } else {
                    Some(JobOutcome::Failed(ExportErrorEvent { job_id: self.job_id.clone(), error: failure_message(status, &self.recent) }))
                }
            },
        }
    }
}

} // verus!
