//! Timeline tracks and clips, and the duration calculator.
//!
//! All times are integers in microseconds.

use crate::ids::new_id;
use vstd::prelude::*;

verus! {

/// Role of a track on the timeline.
#[derive(Debug, Clone, Copy, PartialEq, Eq, Structural)]
pub enum TrackType {
    Main,
    Overlay,
}

/// A clip placed on a track: a trim window of a media item at a
/// position on the timeline.
#[derive(Debug, Clone)]
pub struct TimelineClip {
    pub id: String,
    pub media_clip_id: String,
    pub track_id: String,
    /// Position on the timeline, in microseconds.
    pub start_time: i64,
    /// Start of the trim window in the source media, in microseconds.
    pub in_point: i64,
    /// End of the trim window in the source media, in microseconds.
    pub out_point: i64,
    pub layer_order: u32,
}

/// An ordered collection of clips.
#[derive(Debug, Clone)]
pub struct Track {
    pub id: String,
    pub name: String,
    pub track_type: TrackType,
    pub order: u32,
    pub clips: Vec<TimelineClip>,
    pub visible: bool,
    pub locked: bool,
    /// Playback volume in percent (100 is unity gain).
    pub volume: u32,
}

/// Length of a clip's trim window.
pub open spec fn clip_duration(c: TimelineClip) -> int {
    c.out_point - c.in_point
}

/// Timeline position at which a clip ends.
pub open spec fn clip_end(c: TimelineClip) -> int {
    c.start_time + clip_duration(c)
}

/// The latest end over a sequence of clips, or 0 when that is larger
/// (in particular when there are no clips): a duration is never negative,
/// whatever the clips hold.
pub open spec fn track_duration(clips: Seq<TimelineClip>) -> int
    decreases clips.len(),
{
    if clips.len() == 0 {
        0
    } else {
        let rest = track_duration(clips.drop_last());
        let last = clip_end(clips.last());
        if rest >= last {
            rest
        } else {
            last
        }
    }
}

/// The longest track duration; 0 when there are no tracks.
pub open spec fn timeline_duration(tracks: Seq<Track>) -> int
    decreases tracks.len(),
{
    if tracks.len() == 0 {
        0
    } else {
        let rest = timeline_duration(tracks.drop_last());
        let last = track_duration(tracks.last().clips@);
        if rest >= last {
            rest
        } else {
            last
        }
    }
}

/// A track's duration is not negative, bounds every clip end, and when
/// positive is reached by one of them.
pub proof fn lemma_track_duration_is_max(clips: Seq<TimelineClip>)
    ensures
        track_duration(clips) >= 0,
        forall|i: int| 0 <= i < clips.len() ==> clip_end(#[trigger] clips[i]) <= track_duration(clips),
        track_duration(clips) > 0 ==> exists|i: int| 0 <= i < clips.len() && clip_end(clips[i]) == track_duration(clips),
    decreases clips.len(),
{
    if clips.len() > 0 {
        let init = clips.drop_last();
        lemma_track_duration_is_max(init);
        assert forall|i: int| 0 <= i < clips.len() implies clip_end(#[trigger] clips[i]) <= track_duration(clips) by {
            if i < clips.len() - 1 {
                assert(clips[i] == init[i]);
            }
        }
        if track_duration(clips) > 0 {
            if track_duration(init) >= clip_end(clips.last()) {
                let j = choose|j: int| 0 <= j < init.len() && clip_end(init[j]) == track_duration(init);
                assert(clips[j] == init[j]);
            } else {
                assert(clip_end(clips[clips.len() - 1]) == track_duration(clips));
            }
        }
    }
}

/// The timeline duration is not negative, bounds every track duration,
/// and when positive is reached by one of them.
pub proof fn lemma_timeline_duration_is_max(tracks: Seq<Track>)
    ensures
        timeline_duration(tracks) >= 0,
        forall|i: int| 0 <= i < tracks.len() ==> track_duration(#[trigger] tracks[i].clips@) <= timeline_duration(tracks),
        timeline_duration(tracks) > 0 ==> exists|i: int| 0 <= i < tracks.len() && track_duration(tracks[i].clips@) == timeline_duration(tracks),
    decreases tracks.len(),
{
    if tracks.len() > 0 {
        let init = tracks.drop_last();
        lemma_timeline_duration_is_max(init);
        assert forall|i: int| 0 <= i < tracks.len() implies track_duration(#[trigger] tracks[i].clips@) <= timeline_duration(tracks) by {
            if i < tracks.len() - 1 {
                assert(tracks[i] == init[i]);
            }
        }
        if timeline_duration(tracks) > 0 {
            if timeline_duration(init) >= track_duration(tracks.last().clips@) {
                let j = choose|j: int| 0 <= j < init.len() && track_duration(init[j].clips@) == timeline_duration(init);
                assert(tracks[j] == init[j]);
            } else {
                assert(track_duration(tracks[tracks.len() - 1].clips@) == timeline_duration(tracks));
            }
        }
    }
}

/// A timeline's duration is never negative, whatever its clips hold
/// (clips with the trim window reversed included).
pub proof fn lemma_timeline_duration_nonnegative(tracks: Seq<Track>)
    ensures
        timeline_duration(tracks) >= 0,
        forall|i: int| 0 <= i < tracks.len() ==> track_duration(#[trigger] tracks[i].clips@) >= 0,
{
    lemma_timeline_duration_is_max(tracks);
    assert forall|i: int| 0 <= i < tracks.len() implies track_duration(#[trigger] tracks[i].clips@) >= 0 by {
        lemma_track_duration_is_max(tracks[i].clips@);
    }
}

impl TimelineClip {
    /// A clip with a fresh id, layer 0.
    pub fn new(media_clip_id: String, track_id: String, start_time: i64, in_point: i64, out_point: i64) -> (r: TimelineClip)
        ensures
            r.media_clip_id == media_clip_id,
            r.track_id == track_id,
            r.start_time == start_time,
            r.in_point == in_point,
            r.out_point == out_point,
            r.layer_order == 0,
            r.id@.len() == 36,
    {
        TimelineClip { id: new_id(), media_clip_id, track_id, start_time, in_point, out_point, layer_order: 0 }
    }

    /// Length of the trim window.
    pub fn duration(&self) -> (r: i128)
        ensures
            r == clip_duration(*self),
    {
        self.out_point as i128 - self.in_point as i128
    }

    /// Timeline position at which the clip ends.
    pub fn end_time(&self) -> (r: i128)
        ensures
            r == clip_end(*self),
    {
        self.start_time as i128 + self.duration()
    }
}

impl Track {
    /// An empty, visible, unlocked track at unity volume with a fresh id.
    pub fn new(name: String, track_type: TrackType) -> (r: Track)
        ensures
            r.name == name,
            r.track_type == track_type,
            r.order == 0,
            r.clips@.len() == 0,
            r.visible,
            !r.locked,
            r.volume == 100,
            r.id@.len() == 36,
    {
        Track {
            id: new_id(),
            name,
            track_type,
            order: 0,
            clips: Vec::new(),
            visible: true,
            locked: false,
            volume: 100,
        }
    }

    /// The latest clip end on this track, or 0 when that is larger (as for
    /// a track without clips).
    pub fn duration(&self) -> (r: i128)
        ensures
            r == track_duration(self.clips@),
            r >= 0,
            forall|i: int| 0 <= i < self.clips@.len() ==> clip_end(#[trigger] self.clips@[i]) <= r,
            r > 0 ==> exists|i: int| 0 <= i < self.clips@.len() && clip_end(self.clips@[i]) == r,
    {
        proof {
            lemma_track_duration_is_max(self.clips@);
        }
        let n = self.clips.len();
        let mut best: i128 = 0;
        let mut i: usize = 0;
        assert(self.clips@.subrange(0, 0) =~= Seq::<TimelineClip>::empty());
        while i < n
            invariant
                i <= n,
                n == self.clips@.len(),
                best == track_duration(self.clips@.subrange(0, i as int)),
            decreases n - i,
        {
            let e = self.clips[i].end_time();
            proof {
                let s = self.clips@.subrange(0, i + 1);
                assert(s.drop_last() =~= self.clips@.subrange(0, i as int));
                assert(s.last() == self.clips@[i as int]);
            }
            if e > best {
                best = e;
            }
            i = i + 1;
        }
        assert(self.clips@.subrange(0, n as int) =~= self.clips@);
        best
    }

    /// Number of clips on the track.
    pub fn clip_count(&self) -> (r: usize)
        ensures
            r == self.clips@.len(),
    {
        self.clips.len()
    }
}

/// Total duration of a timeline: the longest of its tracks' durations, or
/// 0 for no tracks; never negative. Clips are taken as they are, without
/// validation.
pub fn calculate_timeline_duration(tracks: &[Track]) -> (r: i128)
    ensures
        r == timeline_duration(tracks@),
        r >= 0,
        forall|i: int| 0 <= i < tracks@.len() ==> track_duration(#[trigger] tracks@[i].clips@) <= r,
        r > 0 ==> exists|i: int| 0 <= i < tracks@.len() && track_duration(tracks@[i].clips@) == r,
{
    proof {
        lemma_timeline_duration_is_max(tracks@);
    }
    let n = tracks.len();
    let mut best: i128 = 0;
    let mut i: usize = 0;
    assert(tracks@.subrange(0, 0) =~= Seq::<Track>::empty());
    while i < n
        invariant
            i <= n,
            n == tracks@.len(),
            best == timeline_duration(tracks@.subrange(0, i as int)),
        decreases n - i,
    {
        let d = tracks[i].duration();
        proof {
            let s = tracks@.subrange(0, i + 1);
            assert(s.drop_last() =~= tracks@.subrange(0, i as int));
            assert(s.last() == tracks@[i as int]);
        }
        if d > best {
            best = d;
        }
        i = i + 1;
    }
    assert(tracks@.subrange(0, n as int) =~= tracks@);
    best
}

} // verus!
