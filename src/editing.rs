//! Editing a project's timeline: adding and adjusting clips, adding tracks.

use crate::clock::now_millis;
use crate::media::MediaClip;
use crate::project::{default_settings, ExportSettings};
use crate::text::{lowercase_of, to_lowercase};
use crate::timeline::{TimelineClip, Track, TrackType};
use vstd::prelude::*;

verus! {

/// An edited video project.
#[derive(Debug, Clone)]
pub struct Project {
    pub id: String,
    pub name: String,
    /// Creation time, in milliseconds since the Unix epoch.
    pub created_at: i64,
    /// Last modification time, in milliseconds since the Unix epoch.
    pub modified_at: i64,
    pub file_path: Option<String>,
    pub version: String,
    pub tracks: Vec<Track>,
    pub media_library: Vec<MediaClip>,
    pub export_settings: ExportSettings,
    pub auto_save_enabled: bool,
    pub last_auto_save: Option<i64>,
}

/// Changes asked for a timeline clip; `None` leaves a field as it is.
#[derive(Debug, Clone)]
pub struct TimelineClipUpdates {
    pub start_time: Option<i64>,
    pub in_point: Option<i64>,
    pub out_point: Option<i64>,
    pub track_id: Option<String>,
}

/// The two halves of a split clip.
#[derive(Debug, Clone)]
pub struct SplitResult {
    pub clip_before: TimelineClip,
    pub clip_after: TimelineClip,
}

/// Everything of the project but its tracks and modification time is as before.
pub open spec fn same_but_tracks(a: Project, b: Project) -> bool {
    &&& a.id == b.id
    &&& a.name == b.name
    &&& a.created_at == b.created_at
    &&& a.file_path == b.file_path
    &&& a.version == b.version
    &&& a.media_library == b.media_library
    &&& a.export_settings == b.export_settings
    &&& a.auto_save_enabled == b.auto_save_enabled
    &&& a.last_auto_save == b.last_auto_save
}

impl Project {
    /// A new project with one empty main track, `Main Track`.
    pub fn new(name: String) -> (r: Project)
        ensures
            r.id@.len() == 36,
            r.name == name,
            r.file_path is None,
            r.version@ == "1.0.0"@,
            r.tracks@.len() == 1,
            r.tracks@[0].name@ == "Main Track"@,
            r.tracks@[0].track_type == TrackType::Main,
            r.tracks@[0].clips@.len() == 0,
            r.media_library@.len() == 0,
            r.export_settings == default_settings(),
            r.auto_save_enabled,
            r.last_auto_save is None,
    {
        let now = now_millis();
        let mut tracks: Vec<Track> = Vec::new();
        tracks.push(Track::new(String::from_str("Main Track"), TrackType::Main));
        Project {
            id: crate::ids::new_id(),
            name,
            created_at: now,
            modified_at: now,
            file_path: None,
            version: String::from_str("1.0.0"),
            tracks,
            media_library: Vec::new(),
            export_settings: ExportSettings::default(),
            auto_save_enabled: true,
            last_auto_save: None,
        }
    }

    /// Records that the project changed now.
    pub fn mark_modified(&mut self)
        ensures
            same_but_tracks(*old(self), *final(self)),
            final(self).tracks == old(self).tracks,
    {
        self.modified_at = now_millis();
    }
}

fn clip_copy(c: &TimelineClip) -> (r: TimelineClip)
    ensures
        r == *c,
{
    TimelineClip {
        id: c.id.clone(),
        media_clip_id: c.media_clip_id.clone(),
        track_id: c.track_id.clone(),
        start_time: c.start_time,
        in_point: c.in_point,
        out_point: c.out_point,
        layer_order: c.layer_order,
    }
}

/// The tracks are the same but for the clips of track `t`.
pub open spec fn tracks_changed_at(a: Seq<Track>, b: Seq<Track>, t: int) -> bool {
    &&& a.len() == b.len()
    &&& 0 <= t < a.len()
    &&& forall|u: int| 0 <= u < a.len() && u != t ==> a[u] == b[u]
    &&& a[t].id == b[t].id && a[t].name == b[t].name && a[t].track_type == b[t].track_type && a[t].order == b[t].order
    &&& a[t].visible == b[t].visible && a[t].locked == b[t].locked && a[t].volume == b[t].volume
}

/// Index of the first track with the given id.
pub open spec fn is_first_track(tracks: Seq<Track>, id: Seq<char>, t: int) -> bool {
    0 <= t < tracks.len() && tracks[t].id@ == id && forall|u: int| 0 <= u < t ==> (#[trigger] tracks[u]).id@ != id
}

pub open spec fn has_track(tracks: Seq<Track>, id: Seq<char>) -> bool {
    exists|t: int| 0 <= t < tracks.len() && (#[trigger] tracks[t]).id@ == id
}

pub open spec fn has_media(library: Seq<MediaClip>, id: Seq<char>) -> bool {
    exists|m: int| 0 <= m < library.len() && (#[trigger] library[m]).id@ == id
}

fn find_track(tracks: &Vec<Track>, id: &String) -> (r: Option<usize>)
    ensures
        r is None <==> !has_track(tracks@, id@),
        r matches Some(t) ==> is_first_track(tracks@, id@, t as int),
{
    let mut t: usize = 0;
    while t < tracks.len()
        invariant
            t <= tracks@.len(),
            forall|u: int| 0 <= u < t ==> (#[trigger] tracks@[u]).id@ != id@,
        decreases tracks@.len() - t,
    {
        if tracks[t].id == *id {
            return Some(t);
        }
        t = t + 1;
    }
    None
}

fn media_exists(library: &[MediaClip], id: &String) -> (r: bool)
    ensures
        r == has_media(library@, id@),
{
    let mut m: usize = 0;
    while m < library.len()
        invariant
            m <= library@.len(),
            forall|u: int| 0 <= u < m ==> (#[trigger] library@[u]).id@ != id@,
        decreases library@.len() - m,
    {
        if library[m].id == *id {
            return true;
        }
        m = m + 1;
    }
    false
}

/// The first problem with adding a clip, if any.
pub open spec fn add_clip_problem(
    tracks: Seq<Track>,
    library: Seq<MediaClip>,
    media_clip_id: Seq<char>,
    track_id: Seq<char>,
    start_time: int,
    in_point: int,
    out_point: int,
) -> Option<Seq<char>> {
    if in_point >= out_point {
        Some("in_point must be less than out_point"@)
    } else if start_time < 0 {
        Some("start_time must be non-negative"@)
    } else if !has_media(library, media_clip_id) {
        Some("Media clip not found: "@ + media_clip_id)
    } else if !has_track(tracks, track_id) {
        Some("Track not found: "@ + track_id)
    } else {
        None
    }
}

/// Places a new clip of a library item on a track: the trim window must be
/// non-empty, the start not negative, and the media and the track must
/// exist. The clip is appended to the first track with that id.
pub fn add_clip_to_timeline(
    project: &mut Project,
    library: &[MediaClip],
    media_clip_id: String,
    track_id: String,
    start_time: i64,
    in_point: i64,
    out_point: i64,
) -> (r: Result<TimelineClip, String>)
    ensures
        r is Ok <==> add_clip_problem(old(project).tracks@, library@, media_clip_id@, track_id@, start_time as int, in_point as int, out_point as int) is None,
        r matches Err(e) ==> Some(e@) == add_clip_problem(old(project).tracks@, library@, media_clip_id@, track_id@, start_time as int, in_point as int, out_point as int)
            && *final(project) == *old(project),
        r matches Ok(c) ==> c.media_clip_id@ == media_clip_id@ && c.track_id@ == track_id@ && c.start_time == start_time
            && c.in_point == in_point && c.out_point == out_point && exists|t: int|
            is_first_track(old(project).tracks@, track_id@, t) && tracks_changed_at(old(project).tracks@, final(project).tracks@, t)
                && final(project).tracks@[t].clips@ == old(project).tracks@[t].clips@.push(c),
        r is Ok ==> same_but_tracks(*old(project), *final(project)),
{
    if in_point >= out_point {
        return Err(String::from_str("in_point must be less than out_point"));
    }
    if start_time < 0 {
        return Err(String::from_str("start_time must be non-negative"));
    }
    if !media_exists(library, &media_clip_id) {
        let mut e = String::from_str("Media clip not found: ");
        e.append(media_clip_id.as_str());
        return Err(e);
    }
    let t = match find_track(&project.tracks, &track_id) {
        None => {
            let mut e = String::from_str("Track not found: ");
            e.append(track_id.as_str());
            return Err(e);
        },
        Some(t) => t,
    };
    let clip = TimelineClip::new(media_clip_id, track_id, start_time, in_point, out_point);
    let ghost before = project.tracks@;
    let mut track = project.tracks.remove(t);
    track.clips.push(clip_copy(&clip));
    project.tracks.insert(t, track);
    assert(project.tracks@ =~= before.update(t as int, track));
    project.mark_modified();
    Ok(clip)
}

/// Clip `c` of track `t` is the first clip with this id, tracks and clips
/// taken in order.
pub open spec fn is_first_clip(tracks: Seq<Track>, id: Seq<char>, t: int, c: int) -> bool {
    &&& 0 <= t < tracks.len()
    &&& 0 <= c < tracks[t].clips@.len()
    &&& tracks[t].clips@[c].id@ == id
    &&& forall|u: int, k: int| 0 <= u < t && 0 <= k < tracks[u].clips@.len() ==> (#[trigger] tracks[u].clips@[k]).id@ != id
    &&& forall|k: int| 0 <= k < c ==> (#[trigger] tracks[t].clips@[k]).id@ != id
}

pub open spec fn has_clip(tracks: Seq<Track>, id: Seq<char>) -> bool {
    exists|t: int, c: int| 0 <= t < tracks.len() && 0 <= c < tracks[t].clips@.len() && (#[trigger] tracks[t].clips@[c]).id@ == id
}

/// A clip after the requested changes. A new start must not be negative;
/// a new in-point must not be negative and must stay before the out-point;
/// a new out-point must stay after the in-point. Changes that break these
/// are ignored; the others are applied in that order.
pub open spec fn updated_clip(c: TimelineClip, u: TimelineClipUpdates) -> TimelineClip {
    let c1 = match u.start_time {
        Some(s) => if s >= 0 { TimelineClip { start_time: s, ..c } } else { c },
        None => c,
    };
    let c2 = match u.in_point {
        Some(i) => if i >= 0 && i < c1.out_point { TimelineClip { in_point: i, ..c1 } } else { c1 },
        None => c1,
    };
    let c3 = match u.out_point {
        Some(o) => if o > c2.in_point { TimelineClip { out_point: o, ..c2 } } else { c2 },
        None => c2,
    };
    match u.track_id {
        Some(t) => TimelineClip { track_id: t, ..c3 },
        None => c3,
    }
}

fn find_clip(tracks: &Vec<Track>, id: &String) -> (r: Option<(usize, usize)>)
    ensures
        r is None <==> !has_clip(tracks@, id@),
        r matches Some((t, c)) ==> is_first_clip(tracks@, id@, t as int, c as int),
{
    let mut t: usize = 0;
    while t < tracks.len()
        invariant
            t <= tracks@.len(),
            forall|u: int, k: int| 0 <= u < t && 0 <= k < tracks@[u].clips@.len() ==> (#[trigger] tracks@[u].clips@[k]).id@ != id@,
        decreases tracks@.len() - t,
    {
        let clips = &tracks[t].clips;
        let mut c: usize = 0;
        while c < clips.len()
            invariant
                t < tracks@.len(),
                c <= clips@.len(),
                clips@ == tracks@[t as int].clips@,
                forall|u: int, k: int| 0 <= u < t && 0 <= k < tracks@[u].clips@.len() ==> (#[trigger] tracks@[u].clips@[k]).id@ != id@,
                forall|k: int| 0 <= k < c ==> (#[trigger] clips@[k]).id@ != id@,
            decreases clips@.len() - c,
        {
            if clips[c].id == *id {
                return Some((t, c));
            }
            c = c + 1;
        }
        t = t + 1;
    }
    None
}

/// Applies `updates` to the first clip with id `clip_id` and returns the
/// clip as it is afterwards; an unknown id is an error.
pub fn update_timeline_clip(project: &mut Project, clip_id: &String, updates: TimelineClipUpdates) -> (r: Result<TimelineClip, String>)
    ensures
        r is Err <==> !has_clip(old(project).tracks@, clip_id@),
        r matches Err(e) ==> e@ == "Clip not found: "@ + clip_id@ && *final(project) == *old(project),
        r matches Ok(c) ==> exists|t: int, k: int|
            is_first_clip(old(project).tracks@, clip_id@, t, k) && c == updated_clip(old(project).tracks@[t].clips@[k], updates)
                && tracks_changed_at(old(project).tracks@, final(project).tracks@, t)
                && final(project).tracks@[t].clips@ == old(project).tracks@[t].clips@.update(k, c),
        r is Ok ==> same_but_tracks(*old(project), *final(project)),
{
    let (t, k) = match find_clip(&project.tracks, clip_id) {
        None => {
            let mut e = String::from_str("Clip not found: ");
            e.append(clip_id.as_str());
            return Err(e);
        },
        Some(loc) => loc,
    };
    let ghost before = project.tracks@;
    let mut track = project.tracks.remove(t);
    let ghost clips_before = track.clips@;
    let mut clip = track.clips.remove(k);
    let ghost before_update = clip;
    match updates.start_time {
        Some(s) => {
            if s >= 0 {
                clip.start_time = s;
            }
        },
        None => {},
    }
    match updates.in_point {
        Some(i) => {
            if i >= 0 && i < clip.out_point {
                clip.in_point = i;
            }
        },
        None => {},
    }
    match updates.out_point {
        Some(o) => {
            if o > clip.in_point {
                clip.out_point = o;
            }
        },
        None => {},
    }
    match updates.track_id {
        Some(tid) => {
            clip.track_id = tid;
        },
        None => {},
    }
    assert(clip == updated_clip(before_update, updates));
    let result = clip_copy(&clip);
    track.clips.insert(k, clip);
    assert(track.clips@ =~= clips_before.update(k as int, result));
    project.tracks.insert(t, track);
    assert(project.tracks@ =~= before.update(t as int, track));
    project.mark_modified();
    Ok(result)
}

/// Two tracks with the same fields and clips.
pub open spec fn same_track(a: Track, b: Track) -> bool {
    &&& a.id == b.id && a.name == b.name && a.track_type == b.track_type && a.order == b.order
    &&& a.clips@ == b.clips@ && a.visible == b.visible && a.locked == b.locked && a.volume == b.volume
}

/// The track type a name stands for, compared in lowercase.
pub open spec fn track_type_named(lower: Seq<char>) -> Option<TrackType> {
    if lower == "main"@ {
        Some(TrackType::Main)
    } else if lower == "overlay"@ {
        Some(TrackType::Overlay)
    } else {
        None
    }
}

/// The track type of a lowercase name: `main` or `overlay`.
pub fn track_type_from_lowercase(lower: &str) -> (r: Option<TrackType>)
    ensures
        r == track_type_named(lower@),
{
    let name = String::from_str(lower);
    if name == String::from_str("main") {
        Some(TrackType::Main)
    } else if name == String::from_str("overlay") {
        Some(TrackType::Overlay)
    } else {
        None
    }
}

/// Adds a new empty track named `name` of type `track_type` (`main` or
/// `overlay`, in any case) at the end of the project's tracks, and
/// returns it.
pub fn create_track(project: &mut Project, name: String, track_type: &str) -> (r: Result<Track, String>)
    ensures
        r is Err <==> track_type_named(lowercase_of(track_type@)) is None,
        r matches Err(e) ==> e@ == "Invalid track type: "@ + track_type@ && *final(project) == *old(project),
        r matches Ok(t) ==> Some(t.track_type) == track_type_named(lowercase_of(track_type@)) && t.name == name
            && t.clips@.len() == 0 && (old(project).tracks@.len() <= u32::MAX ==> t.order == old(project).tracks@.len())
            && final(project).tracks@.len() == old(project).tracks@.len() + 1
            && final(project).tracks@.subrange(0, old(project).tracks@.len() as int) == old(project).tracks@
            && same_track(final(project).tracks@.last(), t),
        r is Ok ==> same_but_tracks(*old(project), *final(project)),
{
    let lower = to_lowercase(track_type);
    let parsed = match track_type_from_lowercase(lower.as_str()) {
        Some(t) => t,
        None => {
            let mut e = String::from_str("Invalid track type: ");
            e.append(track_type);
            return Err(e);
        },
    };
    let mut track = Track::new(name, parsed);
    if project.tracks.len() > u32::MAX as usize {
        track.order = u32::MAX;
    } else {
        track.order = project.tracks.len() as u32;
    }
    let result = Track {
        id: track.id.clone(),
        name: track.name.clone(),
        track_type: track.track_type,
        order: track.order,
        clips: Vec::new(),
        visible: track.visible,
        locked: track.locked,
        volume: track.volume,
    };
    assert(result.clips@ =~= track.clips@);
    let ghost before = project.tracks@;
    project.tracks.push(track);
    assert(project.tracks@.subrange(0, before.len() as int) =~= before);
    project.mark_modified();
    Ok(result)
}

} // verus!
