//! The Windows recording back end.

use crate::recording::{PermissionResult, RecordingSources, ScreenSource, WindowSource, RecordingSource};
use crate::platform::{grant_permissions, granted_for, known_permission, ActiveRecordings};
use crate::command::{arg_views, push_arg, push_owned_arg};
use crate::captions::{line_at, line_string, next_newline};
use crate::text::{chars_of, contains_name, contains_text, decimal, find_text, first_index_of, index_of, push_decimal, string_views};
use vstd::prelude::*;

verus! {

/// Grants the requested permissions: Windows asks the user itself when a
/// capture device is first opened. An unknown name is an error.
pub fn request_permissions(permissions: Vec<String>) -> (r: Result<PermissionResult, String>)
    ensures
        r is Ok <==> forall|i: int| 0 <= i < permissions@.len() ==> known_permission(#[trigger] permissions@[i]@),
        r matches Ok(res) ==> res.granted == granted_for(permissions@.map_values(|s: String| s@)),
        r matches Err(e) ==> exists|i: int|
            0 <= i < permissions@.len() && !known_permission(permissions@[i]@)
                && (forall|j: int| 0 <= j < i ==> known_permission(#[trigger] permissions@[j]@))
                && e@ == "Unknown permission: "@ + permissions@[i]@,
{
    grant_permissions(&permissions)
}

} // verus!

verus! {

/// The capture screens: the whole desktop.
pub fn list_screens() -> (r: Result<Vec<ScreenSource>, String>)
    ensures
        r matches Ok(v) && v@.len() == 1 && v@[0].id@ == "desktop"@ && v@[0].name@ == "Primary Display"@
            && v@[0].resolution@ == "1920x1080"@,
{
    let mut v: Vec<ScreenSource> = Vec::new();
    v.push(
        ScreenSource {
            id: String::from_str("desktop"),
            name: String::from_str("Primary Display"),
            resolution: String::from_str("1920x1080"),
        },
    );
    Ok(v)
}

/// Individual windows are not offered as sources.
pub fn list_windows() -> (r: Result<Vec<WindowSource>, String>)
    ensures
        r matches Ok(v) && v@.len() == 0,
{
    Ok(Vec::new())
}

/// All sources, given the cameras that the device listing named.
pub fn list_sources(cameras: Vec<RecordingSource>) -> (r: Result<RecordingSources, String>)
    ensures
        r matches Ok(s) && s.screens@.len() == 1 && s.screens@[0].id@ == "desktop"@ && s.windows@.len() == 0
            && s.cameras@ == cameras@ && s.microphones@.len() == 0,
{
    let screens = match list_screens() {
        Ok(s) => s,
        Err(e) => {
            return Err(e);
        },
    };
    let windows = match list_windows() {
        Ok(w) => w,
        Err(e) => {
            return Err(e);
        },
    };
    Ok(RecordingSources { screens, windows, cameras, microphones: Vec::new() })
}

} // verus!

verus! {

/// The encoder arguments of a capture: the desktop through GDI and a
/// camera and the microphone through DirectShow, encoded as fast H.264
/// with AAC audio when any audio is asked for, scaled unless the
/// resolution is `source`, into `output_path`.
pub open spec fn capture_args(
    output_path: Seq<char>,
    screen: bool,
    camera: Option<Seq<char>>,
    audio: Seq<Seq<char>>,
    resolution: Seq<char>,
    fps: u32,
) -> Seq<Seq<char>> {
    seq!["-y"@]
        + (if screen { seq!["-f"@, "gdigrab"@, "-framerate"@, decimal(fps as nat), "-i"@, "desktop"@] } else { Seq::empty() })
        + (match camera {
        Some(c) => seq!["-f"@, "dshow"@, "-i"@, "video="@ + c],
        None => Seq::empty(),
    })
        + (if audio.contains("microphone"@) { seq!["-f"@, "dshow"@, "-i"@, "audio=Microphone"@] } else { Seq::empty() })
        + seq!["-c:v"@, "libx264"@, "-preset"@, "ultrafast"@, "-crf"@, "23"@, "-pix_fmt"@, "yuv420p"@]
        + (if audio.len() > 0 { seq!["-c:a"@, "aac"@, "-b:a"@, "192k"@] } else { Seq::empty() })
        + (if resolution != "source"@ { seq!["-s"@, resolution] } else { Seq::empty() })
        + seq!["-movflags"@, "+faststart"@, output_path]
}

fn push_inputs(args: &mut Vec<String>, screen: bool, camera_source: &Option<String>, audio_sources: &Vec<String>, fps: u32)
    ensures
        arg_views(final(args)@) == arg_views(old(args)@)
            + (if screen { seq!["-f"@, "gdigrab"@, "-framerate"@, decimal(fps as nat), "-i"@, "desktop"@] } else { Seq::empty() })
            + (match camera_source {
            Some(c) => seq!["-f"@, "dshow"@, "-i"@, "video="@ + c@],
            None => Seq::empty(),
        })
            + (if string_views(audio_sources@).contains("microphone"@) { seq!["-f"@, "dshow"@, "-i"@, "audio=Microphone"@] } else { Seq::empty() }),
{
    let ghost a0 = arg_views(args@);
    if screen {
        push_arg(args, "-f");
        push_arg(args, "gdigrab");
        push_arg(args, "-framerate");
        let mut f = String::new();
        push_decimal(&mut f, fps as u64);
        assert(f@ =~= decimal(fps as nat));
        push_owned_arg(args, f);
        push_arg(args, "-i");
        push_arg(args, "desktop");
    }
    let ghost a1 = arg_views(args@);
    assert(a1 =~= a0 + (if screen { seq!["-f"@, "gdigrab"@, "-framerate"@, decimal(fps as nat), "-i"@, "desktop"@] } else { Seq::empty() }));
    match camera_source {
        Some(c) => {
            push_arg(args, "-f");
            push_arg(args, "dshow");
            push_arg(args, "-i");
            let mut v = String::from_str("video=");
            v.append(c.as_str());
            push_owned_arg(args, v);
        },
        None => {},
    }
    let ghost a2 = arg_views(args@);
    assert(a2 =~= a1 + (match camera_source {
        Some(c) => seq!["-f"@, "dshow"@, "-i"@, "video="@ + c@],
        None => Seq::empty(),
    }));
    if contains_name(audio_sources, "microphone") {
        push_arg(args, "-f");
        push_arg(args, "dshow");
        push_arg(args, "-i");
        push_arg(args, "audio=Microphone");
    }
    assert(arg_views(args@) =~= a2 + (if string_views(audio_sources@).contains("microphone"@) { seq!["-f"@, "dshow"@, "-i"@, "audio=Microphone"@] } else { Seq::empty() }));
}

fn push_encoding(args: &mut Vec<String>, has_audio: bool, resolution: &str, output_path: &str)
    ensures
        arg_views(final(args)@) == arg_views(old(args)@)
            + seq!["-c:v"@, "libx264"@, "-preset"@, "ultrafast"@, "-crf"@, "23"@, "-pix_fmt"@, "yuv420p"@]
            + (if has_audio { seq!["-c:a"@, "aac"@, "-b:a"@, "192k"@] } else { Seq::empty() })
            + (if resolution@ != "source"@ { seq!["-s"@, resolution@] } else { Seq::empty() })
            + seq!["-movflags"@, "+faststart"@, output_path@],
{
    let ghost a0 = arg_views(args@);
    push_arg(args, "-c:v");
    push_arg(args, "libx264");
    push_arg(args, "-preset");
    push_arg(args, "ultrafast");
    push_arg(args, "-crf");
    push_arg(args, "23");
    push_arg(args, "-pix_fmt");
    push_arg(args, "yuv420p");
    let ghost a1 = arg_views(args@);
    assert(a1 =~= a0 + seq!["-c:v"@, "libx264"@, "-preset"@, "ultrafast"@, "-crf"@, "23"@, "-pix_fmt"@, "yuv420p"@]);
    if has_audio {
        push_arg(args, "-c:a");
        push_arg(args, "aac");
        push_arg(args, "-b:a");
        push_arg(args, "192k");
    }
    let ghost a2 = arg_views(args@);
    assert(a2 =~= a1 + (if has_audio { seq!["-c:a"@, "aac"@, "-b:a"@, "192k"@] } else { Seq::empty() }));
    let source = String::from_str("source");
    let res = String::from_str(resolution);
    if !(res == source) {
        push_arg(args, "-s");
        push_arg(args, resolution);
    }
    let ghost a3 = arg_views(args@);
    assert(a3 =~= a2 + (if resolution@ != "source"@ { seq!["-s"@, resolution@] } else { Seq::empty() }));
    push_arg(args, "-movflags");
    push_arg(args, "+faststart");
    push_arg(args, output_path);
    assert(arg_views(args@) =~= a3 + seq!["-movflags"@, "+faststart"@, output_path@]);
}

/// The encoder arguments of a capture, for the caller to spawn.
pub fn recording_args(
    output_path: &str,
    screen_source: &Option<String>,
    camera_source: &Option<String>,
    audio_sources: &Vec<String>,
    resolution: &str,
    fps: u32,
) -> (r: Vec<String>)
    ensures
        arg_views(r@) == capture_args(
            output_path@,
            screen_source is Some,
            match camera_source {
                Some(c) => Some(c@),
                None => None,
            },
            string_views(audio_sources@),
            resolution@,
            fps,
        ),
{
    let mut args: Vec<String> = Vec::new();
    push_arg(&mut args, "-y");
    let ghost a0 = arg_views(args@);
    push_inputs(&mut args, screen_source.is_some(), camera_source, audio_sources, fps);
    push_encoding(&mut args, audio_sources.len() > 0, resolution, output_path);
    assert(string_views(audio_sources@).len() == audio_sources@.len());
    assert(arg_views(args@) =~= capture_args(
        output_path@,
        screen_source is Some,
        match camera_source {
            Some(c) => Some(c@),
            None => None,
        },
        string_views(audio_sources@),
        resolution@,
        fps,
    ));
    args
}

} // verus!

verus! {

/// Whether a recording is in progress.
pub fn is_recording_active<P>(active: &ActiveRecordings<P>, session_id: &str) -> (r: bool)
    requires
        active.wf(),
    ensures
        r == active@.contains_key(session_id@),
{
    active.contains(session_id)
}

} // verus!

verus! {

/// The camera a DirectShow listing line names: a line mentioning
/// `(video)` names the device between its first two double quotes.
pub open spec fn camera_of_line(l: Seq<char>) -> Option<Seq<char>> {
    if contains_text(l, "(video)"@) {
        match first_index_of(l, "\""@, 0) {
            Some(q1) => match first_index_of(l, "\""@, q1 + 1) {
                Some(q2) => Some(l.subrange(q1 + 1, q2)),
                None => None,
            },
            None => None,
        }
    } else {
        None
    }
}

/// The cameras named by the lines of `s` from position `i` on.
pub open spec fn cameras_from(s: Seq<char>, i: int) -> Seq<Seq<char>>
    decreases s.len() - i,
{
    if i < 0 || i >= s.len() {
        Seq::empty()
    } else {
        let nl = next_newline(s, i, s.len() as int);
        let here: Seq<Seq<char>> = match camera_of_line(line_at(s, i)) {
            Some(n) => seq![n],
            None => Seq::empty(),
        };
        if nl >= s.len() || nl < i {
            here
        } else {
            here + cameras_from(s, nl + 1)
        }
    }
}

/// The ids (which are the names) of a list of sources.
pub open spec fn source_ids(v: Seq<RecordingSource>) -> Seq<Seq<char>> {
    v.map_values(|r: RecordingSource| r.id@)
}

fn camera_in_line(line: &str) -> (r: Option<String>)
    ensures
        r is None <==> camera_of_line(line@) is None,
        r matches Some(n) ==> camera_of_line(line@) == Some(n@),
{
    proof {
        reveal_strlit("(video)");
        reveal_strlit("\"");
    }
    if !find_text(line, "(video)") {
        return None;
    }
    let n = line.unicode_len();
    let q1 = match index_of(line, "\"", 0) {
        None => {
            return None;
        },
        Some(q) => q,
    };
    let q2 = match index_of(line, "\"", q1 + 1) {
        None => {
            return None;
        },
        Some(q) => q,
    };
    Some(String::from_str(line.substring_char(q1 + 1, q2)))
}

/// The cameras of a DirectShow device listing, each with its name as id.
pub fn list_cameras(listing: &str) -> (r: Vec<RecordingSource>)
    ensures
        source_ids(r@) == cameras_from(listing@, 0),
        forall|i: int| 0 <= i < r@.len() ==> (#[trigger] r@[i]).name@ == r@[i].id@,
{
    let cs = chars_of(listing);
    let n = cs.len();
    let mut cameras: Vec<RecordingSource> = Vec::new();
    let mut i: usize = 0;
    while i < n
        invariant_except_break
            cameras_from(listing@, 0) == source_ids(cameras@) + cameras_from(cs@, i as int),
        invariant
            i <= n,
            n == cs@.len(),
            cs@ == listing@,
            forall|k: int| 0 <= k < cameras@.len() ==> (#[trigger] cameras@[k]).name@ == cameras@[k].id@,
        ensures
            cameras_from(listing@, 0) == source_ids(cameras@),
        decreases n - i,
    {
        let (line, nl) = line_string(&cs, i);
        let ghost before = cameras@;
        let ghost here: Seq<Seq<char>> = match camera_of_line(line_at(cs@, i as int)) {
            Some(x) => seq![x],
            None => Seq::empty(),
        };
        match camera_in_line(line.as_str()) {
            Some(name) => {
                let s = RecordingSource { id: name.clone(), name };
                cameras.push(s);
                assert(source_ids(cameras@) =~= source_ids(before) + here);
            },
            None => {
                assert(source_ids(cameras@) =~= source_ids(before) + here);
            },
        }
        if nl >= n {
            assert(cameras_from(cs@, i as int) == here);
            assert(source_ids(cameras@) =~= source_ids(before) + cameras_from(cs@, i as int));
            break;
        }
        assert(cameras_from(cs@, i as int) == here + cameras_from(cs@, nl + 1));
        assert(source_ids(before) + cameras_from(cs@, i as int) =~= source_ids(cameras@) + cameras_from(cs@, nl + 1));
        i = nl + 1;
    }
    cameras
}

} // verus!
