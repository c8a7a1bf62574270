//! The macOS recording back end.

use crate::recording::{PermissionResult, RecordingSources, ScreenSource, WindowSource, RecordingSource};
use crate::platform::{grant_permissions, granted_for, known_permission, ActiveRecordings};
use crate::text::{contains_text, find_text};
use crate::command::{arg_views, push_arg, push_owned_arg};
use crate::captions::{line_at, line_string, next_newline, trim_text};
use crate::text::{chars_of, contains_name, decimal, first_index_of, index_of, push_decimal, string_views};
use vstd::prelude::*;

verus! {

/// Grants the requested permissions: macOS asks the user itself when
/// capture first starts. An unknown name is an error.
pub fn request_permissions(permissions: Vec<String>) -> (r: Result<PermissionResult, String>)
    ensures
        r is Ok <==> forall|i: int| 0 <= i < permissions@.len() ==> known_permission(#[trigger] permissions@[i]@),
        r matches Ok(res) ==> res.granted == granted_for(permissions@.map_values(|s: String| s@)),
        r matches Err(e) ==> exists|i: int|
            0 <= i < permissions@.len() && !known_permission(permissions@[i]@)
                && (forall|j: int| 0 <= j < i ==> known_permission(#[trigger] permissions@[j]@))
                && e@ == "Unknown permission: "@ + permissions@[i]@,
{
    grant_permissions(&permissions)
}

} // verus!

verus! {

/// The capture screens, once the display probe has run: the main display,
/// or an error when the probe failed.
pub fn list_screens(probe_succeeded: bool) -> (r: Result<Vec<ScreenSource>, String>)
    ensures
        !probe_succeeded ==> (r matches Err(e) && e@ == "Failed to get display information"@),
        probe_succeeded ==> (r matches Ok(v) && v@.len() == 1 && v@[0].id@ == "Capture screen 0"@
            && v@[0].name@ == "Main Display"@ && v@[0].resolution@ == "1920x1080"@),
{
    if !probe_succeeded {
        return Err(String::from_str("Failed to get display information"));
    }
    let mut v: Vec<ScreenSource> = Vec::new();
    v.push(
        ScreenSource {
            id: String::from_str("Capture screen 0"),
            name: String::from_str("Main Display"),
            resolution: String::from_str("1920x1080"),
        },
    );
    Ok(v)
}

/// Individual windows are not offered as sources.
pub fn list_windows() -> (r: Result<Vec<WindowSource>, String>)
    ensures
        r matches Ok(v) && v@.len() == 0,
{
    Ok(Vec::new())
}

/// Whether a camera report names a camera.
pub open spec fn report_has_camera(report: Seq<char>) -> bool {
    contains_text(report, "Camera"@) || contains_text(report, "FaceTime"@)
}

/// The cameras, from the camera probe's report: the built-in camera when
/// the report names one; none when the probe failed or names none.
pub fn list_cameras(probe_succeeded: bool, report: &str) -> (r: Result<Vec<RecordingSource>, String>)
    ensures
        probe_succeeded && report_has_camera(report@) ==> (r matches Ok(v) && v@.len() == 1 && v@[0].id@ == "0"@
            && v@[0].name@ == "FaceTime HD Camera"@),
        !(probe_succeeded && report_has_camera(report@)) ==> (r matches Ok(v) && v@.len() == 0),
{
    if !probe_succeeded {
        return Ok(Vec::new());
    }
    if find_text(report, "Camera") || find_text(report, "FaceTime") {
        let mut v: Vec<RecordingSource> = Vec::new();
        v.push(RecordingSource { id: String::from_str("0"), name: String::from_str("FaceTime HD Camera") });
        Ok(v)
    } else {
        Ok(Vec::new())
    }
}

/// All sources, given the probe results and the microphones that the
/// device listing named.
pub fn list_sources(
    display_probe_succeeded: bool,
    camera_probe_succeeded: bool,
    camera_report: &str,
    microphones: Vec<RecordingSource>,
) -> (r: Result<RecordingSources, String>)
    ensures
        !display_probe_succeeded ==> (r matches Err(e) && e@ == "Failed to get display information"@),
        display_probe_succeeded ==> (r matches Ok(s) && s.screens@.len() == 1 && s.windows@.len() == 0
            && s.cameras@.len() == (if camera_probe_succeeded && report_has_camera(camera_report@) { 1int } else { 0int })
            && s.microphones@ == microphones@),
{
    let screens = match list_screens(display_probe_succeeded) {
        Ok(s) => s,
        Err(e) => {
            return Err(e);
        },
    };
    let windows = match list_windows() {
        Ok(w) => w,
        Err(e) => {
            return Err(e);
        },
    };
    let cameras = match list_cameras(camera_probe_succeeded, camera_report) {
        Ok(c) => c,
        Err(e) => {
            return Err(e);
        },
    };
    Ok(RecordingSources { screens, windows, cameras, microphones })
}

} // verus!

verus! {

/// Picture-in-picture filter: the camera at 30 % size, slightly brightened,
/// in the bottom-left corner of the screen with a 20-pixel margin.
pub open spec fn overlay_filter() -> Seq<char> {
    "[1:v]scale=iw*0.30:ih*0.30,eq=brightness=0.06:contrast=1.1[cam];[0:v][cam]overlay=20:main_h-overlay_h-20"@
}

/// A resolution with exactly one `x`, such as `1920x1080`.
pub open spec fn has_one_x(resolution: Seq<char>) -> bool {
    match first_index_of(resolution, "x"@, 0) {
        Some(p) => first_index_of(resolution, "x"@, p + 1) is None,
        None => false,
    }
}

/// The screen input: with system audio asked for, audio is left out of it.
pub open spec fn screen_input(screen: Seq<char>, audio: Seq<Seq<char>>) -> Seq<char> {
    if audio.contains("system"@) {
        screen + ":none"@
    } else {
        screen
    }
}

/// The camera input: with the microphone asked for, the camera is captured
/// together with that microphone (device `0` unless one is named).
pub open spec fn camera_input(camera: Seq<char>, audio: Seq<Seq<char>>, microphone: Option<Seq<char>>) -> Seq<char> {
    if audio.contains("microphone"@) {
        camera + ":"@ + (match microphone {
            Some(m) => m,
            None => "0"@,
        })
    } else {
        camera
    }
}

/// The encoder arguments of a capture through AVFoundation: screen and
/// camera inputs (overlaid when both are there), a separate microphone
/// input when there is neither, fast H.264 and 48 kHz AAC when any audio
/// is asked for, and a size when one is given and nothing is overlaid.
pub open spec fn capture_args(
    output_path: Seq<char>,
    screen: Option<Seq<char>>,
    camera: Option<Seq<char>>,
    audio: Seq<Seq<char>>,
    microphone: Option<Seq<char>>,
    resolution: Seq<char>,
    fps: u32,
) -> Seq<Seq<char>> {
    seq!["-y"@]
        + (match screen {
        Some(s) => seq!["-f"@, "avfoundation"@, "-capture_cursor"@, "1"@, "-r"@, decimal(fps as nat), "-i"@, screen_input(s, audio)],
        None => Seq::empty(),
    })
        + (match camera {
        Some(c) => seq!["-f"@, "avfoundation"@, "-r"@, decimal(fps as nat), "-i"@, camera_input(c, audio, microphone)],
        None => Seq::empty(),
    })
        + (if audio.contains("microphone"@) && screen is None && camera is None {
        seq!["-f"@, "avfoundation"@, "-i"@, ":0"@]
    } else {
        Seq::empty()
    })
        + (if screen is Some && camera is Some { seq!["-filter_complex"@, overlay_filter()] } else { Seq::empty() })
        + seq!["-c:v"@, "libx264"@, "-preset"@, "ultrafast"@, "-crf"@, "23"@, "-pix_fmt"@, "yuv420p"@]
        + (if audio.len() > 0 { seq!["-c:a"@, "aac"@, "-b:a"@, "256k"@, "-ar"@, "48000"@] } else { Seq::empty() })
        + (if resolution != "source"@ && !(screen is Some && camera is Some) && has_one_x(resolution) {
        seq!["-s"@, resolution]
    } else {
        Seq::empty()
    })
        + seq!["-movflags"@, "+faststart"@, output_path]
}

pub open spec fn opt_view(o: Option<String>) -> Option<Seq<char>> {
    match o {
        Some(s) => Some(s@),
        None => None,
    }
}

fn fps_text(fps: u32) -> (r: String)
    ensures
        r@ == decimal(fps as nat),
{
    let mut f = String::new();
    push_decimal(&mut f, fps as u64);
    assert(f@ =~= decimal(fps as nat));
    f
}

fn push_screen(args: &mut Vec<String>, screen_source: &Option<String>, audio_sources: &Vec<String>, fps: u32)
    ensures
        arg_views(final(args)@) == arg_views(old(args)@) + (match screen_source {
            Some(s) => seq!["-f"@, "avfoundation"@, "-capture_cursor"@, "1"@, "-r"@, decimal(fps as nat), "-i"@, screen_input(s@, string_views(audio_sources@))],
            None => Seq::empty(),
        }),
{
    let ghost a0 = arg_views(args@);
    match screen_source {
        Some(s) => {
            push_arg(args, "-f");
            push_arg(args, "avfoundation");
            push_arg(args, "-capture_cursor");
            push_arg(args, "1");
            push_arg(args, "-r");
            push_owned_arg(args, fps_text(fps));
            push_arg(args, "-i");
            let mut input = String::from_str(s.as_str());
            if contains_name(audio_sources, "system") {
                input.append(":none");
            }
            push_owned_arg(args, input);
        },
        None => {},
    }
    assert(arg_views(args@) =~= a0 + (match screen_source {
        Some(s) => seq!["-f"@, "avfoundation"@, "-capture_cursor"@, "1"@, "-r"@, decimal(fps as nat), "-i"@, screen_input(s@, string_views(audio_sources@))],
        None => Seq::empty(),
    }));
}

fn push_camera(args: &mut Vec<String>, camera_source: &Option<String>, audio_sources: &Vec<String>, microphone_device_id: &Option<String>, fps: u32)
    ensures
        arg_views(final(args)@) == arg_views(old(args)@) + (match camera_source {
            Some(c) => seq!["-f"@, "avfoundation"@, "-r"@, decimal(fps as nat), "-i"@, camera_input(c@, string_views(audio_sources@), opt_view(*microphone_device_id))],
            None => Seq::empty(),
        }),
{
    let ghost a0 = arg_views(args@);
    match camera_source {
        Some(c) => {
            push_arg(args, "-f");
            push_arg(args, "avfoundation");
            push_arg(args, "-r");
            push_owned_arg(args, fps_text(fps));
            push_arg(args, "-i");
            let mut input = String::from_str(c.as_str());
            if contains_name(audio_sources, "microphone") {
                input.append(":");
                match microphone_device_id {
                    Some(m) => input.append(m.as_str()),
                    None => input.append("0"),
                }
            }
            push_owned_arg(args, input);
        },
        None => {},
    }
    assert(arg_views(args@) =~= a0 + (match camera_source {
        Some(c) => seq!["-f"@, "avfoundation"@, "-r"@, decimal(fps as nat), "-i"@, camera_input(c@, string_views(audio_sources@), opt_view(*microphone_device_id))],
        None => Seq::empty(),
    }));
}

fn push_mixing(args: &mut Vec<String>, screen: bool, camera: bool, microphone: bool, has_audio: bool)
    ensures
        arg_views(final(args)@) == arg_views(old(args)@)
            + (if microphone && !screen && !camera { seq!["-f"@, "avfoundation"@, "-i"@, ":0"@] } else { Seq::empty() })
            + (if screen && camera { seq!["-filter_complex"@, overlay_filter()] } else { Seq::empty() })
            + seq!["-c:v"@, "libx264"@, "-preset"@, "ultrafast"@, "-crf"@, "23"@, "-pix_fmt"@, "yuv420p"@]
            + (if has_audio { seq!["-c:a"@, "aac"@, "-b:a"@, "256k"@, "-ar"@, "48000"@] } else { Seq::empty() }),
{
    let ghost a0 = arg_views(args@);
    if microphone && !screen && !camera {
        push_arg(args, "-f");
        push_arg(args, "avfoundation");
        push_arg(args, "-i");
        push_arg(args, ":0");
    }
    let ghost a1 = arg_views(args@);
    assert(a1 =~= a0 + (if microphone && !screen && !camera { seq!["-f"@, "avfoundation"@, "-i"@, ":0"@] } else { Seq::empty() }));
    if screen && camera {
        push_arg(args, "-filter_complex");
        push_arg(args, "[1:v]scale=iw*0.30:ih*0.30,eq=brightness=0.06:contrast=1.1[cam];[0:v][cam]overlay=20:main_h-overlay_h-20");
    }
    let ghost a2 = arg_views(args@);
    assert(a2 =~= a1 + (if screen && camera { seq!["-filter_complex"@, overlay_filter()] } else { Seq::empty() }));
    push_arg(args, "-c:v");
    push_arg(args, "libx264");
    push_arg(args, "-preset");
    push_arg(args, "ultrafast");
    push_arg(args, "-crf");
    push_arg(args, "23");
    push_arg(args, "-pix_fmt");
    push_arg(args, "yuv420p");
    let ghost a3 = arg_views(args@);
    assert(a3 =~= a2 + seq!["-c:v"@, "libx264"@, "-preset"@, "ultrafast"@, "-crf"@, "23"@, "-pix_fmt"@, "yuv420p"@]);
    if has_audio {
        push_arg(args, "-c:a");
        push_arg(args, "aac");
        push_arg(args, "-b:a");
        push_arg(args, "256k");
        push_arg(args, "-ar");
        push_arg(args, "48000");
    }
    assert(arg_views(args@) =~= a3 + (if has_audio { seq!["-c:a"@, "aac"@, "-b:a"@, "256k"@, "-ar"@, "48000"@] } else { Seq::empty() }));
}

fn push_output(args: &mut Vec<String>, overlaid: bool, resolution: &str, output_path: &str)
    ensures
        arg_views(final(args)@) == arg_views(old(args)@)
            + (if resolution@ != "source"@ && !overlaid && has_one_x(resolution@) { seq!["-s"@, resolution@] } else { Seq::empty() })
            + seq!["-movflags"@, "+faststart"@, output_path@],
{
    proof {
        reveal_strlit("x");
    }
    let ghost a0 = arg_views(args@);
    let source = String::from_str("source");
    let res = String::from_str(resolution);
    if !(res == source) && !overlaid {
        let _n = resolution.unicode_len();
        let one_x = match index_of(resolution, "x", 0) {
            Some(p) => index_of(resolution, "x", p + 1).is_none(),
            None => false,
        };
        if one_x {
            push_arg(args, "-s");
            push_arg(args, resolution);
        }
    }
    let ghost a1 = arg_views(args@);
    assert(a1 =~= a0 + (if resolution@ != "source"@ && !overlaid && has_one_x(resolution@) { seq!["-s"@, resolution@] } else { Seq::empty() }));
    push_arg(args, "-movflags");
    push_arg(args, "+faststart");
    push_arg(args, output_path);
    assert(arg_views(args@) =~= a1 + seq!["-movflags"@, "+faststart"@, output_path@]);
}

/// The encoder arguments of a capture, for the caller to spawn.
pub fn recording_args(
    output_path: &str,
    screen_source: &Option<String>,
    camera_source: &Option<String>,
    audio_sources: &Vec<String>,
    microphone_device_id: &Option<String>,
    resolution: &str,
    fps: u32,
) -> (r: Vec<String>)
    ensures
        arg_views(r@) == capture_args(
            output_path@,
            opt_view(*screen_source),
            opt_view(*camera_source),
            string_views(audio_sources@),
            opt_view(*microphone_device_id),
            resolution@,
            fps,
        ),
{
    let mut args: Vec<String> = Vec::new();
    push_arg(&mut args, "-y");
    push_screen(&mut args, screen_source, audio_sources, fps);
    push_camera(&mut args, camera_source, audio_sources, microphone_device_id, fps);
    let screen = screen_source.is_some();
    let camera = camera_source.is_some();
    let microphone = contains_name(audio_sources, "microphone");
    push_mixing(&mut args, screen, camera, microphone, audio_sources.len() > 0);
    push_output(&mut args, screen && camera, resolution, output_path);
    assert(string_views(audio_sources@).len() == audio_sources@.len());
    assert(arg_views(args@) =~= capture_args(
        output_path@,
        opt_view(*screen_source),
        opt_view(*camera_source),
        string_views(audio_sources@),
        opt_view(*microphone_device_id),
        resolution@,
        fps,
    ));
    args
}

} // verus!

verus! {

/// Whether a recording is in progress.
pub fn is_recording_active<P>(active: &ActiveRecordings<P>, session_id: &str) -> (r: bool)
    requires
        active.wf(),
    ensures
        r == active@.contains_key(session_id@),
{
    active.contains(session_id)
}

} // verus!

verus! {

/// The microphone an AVFoundation listing line names, as `[tag] [id] name`:
/// the id between `] [` and the next `]`, the name after that bracket and
/// a space, trimmed.
pub open spec fn microphone_of_line(l: Seq<char>) -> Option<(Seq<char>, Seq<char>)> {
    match first_index_of(l, "] ["@, 0) {
        Some(idx) => match first_index_of(l, "]"@, idx + 3) {
            Some(e) => Some(
                (l.subrange(idx + 3, e), if e + 2 <= l.len() { trim_text(l.subrange(e + 2, l.len() as int)) } else { Seq::empty() }),
            ),
            None => None,
        },
        None => None,
    }
}

/// The microphones named by the lines of `s` from `i` on. The list starts
/// after the line announcing the audio devices and stops at an empty line
/// or an error line.
pub open spec fn microphones_from(s: Seq<char>, i: int, in_audio: bool) -> Seq<(Seq<char>, Seq<char>)>
    decreases s.len() - i,
{
    if i < 0 || i >= s.len() {
        Seq::empty()
    } else {
        let nl = next_newline(s, i, s.len() as int);
        let l = line_at(s, i);
        let last = nl >= s.len() || nl < i;
        if contains_text(l, "AVFoundation audio devices:"@) {
            if last { Seq::empty() } else { microphones_from(s, nl + 1, true) }
        } else if in_audio && (contains_text(l, "Error opening input"@) || l.len() == 0) {
            Seq::empty()
        } else {
            let here: Seq<(Seq<char>, Seq<char>)> = match (in_audio, microphone_of_line(l)) {
                (true, Some(m)) => seq![m],
                _ => Seq::empty(),
            };
            if last { here } else { here + microphones_from(s, nl + 1, in_audio) }
        }
    }
}

/// The ids and names of a list of sources.
pub open spec fn source_pairs(v: Seq<RecordingSource>) -> Seq<(Seq<char>, Seq<char>)> {
    v.map_values(|r: RecordingSource| (r.id@, r.name@))
}

/// The microphones of a listing; the default device when none is named.
pub open spec fn microphones_of(s: Seq<char>) -> Seq<(Seq<char>, Seq<char>)> {
    let m = microphones_from(s, 0, false);
    if m.len() == 0 {
        seq![("0"@, "Default Microphone"@)]
    } else {
        m
    }
}

fn microphone_in_line(line: &str) -> (r: Option<RecordingSource>)
    ensures
        r is None <==> microphone_of_line(line@) is None,
        r matches Some(m) ==> microphone_of_line(line@) == Some((m.id@, m.name@)),
{
    proof {
        reveal_strlit("] [");
        reveal_strlit("]");
    }
    let n = line.unicode_len();
    let idx = match index_of(line, "] [", 0) {
        None => {
            return None;
        },
        Some(i) => i,
    };
    let e = match index_of(line, "]", idx + 3) {
        None => {
            return None;
        },
        Some(e) => e,
    };
    let id = String::from_str(line.substring_char(idx + 3, e));
    let name = if n - e >= 2 {
        let rest = chars_of(line.substring_char(e + 2, n));
        let m = rest.len();
        let a = crate::captions::skip_space_in(&rest, 0, m);
        let b = crate::captions::trim_back_in(&rest, a, m);
        crate::captions::range_string(&rest, a, b)
    } else {
        String::new()
    };
    Some(RecordingSource { id, name })
}

/// The microphones of an AVFoundation device listing.
pub fn list_microphones(listing: &str) -> (r: Vec<RecordingSource>)
    ensures
        source_pairs(r@) == microphones_of(listing@),
{
    proof {
        reveal_strlit("AVFoundation audio devices:");
        reveal_strlit("Error opening input");
    }
    let cs = chars_of(listing);
    let n = cs.len();
    let mut mics: Vec<RecordingSource> = Vec::new();
    let mut i: usize = 0;
    let mut in_audio = false;
    while i < n
        invariant_except_break
            microphones_from(listing@, 0, false) == source_pairs(mics@) + microphones_from(cs@, i as int, in_audio),
        invariant
            i <= n,
            n == cs@.len(),
            cs@ == listing@,
        ensures
            microphones_from(listing@, 0, false) == source_pairs(mics@),
        decreases n - i,
    {
        let (line, nl) = line_string(&cs, i);
        let ghost before = mics@;
        let ghost l = line_at(cs@, i as int);
        if find_text(line.as_str(), "AVFoundation audio devices:") {
            if nl >= n {
                assert(source_pairs(mics@) =~= source_pairs(mics@) + microphones_from(cs@, i as int, in_audio));
                break;
            }
            in_audio = true;
            i = nl + 1;
            continue;
        }
        if in_audio && (find_text(line.as_str(), "Error opening input") || line.as_str().unicode_len() == 0) {
            assert(source_pairs(mics@) =~= source_pairs(mics@) + microphones_from(cs@, i as int, in_audio));
            break;
        }
        let ghost here: Seq<(Seq<char>, Seq<char>)> = match (in_audio, microphone_of_line(l)) {
            (true, Some(m)) => seq![m],
            _ => Seq::empty(),
        };
        if in_audio {
            match microphone_in_line(line.as_str()) {
                Some(m) => {
                    mics.push(m);
                },
                None => {},
            }
        }
        assert(source_pairs(mics@) =~= source_pairs(before) + here);
        if nl >= n {
            assert(source_pairs(mics@) =~= source_pairs(before) + microphones_from(cs@, i as int, in_audio));
            break;
        }
        assert(source_pairs(before) + microphones_from(cs@, i as int, in_audio) =~= source_pairs(mics@) + microphones_from(cs@, nl + 1, in_audio));
        i = nl + 1;
    }
    if mics.len() == 0 {
        mics.push(RecordingSource { id: String::from_str("0"), name: String::from_str("Default Microphone") });
        assert(source_pairs(mics@) =~= seq![("0"@, "Default Microphone"@)]);
    }
    mics
}

} // verus!
