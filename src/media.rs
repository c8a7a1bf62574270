//! Imported media items as the export pipeline sees them.

use crate::text::{
    char_digits_end, char_digits_end_from, char_digits_value, char_digits_value_capped, contains_text, find_text,
    first_index_of, index_of, lowercase_of, push_signed, signed_decimal, to_lowercase,
};
use crate::clock::now_millis;
use crate::ids::new_id;
use vstd::prelude::*;

verus! {

/// An imported media item.
#[derive(Debug, Clone)]
pub struct MediaClip {
    pub id: String,
    pub name: String,
    pub source_path: String,
    /// Path of a transcoded stand-in, preferred over the source when present.
    pub proxy_path: Option<String>,
    pub thumbnail_path: Option<String>,
    /// Duration in microseconds.
    pub duration: i64,
    pub resolution: String,
    pub width: i32,
    pub height: i32,
    /// Frame rate in thousandths of a frame per second.
    pub fps: u32,
    pub codec: String,
    pub audio_codec: Option<String>,
    pub file_size: i64,
    pub bitrate: Option<i32>,
    pub has_audio: bool,
    /// Import time, in milliseconds since the Unix epoch.
    pub imported_at: i64,
    pub captions: Vec<String>,
}

/// The path that playback and export use for a media item.
pub open spec fn playable_path(m: MediaClip) -> Seq<char> {
    match m.proxy_path {
        Some(p) => p@,
        None => m.source_path@,
    }
}

/// A lowercase codec name that browsers play natively: one containing
/// `h264`, `vp8`, `vp9` or `av1`.
pub open spec fn web_compatible(codec_lower: Seq<char>) -> bool {
    contains_text(codec_lower, "h264"@) || contains_text(codec_lower, "vp8"@) || contains_text(codec_lower, "vp9"@)
        || contains_text(codec_lower, "av1"@)
}

/// Whether media in this codec, its name already in lowercase, needs a
/// transcoded proxy for playback.
pub fn needs_proxy_lowered(codec_lower: &str) -> (r: bool)
    ensures
        r == !web_compatible(codec_lower@),
{
    !(find_text(codec_lower, "h264") || find_text(codec_lower, "vp8") || find_text(codec_lower, "vp9") || find_text(codec_lower, "av1"))
}

/// Whether media in this codec needs a transcoded proxy for playback; the
/// name is compared case-insensitively.
pub fn needs_proxy(codec: &str) -> (r: bool)
    ensures
        r == !web_compatible(lowercase_of(codec@)),
{
    let lower = to_lowercase(codec);
    needs_proxy_lowered(lower.as_str())
}

/// The last component of a path, as `std::path::Path::file_name` finds it.
pub uninterp spec fn file_name_of(path: Seq<char>) -> Option<Seq<char>>;

/// Relies on `std::path::Path::file_name`: the last component of a path
/// (none for a path ending in `..` or for the root), which depends on the
/// path text alone; a component that is not valid Unicode counts as none.
#[verifier::external_body]
fn path_file_name(path: &str) -> (r: Option<String>)
    ensures
        r matches Some(n) ==> file_name_of(path@) == Some(n@),
        r is None ==> file_name_of(path@) is None,
{
    std::path::Path::new(path).file_name().and_then(|n| n.to_str()).map(|n| n.to_string())
}

impl MediaClip {
    /// A media item just imported from `source_path`, named after the file
    /// (`Unknown` when the path has no file name), with a fresh id.
    pub fn new(source_path: String, duration: i64, width: i32, height: i32, fps: u32, codec: String, file_size: i64) -> (r: MediaClip)
        ensures
            r.id@.len() == 36,
            r.name@ == (match file_name_of(source_path@) {
                Some(n) => n,
                None => "Unknown"@,
            }),
            r.source_path == source_path,
            r.proxy_path is None && r.thumbnail_path is None,
            r.duration == duration,
            r.resolution@ == signed_decimal(width as int) + "x"@ + signed_decimal(height as int),
            r.width == width && r.height == height && r.fps == fps,
            r.codec == codec,
            r.audio_codec is None && r.bitrate is None && !r.has_audio,
            r.file_size == file_size,
            r.captions@.len() == 0,
    {
        let name = match path_file_name(source_path.as_str()) {
            Some(n) => n,
            None => String::from_str("Unknown"),
        };
        let mut resolution = String::new();
        push_signed(&mut resolution, width as i64);
        resolution.append("x");
        push_signed(&mut resolution, height as i64);
        proof {
            reveal_strlit("x");
        }
        assert(resolution@ =~= signed_decimal(width as int) + "x"@ + signed_decimal(height as int));
        MediaClip {
            id: new_id(),
            name,
            source_path,
            proxy_path: None,
            thumbnail_path: None,
            duration,
            resolution,
            width,
            height,
            fps,
            codec,
            audio_codec: None,
            file_size,
            bitrate: None,
            has_audio: false,
            imported_at: now_millis(),
            captions: Vec::new(),
        }
    }

    /// Whether the item is at least 3840 pixels wide.
    pub fn is_4k(&self) -> (r: bool)
        ensures
            r == (self.width >= 3840),
    {
        self.width >= 3840
    }

    /// Whether the item is at least 1920 pixels wide.
    pub fn is_hd(&self) -> (r: bool)
        ensures
            r == (self.width >= 1920),
    {
        self.width >= 1920
    }

    /// The proxy path if there is one, else the source path.
    pub fn playable_path(&self) -> (r: &String)
        ensures
            r@ == playable_path(*self),
    {
        match &self.proxy_path {
            Some(p) => p,
            None => &self.source_path,
        }
    }
}

/// A field of a frame rate: a non-empty run of ASCII digits of value at
/// most `u32::MAX`.
pub open spec fn rate_field(t: Seq<char>) -> Option<int> {
    if t.len() > 0 && char_digits_end(t, 0) == t.len() && char_digits_value(t, 0, t.len() as int) <= u32::MAX {
        Some(char_digits_value(t, 0, t.len() as int) as int)
    } else {
        None
    }
}

/// A frame rate `N/D` in thousandths of a frame per second (cut to an
/// integer), or the message saying what is wrong with it.
pub open spec fn frame_rate_of(s: Seq<char>) -> Result<int, Seq<char>> {
    match first_index_of(s, "/"@, 0) {
        None => Err("Invalid frame rate format: "@ + s),
        Some(p) => if first_index_of(s, "/"@, p + 1) is Some {
            Err("Invalid frame rate format: "@ + s)
        } else {
            let num = s.subrange(0, p);
            let den = s.subrange(p + 1, s.len() as int);
            match (rate_field(num), rate_field(den)) {
                (None, _) => Err("Invalid numerator: "@ + num),
                (Some(_), None) => Err("Invalid denominator: "@ + den),
                (Some(n), Some(d)) => if d == 0 {
                    Err("Frame rate denominator cannot be zero"@)
                } else {
                    Ok(n * 1000 / d)
                },
            }
        },
    }
}

fn read_rate_field(t: &str) -> (r: Option<u64>)
    ensures
        r is None <==> rate_field(t@) is None,
        r matches Some(v) ==> rate_field(t@) == Some(v as int),
{
    let n = t.unicode_len();
    if n == 0 {
        return None;
    }
    let e = char_digits_end_from(t, 0);
    if e != n {
        return None;
    }
    let v = char_digits_value_capped(t, 0, n, u32::MAX as u128 + 1);
    if v > u32::MAX as u128 {
        return None;
    }
    Some(v as u64)
}

/// Reads a frame rate such as `30000/1001` as thousandths of a frame per
/// second (29970 there).
pub fn parse_frame_rate(fps_str: &str) -> (r: Result<u64, String>)
    ensures
        r matches Ok(v) ==> frame_rate_of(fps_str@) == Ok::<int, Seq<char>>(v as int),
        r matches Err(e) ==> frame_rate_of(fps_str@) == Err::<int, Seq<char>>(e@),
{
    proof {
        reveal_strlit("/");
    }
    let n = fps_str.unicode_len();
    let p = match index_of(fps_str, "/", 0) {
        None => {
            let mut e = String::from_str("Invalid frame rate format: ");
            e.append(fps_str);
            return Err(e);
        },
        Some(p) => p,
    };
    if index_of(fps_str, "/", p + 1).is_some() {
        let mut e = String::from_str("Invalid frame rate format: ");
        e.append(fps_str);
        return Err(e);
    }
    let num_str = fps_str.substring_char(0, p);
    let den_str = fps_str.substring_char(p + 1, n);
    let num = match read_rate_field(num_str) {
        None => {
            let mut e = String::from_str("Invalid numerator: ");
            e.append(num_str);
            return Err(e);
        },
        Some(v) => v,
    };
    let den = match read_rate_field(den_str) {
        None => {
            let mut e = String::from_str("Invalid denominator: ");
            e.append(den_str);
            return Err(e);
        },
        Some(v) => v,
    };
    if den == 0 {
        return Err(String::from_str("Frame rate denominator cannot be zero"));
    }
    Ok(num * 1000 / den)
}

/// An imported file that could not be added to the library.
#[derive(Debug, Clone)]
pub struct ImportError {
    pub path: String,
    pub error: String,
}

/// A thumbnail that was written for a media item.
#[derive(Debug, Clone)]
pub struct ThumbnailResult {
    pub clip_id: String,
    pub thumbnail_path: String,
}

/// Whether the library holds an item with this id.
pub open spec fn holds_clip(library: Seq<MediaClip>, id: Seq<char>) -> bool {
    exists|i: int| 0 <= i < library.len() && (#[trigger] library[i]).id@ == id
}

/// The first library item with this id.
pub open spec fn is_first_clip_with_id(library: Seq<MediaClip>, id: Seq<char>, i: int) -> bool {
    0 <= i < library.len() && library[i].id@ == id && forall|j: int| 0 <= j < i ==> (#[trigger] library[j]).id@ != id
}

fn clip_index(library: &[MediaClip], id: &String) -> (r: Option<usize>)
    ensures
        r is None <==> !holds_clip(library@, id@),
        r matches Some(i) ==> is_first_clip_with_id(library@, id@, i as int),
{
    let mut i: usize = 0;
    while i < library.len()
        invariant
            i <= library@.len(),
            forall|j: int| 0 <= j < i ==> (#[trigger] library@[j]).id@ != id@,
        decreases library@.len() - i,
    {
        if library[i].id == *id {
            return Some(i);
        }
        i = i + 1;
    }
    None
}

/// The path to play a library item from: its proxy when there is one,
/// whether or not the proxy was asked for, else its source.
pub fn load_clip_for_playback(library: &[MediaClip], clip_id: &String, use_proxy: bool) -> (r: Result<String, String>)
    ensures
        r is Err <==> !holds_clip(library@, clip_id@),
        r matches Err(e) ==> e@ == "Media clip not found: "@ + clip_id@,
        r matches Ok(p) ==> exists|i: int| is_first_clip_with_id(library@, clip_id@, i) && p@ == playable_path(library@[i]),
{
    match clip_index(library, clip_id) {
        None => {
            let mut e = String::from_str("Media clip not found: ");
            e.append(clip_id.as_str());
            Err(e)
        },
        Some(i) => Ok(library[i].playable_path().clone()),
    }
}

/// How far into a new item its thumbnail is taken, in microseconds: one
/// second in, or at the start for items of a second or less.
pub fn thumbnail_time(duration: i64) -> (r: i64)
    ensures
        r == (if duration > 1_000_000 { 1_000_000int } else { 0int }),
{
    if duration > 1_000_000 {
        1_000_000
    } else {
        0
    }
}

/// The first library item with this id; an unknown id is an error.
pub fn get_media_metadata<'a>(library: &'a [MediaClip], clip_id: &String) -> (r: Result<&'a MediaClip, String>)
    ensures
        r is Err <==> !holds_clip(library@, clip_id@),
        r matches Err(e) ==> e@ == "Media clip not found: "@ + clip_id@,
        r matches Ok(m) ==> exists|i: int| is_first_clip_with_id(library@, clip_id@, i) && *m == library@[i],
{
    match clip_index(library, clip_id) {
        None => {
            let mut e = String::from_str("Media clip not found: ");
            e.append(clip_id.as_str());
            Err(e)
        },
        Some(i) => Ok(&library[i]),
    }
}

/// The source file to transcribe for a library item: the item must exist
/// and have an audio track.
pub fn caption_source(library: &[MediaClip], clip_id: &String) -> (r: Result<String, String>)
    ensures
        !holds_clip(library@, clip_id@) ==> (r matches Err(e) && e@ == "Media clip not found: "@ + clip_id@),
        holds_clip(library@, clip_id@) ==> exists|i: int| #![trigger library@[i]]
            is_first_clip_with_id(library@, clip_id@, i) && (if library@[i].has_audio {
                r matches Ok(p) && p@ == library@[i].source_path@
            } else {
                r matches Err(e) && e@ == "Media clip does not contain audio track"@
            }),
{
    match clip_index(library, clip_id) {
        None => {
            let mut e = String::from_str("Media clip not found: ");
            e.append(clip_id.as_str());
            Err(e)
        },
        Some(i) => {
            if library[i].has_audio {
                Ok(library[i].source_path.clone())
            } else {
                Err(String::from_str("Media clip does not contain audio track"))
            }
        },
    }
}

} // verus!
