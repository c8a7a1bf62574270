//! Reading what the media prober reports of a file: the first video
//! stream, the first audio stream and the container's duration and bitrate.

use crate::media::{frame_rate_of, parse_frame_rate};
use crate::text::{
    char_digits_end, char_digits_end_from, char_digits_value, char_digits_value_capped, char_fraction, char_fraction_of,
    decimal, first_index_of, index_of, push_decimal,
};
use vstd::prelude::*;

verus! {

/// One stream as the prober reports it.
#[derive(Debug, Clone)]
pub struct ProbeStream {
    pub codec_type: Option<String>,
    pub codec_name: Option<String>,
    pub width: Option<u32>,
    pub height: Option<u32>,
    /// Frame rate as a fraction, such as `30000/1001`.
    pub r_frame_rate: Option<String>,
    pub bit_rate: Option<String>,
}

/// The container as the prober reports it.
#[derive(Debug, Clone)]
pub struct ProbeFormat {
    /// Duration in seconds, such as `12.345000`.
    pub duration: Option<String>,
    pub bit_rate: Option<String>,
}

/// The metadata of a video file.
#[derive(Debug, Clone)]
pub struct VideoMetadata {
    /// Duration in microseconds.
    pub duration: i64,
    pub resolution: String,
    pub width: u32,
    pub height: u32,
    /// Frame rate in thousandths of a frame per second.
    pub fps: u64,
    pub codec: String,
    pub audio_codec: Option<String>,
    pub bitrate: Option<u64>,
    pub has_audio: bool,
}

/// Frame rate assumed when a video stream gives none, in thousandths.
pub const DEFAULT_FRAME_RATE: u64 = 30_000;

/// A duration in seconds (digits with at most one dot and at least one
/// digit, at most `u32::MAX` whole seconds) in microseconds, fraction cut
/// after six digits.
pub open spec fn seconds_micros(t: Seq<char>) -> Option<int> {
    let p = match first_index_of(t, "."@, 0) {
        Some(p) => p,
        None => t.len() as int,
    };
    if char_digits_end(t, 0) == p && (p == t.len() || char_digits_end(t, p + 1) == t.len()) && (p > 0 || t.len() > p + 1)
        && char_digits_value(t, 0, p) <= u32::MAX {
        Some((char_digits_value(t, 0, p) * 1_000_000 + char_fraction(t, p + 1, t.len() as int, 6)) as int)
    } else {
        None
    }
}

/// A count written as a non-empty run of digits of at most `u64::MAX`.
pub open spec fn count_of(t: Seq<char>) -> Option<int> {
    if t.len() > 0 && char_digits_end(t, 0) == t.len() && char_digits_value(t, 0, t.len() as int) <= u64::MAX {
        Some(char_digits_value(t, 0, t.len() as int) as int)
    } else {
        None
    }
}

/// Reads a duration in seconds as microseconds.
pub fn parse_seconds(t: &str) -> (r: Option<i64>)
    ensures
        r is None <==> seconds_micros(t@) is None,
        r matches Some(v) ==> seconds_micros(t@) == Some(v as int),
{
    proof {
        reveal_strlit(".");
    }
    let n = t.unicode_len();
    let p = match index_of(t, ".", 0) {
        Some(p) => p,
        None => n,
    };
    if char_digits_end_from(t, 0) != p {
        return None;
    }
    if p < n && char_digits_end_from(t, p + 1) != n {
        return None;
    }
    if !(p > 0 || (p < n && n - p > 1)) {
        return None;
    }
    let whole = char_digits_value_capped(t, 0, p, u32::MAX as u128 + 1);
    if whole > u32::MAX as u128 {
        return None;
    }
    let frac = if p < n {
        char_fraction_of(t, p + 1, n, 6)
    } else {
        proof {
            lemma_char_fraction_empty(t@, p + 1, n as int, 6);
        }
        0
    };
    Some((whole as u64 * 1_000_000 + frac) as i64)
}

proof fn lemma_char_fraction_empty(s: Seq<char>, from: int, to: int, k: nat)
    requires
        from >= to,
    ensures
        char_fraction(s, from, to, k) == 0,
    decreases k,
{
    if k > 0 {
        lemma_char_fraction_empty(s, from, to, (k - 1) as nat);
    }
}

/// Reads a count.
pub fn parse_count(t: &str) -> (r: Option<u64>)
    ensures
        r is None <==> count_of(t@) is None,
        r matches Some(v) ==> count_of(t@) == Some(v as int),
{
    let n = t.unicode_len();
    if n == 0 || char_digits_end_from(t, 0) != n {
        return None;
    }
    let v = char_digits_value_capped(t, 0, n, u64::MAX as u128 + 1);
    if v > u64::MAX as u128 {
        return None;
    }
    Some(v as u64)
}

/// A stream of the given kind (`video`, `audio`).
pub open spec fn is_kind(s: ProbeStream, kind: Seq<char>) -> bool {
    s.codec_type matches Some(t) && t@ == kind
}

/// Stream `i` is the first of its kind.
pub open spec fn is_first_of_kind(streams: Seq<ProbeStream>, kind: Seq<char>, i: int) -> bool {
    0 <= i < streams.len() && is_kind(streams[i], kind) && forall|j: int| 0 <= j < i ==> !is_kind(#[trigger] streams[j], kind)
}

pub open spec fn has_kind(streams: Seq<ProbeStream>, kind: Seq<char>) -> bool {
    exists|i: int| 0 <= i < streams.len() && is_kind(#[trigger] streams[i], kind)
}

fn first_of_kind(streams: &Vec<ProbeStream>, kind: &str) -> (r: Option<usize>)
    ensures
        r is None <==> !has_kind(streams@, kind@),
        r matches Some(i) ==> is_first_of_kind(streams@, kind@, i as int),
{
    let wanted = String::from_str(kind);
    let mut i: usize = 0;
    while i < streams.len()
        invariant
            i <= streams@.len(),
            wanted@ == kind@,
            forall|j: int| 0 <= j < i ==> !is_kind(#[trigger] streams@[j], kind@),
        decreases streams@.len() - i,
    {
        match &streams[i].codec_type {
            Some(t) => {
                if *t == wanted {
                    return Some(i);
                }
            },
            None => {},
        }
        i = i + 1;
    }
    None
}

/// The first problem with a probe report, if any: no video stream, a
/// video stream without width, height or codec, an unreadable frame rate,
/// or no readable duration.
pub open spec fn probe_problem(streams: Seq<ProbeStream>, format: ProbeFormat) -> Option<Seq<char>> {
    if !has_kind(streams, "video"@) {
        Some("No video stream found"@)
    } else {
        let v = streams[choose|i: int| is_first_of_kind(streams, "video"@, i)];
        if v.width is None {
            Some("Width not found"@)
        } else if v.height is None {
            Some("Height not found"@)
        } else if v.codec_name is None {
            Some("Codec not found"@)
        } else if v.r_frame_rate matches Some(r) && frame_rate_of(r@) is Err {
            Some(frame_rate_of(v.r_frame_rate.unwrap()@)->Err_0)
        } else if !(format.duration matches Some(d) && seconds_micros(d@) is Some) {
            Some("Duration not found"@)
        } else {
            None
        }
    }
}

proof fn lemma_first_of_kind_unique(streams: Seq<ProbeStream>, kind: Seq<char>, i: int, j: int)
    requires
        is_first_of_kind(streams, kind, i),
        is_first_of_kind(streams, kind, j),
    ensures
        i == j,
{
    if i < j {
        assert(!is_kind(streams[i], kind));
    } else if j < i {
        assert(!is_kind(streams[j], kind));
    }
}

/// The metadata of a probed file: the first video stream's size, codec
/// and frame rate (30 when it gives none), the container's duration, the
/// first audio stream's codec, and the bitrate of the video stream (or of
/// the container when the stream gives none), if it reads.
pub fn metadata_from_probe(streams: &Vec<ProbeStream>, format: &ProbeFormat) -> (r: Result<VideoMetadata, String>)
    ensures
        r is Err <==> probe_problem(streams@, *format) is Some,
        r matches Err(e) ==> Some(e@) == probe_problem(streams@, *format),
        r matches Ok(m) ==> exists|vi: int| #![trigger streams@[vi]]
            is_first_of_kind(streams@, "video"@, vi) && {
                let v = streams@[vi];
                &&& Some(m.width) == v.width && Some(m.height) == v.height
                &&& (v.codec_name matches Some(c) && m.codec == c)
                &&& m.resolution@ == decimal(m.width as nat) + "x"@ + decimal(m.height as nat)
                &&& m.fps == (match v.r_frame_rate {
                    Some(f) => frame_rate_of(f@)->Ok_0,
                    None => DEFAULT_FRAME_RATE as int,
                })
                &&& (format.duration matches Some(d) && seconds_micros(d@) == Some(m.duration as int))
                &&& m.bitrate == (match (if v.bit_rate is Some { v.bit_rate } else { format.bit_rate }) {
                    Some(b) => match count_of(b@) {
                        Some(x) => Some(x as u64),
                        None => None,
                    },
                    None => None,
                })
            },
        r matches Ok(m) ==> m.has_audio == has_kind(streams@, "audio"@),
        r matches Ok(m) ==> (m.audio_codec is Some ==> exists|ai: int| is_first_of_kind(streams@, "audio"@, ai)
            && streams@[ai].codec_name == m.audio_codec),
        r matches Ok(m) ==> (m.audio_codec is None ==> forall|ai: int| is_first_of_kind(streams@, "audio"@, ai)
            ==> streams@[ai].codec_name is None),
{
    proof {
        reveal_strlit("video");
        reveal_strlit("audio");
        reveal_strlit("x");
    }
    let vi = match first_of_kind(streams, "video") {
        None => {
            return Err(String::from_str("No video stream found"));
        },
        Some(i) => i,
    };
    proof {
        let c = choose|i: int| is_first_of_kind(streams@, "video"@, i);
        lemma_first_of_kind_unique(streams@, "video"@, c, vi as int);
    }
    let v = &streams[vi];
    let width = match v.width {
        None => {
            return Err(String::from_str("Width not found"));
        },
        Some(w) => w,
    };
    let height = match v.height {
        None => {
            return Err(String::from_str("Height not found"));
        },
        Some(h) => h,
    };
    let codec = match &v.codec_name {
        None => {
            return Err(String::from_str("Codec not found"));
        },
        Some(c) => c.clone(),
    };
    let fps = match &v.r_frame_rate {
        Some(rate) => match parse_frame_rate(rate.as_str()) {
            Ok(f) => f,
            Err(e) => {
                return Err(e);
            },
        },
        None => DEFAULT_FRAME_RATE,
    };
    let duration = match &format.duration {
        Some(d) => match parse_seconds(d.as_str()) {
            Some(x) => x,
            None => {
                return Err(String::from_str("Duration not found"));
            },
        },
        None => {
            return Err(String::from_str("Duration not found"));
        },
    };
    let rate_text = if v.bit_rate.is_some() {
        &v.bit_rate
    } else {
        &format.bit_rate
    };
    let bitrate = match rate_text {
        Some(b) => parse_count(b.as_str()),
        None => None,
    };
    let (has_audio, audio_codec) = match first_of_kind(streams, "audio") {
        Some(ai) => (true, streams[ai].codec_name.clone()),
        None => (false, None),
    };
    let mut resolution = String::new();
    push_decimal(&mut resolution, width as u64);
    resolution.append("x");
    push_decimal(&mut resolution, height as u64);
    assert(resolution@ =~= decimal(width as nat) + "x"@ + decimal(height as nat));
    Ok(VideoMetadata { duration, resolution, width, height, fps, codec, audio_codec, bitrate, has_audio })
}

} // verus!
