//! Timed captions, their styling, and reading SRT timestamps.
//!
//! Caption times are integers in milliseconds.

use crate::ids::new_id;
use crate::text::{
    char_digits_end, char_digits_end_from, char_digits_value, char_digits_value_capped, chars_of, first_index_of, index_of,
    push_char,
};
use vstd::prelude::*;
use vstd::string::StringSliceAdditionalSpecFns;
use vstd::utf8::encode_utf8;

verus! {

#[derive(Debug, Clone, Copy, PartialEq, Eq, Structural)]
pub enum CaptionPosition {
    Top,
    Center,
    Bottom,
}

#[derive(Debug, Clone, Copy, PartialEq, Eq, Structural)]
pub enum CaptionAlignment {
    Left,
    Center,
    Right,
}

/// How a caption is drawn.
#[derive(Debug, Clone)]
pub struct CaptionStyle {
    pub font: String,
    /// Font size in points.
    pub size: u32,
    /// Text colour, `#RRGGBB`.
    pub color: String,
    pub background_color: Option<String>,
    pub position: CaptionPosition,
    pub alignment: CaptionAlignment,
}

/// A timed caption of a media item.
#[derive(Debug, Clone)]
pub struct Caption {
    pub id: String,
    pub media_clip_id: String,
    pub text: String,
    /// Start, in milliseconds from the beginning of the media item.
    pub start_time: i64,
    /// End, in milliseconds from the beginning of the media item.
    pub end_time: i64,
    /// Recognition confidence in millionths (0 to 1 000 000).
    pub confidence: Option<u32>,
    /// ISO 639-1 language code.
    pub language: String,
    pub styling: Option<CaptionStyle>,
}

/// A request to transcribe a media item.
#[derive(Debug, Clone)]
pub struct CaptionGenerationRequest {
    pub clip_id: String,
    pub language: String,
}

/// Where the speech recogniser lives and what it assumes.
#[derive(Debug, Clone)]
pub struct WhisperConfig {
    pub executable_path: String,
    pub model_path: String,
    pub language: String,
}

impl Default for WhisperConfig {
    /// The recogniser on the search path with the base English model.
    fn default() -> (r: WhisperConfig)
        ensures
            r.executable_path@ == "whisper-cli"@,
            r.model_path@ == "~/.clipforge/models/ggml-base.en.bin"@,
            r.language@ == "en"@,
    {
        WhisperConfig {
            executable_path: String::from_str("whisper-cli"),
            model_path: String::from_str("~/.clipforge/models/ggml-base.en.bin"),
            language: String::from_str("en"),
        }
    }
}

/// A Unicode `White_Space` character (the 25 that `char::is_whitespace`
/// accepts).
pub open spec fn is_white_space(c: char) -> bool {
    ('\t' <= c <= '\r') || c == ' ' || c == '\u{85}' || c == '\u{A0}' || c == '\u{1680}' || ('\u{2000}' <= c <= '\u{200A}')
        || c == '\u{2028}' || c == '\u{2029}' || c == '\u{202F}' || c == '\u{205F}' || c == '\u{3000}'
}

/// The number of words that start in `s[0..n)`: a word starts at a
/// character that is not whitespace and follows whitespace or the start.
pub open spec fn word_starts(s: Seq<char>, n: int) -> nat
    decreases n,
{
    if n <= 0 {
        0
    } else {
        let starts: nat = if !is_white_space(s[n - 1]) && (n - 1 == 0 || is_white_space(s[n - 2])) { 1 } else { 0 };
        word_starts(s, n - 1) + starts
    }
}

/// The number of whitespace-separated words of a text.
pub open spec fn word_count_of(s: Seq<char>) -> nat {
    word_starts(s, s.len() as int)
}

fn white_space(c: char) -> (r: bool)
    ensures
        r == is_white_space(c),
{
    ('\t' <= c && c <= '\r') || c == ' ' || c == '\u{85}' || c == '\u{A0}' || c == '\u{1680}' || ('\u{2000}' <= c && c <= '\u{200A}')
        || c == '\u{2028}' || c == '\u{2029}' || c == '\u{202F}' || c == '\u{205F}' || c == '\u{3000}'
}

fn count_words(text: &str) -> (r: usize)
    ensures
        r == word_count_of(text@),
{
    let cs = chars_of(text);
    let n = cs.len();
    let mut count: usize = 0;
    let mut i: usize = 0;
    while i < n
        invariant
            i <= n,
            n == cs@.len(),
            cs@ == text@,
            count == word_starts(cs@, i as int),
            count <= i,
        decreases n - i,
    {
        if !white_space(cs[i]) && (i == 0 || white_space(cs[i - 1])) {
            count = count + 1;
        }
        i = i + 1;
    }
    count
}

/// Longest caption text, in bytes.
pub const MAX_CAPTION_BYTES: usize = 500;

/// The first problem with a caption, if any.
pub open spec fn caption_problem(c: Caption) -> Option<Seq<char>> {
    if c.text@.len() == 0 {
        Some("Caption text cannot be empty"@)
    } else if encode_utf8(c.text@).len() > MAX_CAPTION_BYTES {
        Some("Caption text exceeds maximum length (500 chars)"@)
    } else if c.start_time < 0 {
        Some("Start time cannot be negative"@)
    } else if c.end_time <= c.start_time {
        Some("End time must be greater than start time"@)
    } else if c.confidence matches Some(v) && v > 1_000_000 {
        Some("Confidence must be between 0.0 and 1.0"@)
    } else {
        None
    }
}

impl Caption {
    /// A caption with a fresh id, no confidence and the default style.
    pub fn new(media_clip_id: String, text: String, start_time: i64, end_time: i64, language: String) -> (r: Caption)
        ensures
            r.id@.len() == 36,
            r.media_clip_id == media_clip_id,
            r.text == text,
            r.start_time == start_time,
            r.end_time == end_time,
            r.confidence is None,
            r.language == language,
            r.styling is Some,
    {
        Caption {
            id: new_id(),
            media_clip_id,
            text,
            start_time,
            end_time,
            confidence: None,
            language,
            styling: Some(CaptionStyle::default()),
        }
    }

    /// Length of the caption in milliseconds.
    pub fn duration(&self) -> (r: i128)
        ensures
            r == self.end_time - self.start_time,
    {
        self.end_time as i128 - self.start_time as i128
    }

    /// Number of words of the text.
    pub fn word_count(&self) -> (r: usize)
        ensures
            r == word_count_of(self.text@),
    {
        count_words(self.text.as_str())
    }

    /// Checks the text (present, at most 500 bytes), the times (start not
    /// negative, end after start) and the confidence (at most one).
    pub fn validate(&self) -> (r: Result<(), String>)
        ensures
            r is Ok <==> caption_problem(*self) is None,
            r matches Err(e) ==> Some(e@) == caption_problem(*self),
    {
        if self.text.as_str().unicode_len() == 0 {
            return Err(String::from_str("Caption text cannot be empty"));
        }
        let text = self.text.as_str();
        let bytes = text.as_bytes().len();
        assert(text@ == self.text@);
        if bytes > MAX_CAPTION_BYTES {
            return Err(String::from_str("Caption text exceeds maximum length (500 chars)"));
        }
        if self.start_time < 0 {
            return Err(String::from_str("Start time cannot be negative"));
        }
        if self.end_time <= self.start_time {
            return Err(String::from_str("End time must be greater than start time"));
        }
        match self.confidence {
            Some(v) => {
                if v > 1_000_000 {
                    return Err(String::from_str("Confidence must be between 0.0 and 1.0"));
                }
            },
            None => {},
        }
        Ok(())
    }
}

/// `#RRGGBB`: a hash and six hexadecimal digits.
pub open spec fn is_hex_color(s: Seq<char>) -> bool {
    s.len() == 7 && s[0] == '#' && forall|k: int| 1 <= k < 7 ==> is_hex_digit(#[trigger] s[k])
}

pub open spec fn is_hex_digit(c: char) -> bool {
    ('0' <= c <= '9') || ('a' <= c <= 'f') || ('A' <= c <= 'F')
}

/// The first problem with a style, if any.
pub open spec fn style_problem(s: CaptionStyle) -> Option<Seq<char>> {
    if s.font@.len() == 0 {
        Some("Font cannot be empty"@)
    } else if !(12 <= s.size <= 72) {
        Some("Font size must be between 12 and 72"@)
    } else if !is_hex_color(s.color@) {
        Some("Color must be in hex format (#RRGGBB)"@)
    } else {
        None
    }
}

fn hex_color(s: &str) -> (r: bool)
    ensures
        r == is_hex_color(s@),
{
    if s.unicode_len() != 7 || s.get_char(0) != '#' {
        return false;
    }
    let mut k: usize = 1;
    while k < 7
        invariant
            1 <= k <= 7,
            s@.len() == 7,
            forall|t: int| 1 <= t < k ==> is_hex_digit(#[trigger] s@[t]),
        decreases 7 - k,
    {
        let c = s.get_char(k);
        if !(('0' <= c && c <= '9') || ('a' <= c && c <= 'f') || ('A' <= c && c <= 'F')) {
            return false;
        }
        k = k + 1;
    }
    true
}

impl Default for CaptionStyle {
    /// White 24-point Arial, centred at the bottom on a transparent background.
    fn default() -> (r: CaptionStyle)
        ensures
            r.font@ == "Arial"@,
            r.size == 24,
            r.color@ == "#FFFFFF"@,
            r.background_color matches Some(b) && b@ == "transparent"@,
            r.position == CaptionPosition::Bottom,
            r.alignment == CaptionAlignment::Center,
    {
        CaptionStyle {
            font: String::from_str("Arial"),
            size: 24,
            color: String::from_str("#FFFFFF"),
            background_color: Some(String::from_str("transparent")),
            position: CaptionPosition::Bottom,
            alignment: CaptionAlignment::Center,
        }
    }
}

impl CaptionStyle {
    /// Checks the font (named), the size (12 to 72 points) and the colour (`#RRGGBB`).
    pub fn validate(&self) -> (r: Result<(), String>)
        ensures
            r is Ok <==> style_problem(*self) is None,
            r matches Err(e) ==> Some(e@) == style_problem(*self),
    {
        if self.font.as_str().unicode_len() == 0 {
            return Err(String::from_str("Font cannot be empty"));
        }
        if !(12 <= self.size && self.size <= 72) {
            return Err(String::from_str("Font size must be between 12 and 72"));
        }
        if !hex_color(self.color.as_str()) {
            return Err(String::from_str("Color must be in hex format (#RRGGBB)"));
        }
        Ok(())
    }
}

/// Largest value of one field of an SRT time.
pub const SRT_FIELD_MAX: u64 = 4_294_967_295;

/// An SRT time `H:M:S,mmm` (each field a run of ASCII digits of at most
/// `SRT_FIELD_MAX`) in milliseconds; `None` for anything else.
pub open spec fn srt_time(s: Seq<char>) -> Option<int> {
    let h1 = char_digits_end(s, 0);
    let m1 = char_digits_end(s, h1 + 1);
    let s1 = char_digits_end(s, m1 + 1);
    let e = char_digits_end(s, s1 + 1);
    let h = char_digits_value(s, 0, h1);
    let m = char_digits_value(s, h1 + 1, m1);
    let sec = char_digits_value(s, m1 + 1, s1);
    let ms = char_digits_value(s, s1 + 1, e);
    if h1 > 0 && h1 < s.len() && s[h1] == ':' && m1 > h1 + 1 && m1 < s.len() && s[m1] == ':' && s1 > m1 + 1 && s1 < s.len()
        && s[s1] == ',' && e > s1 + 1 && e == s.len() && h <= SRT_FIELD_MAX && m <= SRT_FIELD_MAX && sec <= SRT_FIELD_MAX
        && ms <= SRT_FIELD_MAX {
        Some((h * 3_600_000 + m * 60_000 + sec * 1000 + ms) as int)
    } else {
        None
    }
}

/// Reads an SRT time such as `00:01:30,250` as milliseconds.
pub fn parse_srt_time(time_str: &str) -> (r: Option<i64>)
    ensures
        r is None <==> srt_time(time_str@) is None,
        r matches Some(v) ==> srt_time(time_str@) == Some(v as int),
{
    let s = time_str;
    let n = s.unicode_len();
    let h1 = char_digits_end_from(s, 0);
    if !(h1 > 0 && h1 < n && s.get_char(h1) == ':') {
        return None;
    }
    let m1 = char_digits_end_from(s, h1 + 1);
    if !(m1 > h1 + 1 && m1 < n && s.get_char(m1) == ':') {
        return None;
    }
    let s1 = char_digits_end_from(s, m1 + 1);
    if !(s1 > m1 + 1 && s1 < n && s.get_char(s1) == ',') {
        return None;
    }
    let e = char_digits_end_from(s, s1 + 1);
    if !(e > s1 + 1 && e == n) {
        return None;
    }
    let cap = SRT_FIELD_MAX as u128 + 1;
    let h = char_digits_value_capped(s, 0, h1, cap);
    let m = char_digits_value_capped(s, h1 + 1, m1, cap);
    let sec = char_digits_value_capped(s, m1 + 1, s1, cap);
    let ms = char_digits_value_capped(s, s1 + 1, e, cap);
    if h > SRT_FIELD_MAX as u128 || m > SRT_FIELD_MAX as u128 || sec > SRT_FIELD_MAX as u128 || ms > SRT_FIELD_MAX as u128 {
        return None;
    }
    Some((h * 3_600_000 + m * 60_000 + sec * 1000 + ms) as i64)
}

/// An SRT timing line `start --> end`, both SRT times, in milliseconds.
pub open spec fn srt_timestamp(line: Seq<char>) -> Option<(int, int)> {
    match first_index_of(line, " --> "@, 0) {
        None => None,
        Some(p) => match (srt_time(line.subrange(0, p)), srt_time(line.subrange(p + 5, line.len() as int))) {
            (Some(a), Some(b)) => Some((a, b)),
            _ => None,
        },
    }
}

/// Reads an SRT timing line such as `00:00:01,500 --> 00:00:04,200`.
pub fn parse_srt_timestamp(line: &str) -> (r: Option<(i64, i64)>)
    ensures
        r is None <==> srt_timestamp(line@) is None,
        r matches Some((a, b)) ==> srt_timestamp(line@) == Some((a as int, b as int)),
{
    proof {
        reveal_strlit(" --> ");
    }
    let p = match index_of(line, " --> ", 0) {
        None => {
            return None;
        },
        Some(p) => p,
    };
    let n = line.unicode_len();
    let start = match parse_srt_time(line.substring_char(0, p)) {
        None => {
            return None;
        },
        Some(v) => v,
    };
    let end = match parse_srt_time(line.substring_char(p + 5, n)) {
        None => {
            return None;
        },
        Some(v) => v,
    };
    Some((start, end))
}

// ----- SRT files -----
//
// An SRT file is a list of blocks separated by blank lines. A block,
// trimmed of surrounding whitespace, is a sequence number line, a timing
// line and one or more text lines; the text lines are joined with single
// spaces. Lines end in a line feed, optionally preceded by a carriage
// return. Whitespace here is ASCII: tab, line feed, vertical tab, form
// feed, carriage return and space.

pub open spec fn is_ascii_space(c: char) -> bool {
    c == ' ' || ('\t' <= c <= '\r')
}

/// The first blank-line separator (two line feeds) at or after `i`, or the end.
pub open spec fn next_blank(s: Seq<char>, i: int) -> int
    decreases s.len() - i,
{
    if i < 0 || i + 1 >= s.len() {
        s.len() as int
    } else if s[i] == '\n' && s[i + 1] == '\n' {
        i
    } else {
        next_blank(s, i + 1)
    }
}

/// The first line feed in `s[i..e)`, or `e`.
pub open spec fn next_newline(s: Seq<char>, i: int, e: int) -> int
    decreases e - i,
{
    if i >= e || i < 0 || i >= s.len() {
        e
    } else if s[i] == '\n' {
        i
    } else {
        next_newline(s, i + 1, e)
    }
}

/// The first position in `s[i..e)` that is not whitespace, or `e`.
pub open spec fn skip_space(s: Seq<char>, i: int, e: int) -> int
    decreases e - i,
{
    if i >= e || i < 0 || i >= s.len() {
        e
    } else if is_ascii_space(s[i]) {
        skip_space(s, i + 1, e)
    } else {
        i
    }
}

/// The end of `s[b..e)` without its trailing whitespace.
pub open spec fn trim_back(s: Seq<char>, b: int, e: int) -> int
    decreases e - b,
{
    if e <= b || e > s.len() {
        if e <= b { b } else { e }
    } else if is_ascii_space(s[e - 1]) {
        trim_back(s, b, e - 1)
    } else {
        e
    }
}

/// A line without the carriage return that ends it, if any.
pub open spec fn strip_cr(l: Seq<char>) -> Seq<char> {
    if l.len() > 0 && l.last() == '\r' {
        l.drop_last()
    } else {
        l
    }
}

/// The line of `s` that starts at `i`, as `str::lines` gives it: up to the
/// next line feed, without a carriage return just before it.
pub open spec fn line_at(s: Seq<char>, i: int) -> Seq<char> {
    let nl = next_newline(s, i, s.len() as int);
    if nl < s.len() {
        strip_cr(s.subrange(i, nl))
    } else {
        s.subrange(i, s.len() as int)
    }
}

/// The line starting at `i` as a string, and where it ends.
pub(crate) fn line_string(cs: &Vec<char>, i: usize) -> (r: (String, usize))
    requires
        i <= cs@.len(),
    ensures
        r.0@ == line_at(cs@, i as int),
        r.1 == next_newline(cs@, i as int, cs@.len() as int),
        i <= r.1 <= cs@.len(),
{
    let n = cs.len();
    let nl = next_newline_in(cs, i, n);
    if nl < n {
        let end = line_end(cs, i, nl);
        (range_string(cs, i, end), nl)
    } else {
        (range_string(cs, i, n), nl)
    }
}

/// The lines of `s[i..e)` joined with single spaces.
pub open spec fn joined_lines(s: Seq<char>, i: int, e: int) -> Seq<char>
    decreases e - i,
{
    let nl = next_newline(s, i, e);
    if i >= e {
        Seq::empty()
    } else if nl >= e || nl < i {
        strip_cr(s.subrange(i, e))
    } else {
        strip_cr(s.subrange(i, nl)) + seq![' '] + joined_lines(s, nl + 1, e)
    }
}

/// A sequence without surrounding whitespace.
pub open spec fn trim_text(t: Seq<char>) -> Seq<char> {
    let a = skip_space(t, 0, t.len() as int);
    t.subrange(a, trim_back(t, a, t.len() as int))
}

/// The caption of the block `s[a..b)`, if it is one: text, start, end.
pub open spec fn block_entry(s: Seq<char>, a: int, b: int) -> Option<(Seq<char>, int, int)> {
    let ta = skip_space(s, a, b);
    let tb = trim_back(s, ta, b);
    let l0 = next_newline(s, ta, tb);
    let l1 = next_newline(s, l0 + 1, tb);
    if ta >= tb || l0 >= tb || l1 >= tb {
        None
    } else {
        match srt_timestamp(strip_cr(s.subrange(l0 + 1, l1))) {
            Some((start, end)) => Some((trim_text(joined_lines(s, l1 + 1, tb)), start, end)),
            None => None,
        }
    }
}

/// The captions of the blocks from position `from` on.
pub open spec fn entries_from(s: Seq<char>, from: int) -> Seq<(Seq<char>, int, int)>
    decreases s.len() + 1 - from,
{
    if from < 0 || from > s.len() {
        Seq::empty()
    } else {
        let p = next_blank(s, from);
        let here: Seq<(Seq<char>, int, int)> = match block_entry(s, from, p) {
            Some(x) => seq![x],
            None => Seq::empty(),
        };
        if p >= s.len() || p < from {
            here
        } else {
            here + entries_from(s, p + 2)
        }
    }
}

/// The captions of an SRT text: text, start and end of each, in order.
pub open spec fn srt_entries(s: Seq<char>) -> Seq<(Seq<char>, int, int)> {
    entries_from(s, 0)
}

/// The text and times of each caption.
pub open spec fn caption_entries(v: Seq<Caption>) -> Seq<(Seq<char>, int, int)> {
    v.map_values(|c: Caption| (c.text@, c.start_time as int, c.end_time as int))
}

fn next_blank_from(cs: &Vec<char>, i: usize) -> (r: usize)
    requires
        i <= cs@.len(),
    ensures
        r == next_blank(cs@, i as int),
        i <= r <= cs@.len(),
        r < cs@.len() ==> r + 1 < cs@.len(),
{
    let n = cs.len();
    if n == 0 {
        return 0;
    }
    let mut k = i;
    while k < n - 1 && !(cs[k] == '\n' && cs[k + 1] == '\n')
        invariant
            i <= k <= n,
            n == cs@.len(),
            n > 0,
            next_blank(cs@, i as int) == next_blank(cs@, k as int),
        decreases n - k,
    {
        k = k + 1;
    }
    if k < n - 1 {
        k
    } else {
        n
    }
}

pub(crate) fn next_newline_in(cs: &Vec<char>, i: usize, e: usize) -> (r: usize)
    requires
        i <= e <= cs@.len(),
    ensures
        r == next_newline(cs@, i as int, e as int),
        i <= r <= e,
{
    let mut k = i;
    while k < e && cs[k] != '\n'
        invariant
            i <= k <= e,
            e <= cs@.len(),
            next_newline(cs@, i as int, e as int) == next_newline(cs@, k as int, e as int),
        decreases e - k,
    {
        k = k + 1;
    }
    k
}

pub(crate) fn skip_space_in(cs: &Vec<char>, i: usize, e: usize) -> (r: usize)
    requires
        i <= e <= cs@.len(),
    ensures
        r == skip_space(cs@, i as int, e as int),
        i <= r <= e,
{
    let mut k = i;
    while k < e && (cs[k] == ' ' || ('\t' <= cs[k] && cs[k] <= '\r'))
        invariant
            i <= k <= e,
            e <= cs@.len(),
            skip_space(cs@, i as int, e as int) == skip_space(cs@, k as int, e as int),
        decreases e - k,
    {
        k = k + 1;
    }
    k
}

pub(crate) fn trim_back_in(cs: &Vec<char>, b: usize, e: usize) -> (r: usize)
    requires
        b <= e <= cs@.len(),
    ensures
        r == trim_back(cs@, b as int, e as int),
        b <= r <= e,
{
    let mut k = e;
    while k > b && (cs[k - 1] == ' ' || ('\t' <= cs[k - 1] && cs[k - 1] <= '\r'))
        invariant
            b <= k <= e,
            e <= cs@.len(),
            trim_back(cs@, b as int, e as int) == trim_back(cs@, b as int, k as int),
        decreases k - b,
    {
        k = k - 1;
    }
    k
}

/// `strip_cr(cs[a..b))` ends here.
pub(crate) fn line_end(cs: &Vec<char>, a: usize, b: usize) -> (r: usize)
    requires
        a <= b <= cs@.len(),
    ensures
        cs@.subrange(a as int, r as int) == strip_cr(cs@.subrange(a as int, b as int)),
        a <= r <= b,
{
    if b > a && cs[b - 1] == '\r' {
        assert(cs@.subrange(a as int, b - 1) =~= cs@.subrange(a as int, b as int).drop_last());
        b - 1
    } else {
        b
    }
}

fn push_range(out: &mut Vec<char>, cs: &Vec<char>, a: usize, b: usize)
    requires
        a <= b <= cs@.len(),
    ensures
        final(out)@ == old(out)@ + cs@.subrange(a as int, b as int),
{
    let mut k = a;
    while k < b
        invariant
            a <= k <= b,
            b <= cs@.len(),
            out@ == old(out)@ + cs@.subrange(a as int, k as int),
        decreases b - k,
    {
        out.push(cs[k]);
        assert(out@ =~= old(out)@ + cs@.subrange(a as int, k + 1));
        k = k + 1;
    }
}

pub(crate) fn range_string(cs: &Vec<char>, a: usize, b: usize) -> (r: String)
    requires
        a <= b <= cs@.len(),
    ensures
        r@ == cs@.subrange(a as int, b as int),
{
    let mut out = String::new();
    let mut k = a;
    while k < b
        invariant
            a <= k <= b,
            b <= cs@.len(),
            out@ == cs@.subrange(a as int, k as int),
        decreases b - k,
    {
        push_char(&mut out, cs[k]);
        assert(out@ =~= cs@.subrange(a as int, k + 1));
        k = k + 1;
    }
    out
}

fn joined_lines_of(cs: &Vec<char>, i: usize, e: usize) -> (r: Vec<char>)
    requires
        i <= e <= cs@.len(),
    ensures
        r@ == joined_lines(cs@, i as int, e as int),
{
    let mut out: Vec<char> = Vec::new();
    let mut k = i;
    while k < e
        invariant
            i <= k <= e,
            e <= cs@.len(),
            joined_lines(cs@, i as int, e as int) == out@ + joined_lines(cs@, k as int, e as int),
        decreases e - k,
    {
        let nl = next_newline_in(cs, k, e);
        let ghost before = out@;
        if nl >= e {
            let end = line_end(cs, k, e);
            push_range(&mut out, cs, k, end);
            assert(joined_lines(cs@, e as int, e as int) =~= Seq::<char>::empty());
            assert(out@ + joined_lines(cs@, e as int, e as int) =~= before + joined_lines(cs@, k as int, e as int));
            k = e;
        } else {
            let end = line_end(cs, k, nl);
            push_range(&mut out, cs, k, end);
            out.push(' ');
            assert(before + joined_lines(cs@, k as int, e as int) =~= out@ + joined_lines(cs@, nl + 1, e as int));
            k = nl + 1;
        }
    }
    assert(joined_lines(cs@, k as int, e as int) =~= Seq::<char>::empty());
    assert(out@ =~= out@ + joined_lines(cs@, k as int, e as int));
    out
}

fn block_caption(cs: &Vec<char>, a: usize, b: usize) -> (r: Option<(String, i64, i64)>)
    requires
        a <= b <= cs@.len(),
    ensures
        r is None <==> block_entry(cs@, a as int, b as int) is None,
        r matches Some((t, st, en)) ==> block_entry(cs@, a as int, b as int) == Some((t@, st as int, en as int)),
{
    let ta = skip_space_in(cs, a, b);
    let tb = trim_back_in(cs, ta, b);
    if ta >= tb {
        return None;
    }
    let l0 = next_newline_in(cs, ta, tb);
    if l0 >= tb {
        return None;
    }
    let l1 = next_newline_in(cs, l0 + 1, tb);
    if l1 >= tb {
        return None;
    }
    let ts_end = line_end(cs, l0 + 1, l1);
    let timing = range_string(cs, l0 + 1, ts_end);
    let (start, end) = match parse_srt_timestamp(timing.as_str()) {
        None => {
            return None;
        },
        Some(t) => t,
    };
    let joined = joined_lines_of(cs, l1 + 1, tb);
    let n = joined.len();
    let ja = skip_space_in(&joined, 0, n);
    let jb = trim_back_in(&joined, ja, n);
    let text = range_string(&joined, ja, jb);
    Some((text, start, end))
}

/// Reads the captions of an SRT text for a media item; a text without any
/// caption is an error.
pub fn parse_srt_content(content: &str, media_clip_id: String, language: String) -> (r: Result<Vec<Caption>, String>)
    ensures
        r is Err <==> srt_entries(content@).len() == 0,
        r matches Err(e) ==> e@ == "No captions found in SRT file"@,
        r matches Ok(v) ==> caption_entries(v@) == srt_entries(content@) && forall|i: int| 0 <= i < v@.len()
            ==> (#[trigger] v@[i]).media_clip_id == media_clip_id && v@[i].language == language,
{
    let cs = chars_of(content);
    let n = cs.len();
    let mut captions: Vec<Caption> = Vec::new();
    let mut from: usize = 0;
    loop
        invariant_except_break
            from <= n,
            srt_entries(content@) == caption_entries(captions@) + entries_from(cs@, from as int),
        invariant
            n == cs@.len(),
            cs@ == content@,
            forall|i: int| 0 <= i < captions@.len() ==> (#[trigger] captions@[i]).media_clip_id == media_clip_id
                && captions@[i].language == language,
        ensures
            srt_entries(content@) == caption_entries(captions@),
        decreases n + 1 - from,
    {
        let p = next_blank_from(&cs, from);
        let ghost before = captions@;
        let ghost here: Seq<(Seq<char>, int, int)> = match block_entry(cs@, from as int, p as int) {
            Some(x) => seq![x],
            None => Seq::empty(),
        };
        match block_caption(&cs, from, p) {
            Some((text, start, end)) => {
                let c = Caption::new(media_clip_id.clone(), text, start, end, language.clone());
                captions.push(c);
                assert(caption_entries(captions@) =~= caption_entries(before) + here);
            },
            None => {
                assert(caption_entries(captions@) =~= caption_entries(before) + here);
            },
        }
        if p >= n {
            assert(entries_from(cs@, from as int) == here);
            assert(caption_entries(captions@) =~= caption_entries(before) + entries_from(cs@, from as int));
            break;
        }
        assert(entries_from(cs@, from as int) == here + entries_from(cs@, p + 2));
        assert(caption_entries(before) + entries_from(cs@, from as int) =~= caption_entries(captions@) + entries_from(cs@, p + 2));
        from = p + 2;
    }
    if captions.len() == 0 {
        return Err(String::from_str("No captions found in SRT file"));
    }
    Ok(captions)
}

// ----- Editing captions -----

/// Caption `i` is the first with this id.
pub open spec fn is_first_caption(captions: Seq<Caption>, id: Seq<char>, i: int) -> bool {
    0 <= i < captions.len() && captions[i].id@ == id && forall|j: int| 0 <= j < i ==> (#[trigger] captions[j]).id@ != id
}

pub open spec fn holds_caption(captions: Seq<Caption>, id: Seq<char>) -> bool {
    exists|i: int| 0 <= i < captions.len() && (#[trigger] captions[i]).id@ == id
}

/// A caption with the given changes applied.
pub open spec fn edited_caption(c: Caption, text: Option<String>, start_time: Option<i64>, end_time: Option<i64>) -> Caption {
    let c1 = match text {
        Some(t) => Caption { text: t, ..c },
        None => c,
    };
    let c2 = match start_time {
        Some(s) => Caption { start_time: s, ..c1 },
        None => c1,
    };
    match end_time {
        Some(e) => Caption { end_time: e, ..c2 },
        None => c2,
    }
}

fn caption_index(captions: &Vec<Caption>, id: &String) -> (r: Option<usize>)
    ensures
        r is None <==> !holds_caption(captions@, id@),
        r matches Some(i) ==> is_first_caption(captions@, id@, i as int),
{
    let mut i: usize = 0;
    while i < captions.len()
        invariant
            i <= captions@.len(),
            forall|j: int| 0 <= j < i ==> (#[trigger] captions@[j]).id@ != id@,
        decreases captions@.len() - i,
    {
        if captions[i].id == *id {
            return Some(i);
        }
        i = i + 1;
    }
    None
}

fn copy_style(s: &CaptionStyle) -> (r: CaptionStyle)
    ensures
        r == *s,
{
    CaptionStyle {
        font: s.font.clone(),
        size: s.size,
        color: s.color.clone(),
        background_color: match &s.background_color {
            Some(b) => Some(b.clone()),
            None => None,
        },
        position: s.position,
        alignment: s.alignment,
    }
}

fn copy_caption(c: &Caption) -> (r: Caption)
    ensures
        r == *c,
{
    Caption {
        id: c.id.clone(),
        media_clip_id: c.media_clip_id.clone(),
        text: c.text.clone(),
        start_time: c.start_time,
        end_time: c.end_time,
        confidence: c.confidence,
        language: c.language.clone(),
        styling: match &c.styling {
            Some(st) => Some(copy_style(st)),
            None => None,
        },
    }
}

/// Changes the text and times of the first caption with id `caption_id`,
/// then checks it. The changes stay even when the check fails; the
/// result is then the check's message. An unknown id is an error and
/// changes nothing.
pub fn update_caption(
    captions: &mut Vec<Caption>,
    caption_id: &String,
    text: Option<String>,
    start_time: Option<i64>,
    end_time: Option<i64>,
) -> (r: Result<Caption, String>)
    ensures
        !holds_caption(old(captions)@, caption_id@) ==> (r matches Err(e) && e@ == "Caption not found: "@ + caption_id@)
            && final(captions)@ == old(captions)@,
        holds_caption(old(captions)@, caption_id@) ==> exists|i: int| #![trigger old(captions)@[i]]
            is_first_caption(old(captions)@, caption_id@, i) && final(captions)@ == old(captions)@.update(
                i,
                edited_caption(old(captions)@[i], text, start_time, end_time),
            ) && match caption_problem(edited_caption(old(captions)@[i], text, start_time, end_time)) {
                Some(p) => r matches Err(e) && e@ == p,
                None => r == Ok::<Caption, String>(edited_caption(old(captions)@[i], text, start_time, end_time)),
            },
{
    let i = match caption_index(captions, caption_id) {
        None => {
            let mut e = String::from_str("Caption not found: ");
            e.append(caption_id.as_str());
            return Err(e);
        },
        Some(i) => i,
    };
    let ghost before = captions@;
    let mut c = captions.remove(i);
    match text {
        Some(t) => {
            c.text = t;
        },
        None => {},
    }
    match start_time {
        Some(s) => {
            c.start_time = s;
        },
        None => {},
    }
    match end_time {
        Some(e) => {
            c.end_time = e;
        },
        None => {},
    }
    let checked = c.validate();
    let result = copy_caption(&c);
    captions.insert(i, c);
    assert(captions@ =~= before.update(i as int, result));
    match checked {
        Err(e) => Err(e),
        Ok(()) => Ok(result),
    }
}

/// The captions without those whose id is `id`.
pub open spec fn without_caption(captions: Seq<Caption>, id: Seq<char>) -> Seq<Caption>
    decreases captions.len(),
{
    if captions.len() == 0 {
        Seq::empty()
    } else {
        let rest = without_caption(captions.drop_last(), id);
        if captions.last().id@ == id {
            rest
        } else {
            rest.push(captions.last())
        }
    }
}

/// Removes every caption with id `caption_id`; an unknown id is an error.
pub fn delete_caption(captions: &mut Vec<Caption>, caption_id: &String) -> (r: Result<(), String>)
    ensures
        final(captions)@ == without_caption(old(captions)@, caption_id@),
        r is Err <==> !holds_caption(old(captions)@, caption_id@),
        r matches Err(e) ==> e@ == "Caption not found: "@ + caption_id@,
{
    let ghost start = captions@;
    let mut kept: Vec<Caption> = Vec::new();
    let mut removed = false;
    let mut i: usize = 0;
    while i < captions.len()
        invariant
            i <= captions@.len(),
            captions@ == start,
            kept@ == without_caption(start.subrange(0, i as int), caption_id@),
            removed <==> exists|j: int| 0 <= j < i && (#[trigger] start[j]).id@ == caption_id@,
        decreases captions@.len() - i,
    {
        let ghost pre = start.subrange(0, i as int);
        assert(start.subrange(0, i + 1).drop_last() =~= pre);
        if captions[i].id == *caption_id {
            removed = true;
        } else {
            kept.push(copy_caption(&captions[i]));
        }
        i = i + 1;
    }
    assert(start.subrange(0, start.len() as int) =~= start);
    *captions = kept;
    if !removed {
        let mut e = String::from_str("Caption not found: ");
        e.append(caption_id.as_str());
        return Err(e);
    }
    Ok(())
}

} // verus!
