//! The progress extractor: one line of encoder diagnostics to a progress
//! sample.
//!
//! The line is read as its UTF-8 bytes. `frame=` is followed by optional
//! whitespace (any Unicode `White_Space` character) and a frame count of
//! ASCII digits; `fps=` by optional whitespace and a
//! decimal rate; `time=` directly by `H:M:S` with decimal seconds. The
//! leftmost occurrence of each field counts. Rates and times are kept as
//! integers (thousandths of a frame per second, microseconds), fractions
//! beyond that precision are cut off, and whole parts saturate at
//! `u32::MAX`.

use vstd::prelude::*;
use vstd::string::StringSliceAdditionalSpecFns;

verus! {

/// One progress sample.
#[derive(Debug, Clone, Copy, PartialEq, Eq, Structural)]
pub struct ExportProgress {
    pub current_frame: u64,
    /// Estimated frames of the whole render.
    pub total_frames: u64,
    /// Encoding rate, in thousandths of a frame per second.
    pub fps: u64,
    /// Fraction done, in millionths (0 to 1 000 000).
    pub progress: u32,
    pub eta_seconds: u64,
}

/// Rate assumed when a line gives none, in thousandths of a frame per second.
pub const DEFAULT_FPS_MILLIS: u64 = 30_000;

pub open spec fn is_digit(c: u8) -> bool {
    48 <= c <= 57
}

/// The length of the UTF-8 encoding of a Unicode `White_Space` character
/// at `j`, or 0 when none starts there: tab to carriage return, space,
/// U+0085, U+00A0, U+1680, U+2000 to U+200A, U+2028, U+2029, U+202F,
/// U+205F and U+3000.
pub open spec fn space_len(b: Seq<u8>, j: int) -> int {
    if j < 0 || j >= b.len() {
        0
    } else if b[j] == 32 || (9 <= b[j] <= 13) {
        1
    } else if j + 1 < b.len() && b[j] == 0xC2 && (b[j + 1] == 0x85 || b[j + 1] == 0xA0) {
        2
    } else if j + 2 < b.len() && b[j] == 0xE1 && b[j + 1] == 0x9A && b[j + 2] == 0x80 {
        3
    } else if j + 2 < b.len() && b[j] == 0xE2 && b[j + 1] == 0x80 && ((0x80 <= b[j + 2] <= 0x8A) || b[j + 2] == 0xA8
        || b[j + 2] == 0xA9 || b[j + 2] == 0xAF) {
        3
    } else if j + 2 < b.len() && b[j] == 0xE2 && b[j + 1] == 0x81 && b[j + 2] == 0x9F {
        3
    } else if j + 2 < b.len() && b[j] == 0xE3 && b[j + 1] == 0x80 && b[j + 2] == 0x80 {
        3
    } else {
        0
    }
}

pub open spec fn is_number_byte(c: u8) -> bool {
    is_digit(c) || c == 46
}

pub open spec fn digit_value(c: u8) -> int {
    c - 48
}

/// The first position at or after `j` where no whitespace character starts.
pub open spec fn skip_spaces(b: Seq<u8>, j: int) -> int
    decreases b.len() - j,
{
    if 0 <= j < b.len() && space_len(b, j) > 0 {
        skip_spaces(b, j + space_len(b, j))
    } else {
        j
    }
}

/// The end of the run of digits that starts at `j`.
pub open spec fn digits_end(b: Seq<u8>, j: int) -> int
    decreases b.len() - j,
{
    if 0 <= j < b.len() && is_digit(b[j]) {
        digits_end(b, j + 1)
    } else {
        j
    }
}

/// The end of the run of digits and dots that starts at `j`.
pub open spec fn number_end(b: Seq<u8>, j: int) -> int
    decreases b.len() - j,
{
    if 0 <= j < b.len() && is_number_byte(b[j]) {
        number_end(b, j + 1)
    } else {
        j
    }
}

/// The first dot in `b[j..e)`, or `e` when there is none.
pub open spec fn dot_pos(b: Seq<u8>, j: int, e: int) -> int
    decreases e - j,
{
    if j >= e || j < 0 || j >= b.len() {
        e
    } else if b[j] == 46 {
        j
    } else {
        dot_pos(b, j + 1, e)
    }
}

/// The number written by the digits `b[from..to)`.
pub open spec fn digits_value(b: Seq<u8>, from: int, to: int) -> nat
    decreases to - from,
{
    if to <= from {
        0
    } else {
        (digits_value(b, from, to - 1) * 10 + digit_value(b[to - 1])) as nat
    }
}

/// The first `k` digits of `b[from..to)` read as a `k`-digit number,
/// padded with zeros on the right.
pub open spec fn fraction_value(b: Seq<u8>, from: int, to: int, k: nat) -> nat
    decreases k,
{
    if k == 0 {
        0
    } else {
        let d: int = if from + k - 1 < to { digit_value(b[from + k - 1]) } else { 0 };
        (fraction_value(b, from, to, (k - 1) as nat) * 10 + d) as nat
    }
}

pub open spec fn min(a: int, b: int) -> int {
    if a <= b { a } else { b }
}

/// `b[d..e)`, a run of digits and dots, is a decimal number: at most one
/// dot and at least one digit.
pub open spec fn decimal_ok(b: Seq<u8>, d: int, e: int) -> bool {
    let p = dot_pos(b, d, e);
    (p == e || dot_pos(b, p + 1, e) == e) && (p > d || e > p + 1)
}

/// The decimal number `b[d..e)` times `scale` = 10^`k`, fraction cut off,
/// whole part saturated at `u32::MAX`.
pub open spec fn decimal_scaled(b: Seq<u8>, d: int, e: int, k: nat, scale: int) -> int {
    let p = dot_pos(b, d, e);
    min(digits_value(b, d, p) as int, u32::MAX as int) * scale + fraction_value(b, p + 1, e, k)
}

pub open spec fn has_tag(b: Seq<u8>, i: int, tag: Seq<u8>) -> bool {
    0 <= i && i + tag.len() <= b.len() && b.subrange(i, i + tag.len()) == tag
}

/// `frame=`
pub open spec fn frame_tag() -> Seq<u8> {
    seq![102u8, 114u8, 97u8, 109u8, 101u8, 61u8]
}

/// `fps=`
pub open spec fn fps_tag() -> Seq<u8> {
    seq![102u8, 112u8, 115u8, 61u8]
}

/// `time=`
pub open spec fn time_tag() -> Seq<u8> {
    seq![116u8, 105u8, 109u8, 101u8, 61u8]
}

pub open spec fn frame_at(b: Seq<u8>, i: int) -> bool {
    let d = skip_spaces(b, i + 6);
    has_tag(b, i, frame_tag()) && 0 <= d < b.len() && is_digit(b[d])
}

pub open spec fn fps_at(b: Seq<u8>, i: int) -> bool {
    let d = skip_spaces(b, i + 4);
    has_tag(b, i, fps_tag()) && 0 <= d < b.len() && is_number_byte(b[d])
}

pub open spec fn time_at(b: Seq<u8>, i: int) -> bool {
    let h1 = digits_end(b, i + 5);
    let m1 = digits_end(b, h1 + 1);
    &&& has_tag(b, i, time_tag())
    &&& h1 > i + 5 && h1 < b.len() && b[h1] == 58
    &&& m1 > h1 + 1 && m1 < b.len() && b[m1] == 58
    &&& number_end(b, m1 + 1) > m1 + 1
}

/// The leftmost position at or after `i` where a `frame=` field stands.
pub open spec fn first_frame(b: Seq<u8>, i: int) -> Option<int>
    decreases b.len() - i,
{
    if i < 0 || i >= b.len() {
        None
    } else if frame_at(b, i) {
        Some(i)
    } else {
        first_frame(b, i + 1)
    }
}

/// The leftmost position at or after `i` where an `fps=` field stands.
pub open spec fn first_fps(b: Seq<u8>, i: int) -> Option<int>
    decreases b.len() - i,
{
    if i < 0 || i >= b.len() {
        None
    } else if fps_at(b, i) {
        Some(i)
    } else {
        first_fps(b, i + 1)
    }
}

/// The leftmost position at or after `i` where a `time=` field stands.
pub open spec fn first_time(b: Seq<u8>, i: int) -> Option<int>
    decreases b.len() - i,
{
    if i < 0 || i >= b.len() {
        None
    } else if time_at(b, i) {
        Some(i)
    } else {
        first_time(b, i + 1)
    }
}

/// The frame count of the line; `None` without a `frame=` field or when
/// the count does not fit a `u64`.
pub open spec fn frame_count(b: Seq<u8>) -> Option<u64> {
    match first_frame(b, 0) {
        None => None,
        Some(i) => {
            let d = skip_spaces(b, i + 6);
            let v = digits_value(b, d, digits_end(b, d));
            if v <= u64::MAX {
                Some(v as u64)
            } else {
                None
            }
        },
    }
}

/// The rate of the line in thousandths of a frame per second, or the
/// default when there is no readable `fps=` field.
pub open spec fn fps_value(b: Seq<u8>) -> int {
    match first_fps(b, 0) {
        None => DEFAULT_FPS_MILLIS as int,
        Some(i) => {
            let d = skip_spaces(b, i + 4);
            let e = number_end(b, d);
            if decimal_ok(b, d, e) {
                decimal_scaled(b, d, e, 3, 1000)
            } else {
                DEFAULT_FPS_MILLIS as int
            }
        },
    }
}

/// The elapsed encode time of the line in microseconds; 0 without a
/// `time=` field, and unreadable seconds count as 0.
pub open spec fn elapsed_micros(b: Seq<u8>) -> int {
    match first_time(b, 0) {
        None => 0,
        Some(i) => {
            let h1 = digits_end(b, i + 5);
            let m1 = digits_end(b, h1 + 1);
            let s1 = number_end(b, m1 + 1);
            let hours = min(digits_value(b, i + 5, h1) as int, u32::MAX as int);
            let minutes = min(digits_value(b, h1 + 1, m1) as int, u32::MAX as int);
            let seconds = if decimal_ok(b, m1 + 1, s1) { decimal_scaled(b, m1 + 1, s1, 6, 1_000_000) } else { 0 };
            hours * 3_600_000_000 + minutes * 60_000_000 + seconds
        },
    }
}

/// Fraction of `total` microseconds that `elapsed` covers, in millionths,
/// clamped to 1 000 000; 0 when `total` is not positive.
pub open spec fn progress_millionths(elapsed: int, total: int) -> int {
    if total > 0 {
        min(elapsed * 1_000_000 / total, 1_000_000)
    } else {
        0
    }
}

/// Frames of the whole render: duration times rate, cut to an integer.
pub open spec fn total_frames_of(total: int, fps: int) -> int {
    if total > 0 {
        min(total * fps / 1_000_000_000, u64::MAX as int)
    } else {
        0
    }
}

/// Seconds until the remaining frames are done at the current rate; 0
/// without a rate or before the first frame.
pub open spec fn eta_of(total_frames: int, current: int, fps: int) -> int {
    if fps > 0 && current > 0 {
        let remaining = if total_frames > current { total_frames - current } else { 0 };
        min(remaining * 1000 / fps, u64::MAX as int)
    } else {
        0
    }
}

/// The progress sample of a line (as bytes) for a render of `total`
/// microseconds.
pub open spec fn progress_of(b: Seq<u8>, total: int) -> Option<ExportProgress> {
    match frame_count(b) {
        None => None,
        Some(cf) => {
            let fps = fps_value(b);
            let tf = total_frames_of(total, fps);
            Some(ExportProgress {
                current_frame: cf,
                total_frames: tf as u64,
                fps: fps as u64,
                progress: progress_millionths(elapsed_micros(b), total) as u32,
                eta_seconds: eta_of(tf, cf as int, fps) as u64,
            })
        },
    }
}

fn space_len_at(b: &[u8], j: usize) -> (r: usize)
    requires
        j <= b@.len(),
    ensures
        r == space_len(b@, j as int),
        j + r <= b@.len(),
{
    let n = b.len();
    if j >= n {
        return 0;
    }
    let c = b[j];
    if c == 32 || (9 <= c && c <= 13) {
        return 1;
    }
    if n - j >= 2 && c == 0xC2 && (b[j + 1] == 0x85 || b[j + 1] == 0xA0) {
        return 2;
    }
    if n - j >= 3 {
        let c1 = b[j + 1];
        let c2 = b[j + 2];
        if c == 0xE1 && c1 == 0x9A && c2 == 0x80 {
            return 3;
        }
        if c == 0xE2 && c1 == 0x80 && ((0x80 <= c2 && c2 <= 0x8A) || c2 == 0xA8 || c2 == 0xA9 || c2 == 0xAF) {
            return 3;
        }
        if c == 0xE2 && c1 == 0x81 && c2 == 0x9F {
            return 3;
        }
        if c == 0xE3 && c1 == 0x80 && c2 == 0x80 {
            return 3;
        }
    }
    0
}

fn skip_spaces_from(b: &[u8], j: usize) -> (r: usize)
    requires
        j <= b@.len(),
    ensures
        r == skip_spaces(b@, j as int),
        j <= r <= b@.len(),
{
    let n = b.len();
    let mut k = j;
    let mut step = space_len_at(b, k);
    while step > 0
        invariant
            n == b@.len(),
            j <= k <= b@.len(),
            step == space_len(b@, k as int),
            k + step <= b@.len(),
            skip_spaces(b@, j as int) == skip_spaces(b@, k as int),
        decreases b@.len() - k,
    {
        k = k + step;
        step = space_len_at(b, k);
    }
    k
}

fn digits_end_from(b: &[u8], j: usize) -> (r: usize)
    requires
        j <= b@.len(),
    ensures
        r == digits_end(b@, j as int),
        j <= r <= b@.len(),
{
    let mut k = j;
    while k < b.len() && 48 <= b[k] && b[k] <= 57
        invariant
            j <= k <= b@.len(),
            digits_end(b@, j as int) == digits_end(b@, k as int),
        decreases b@.len() - k,
    {
        k = k + 1;
    }
    k
}

fn number_end_from(b: &[u8], j: usize) -> (r: usize)
    requires
        j <= b@.len(),
    ensures
        r == number_end(b@, j as int),
        j <= r <= b@.len(),
{
    let mut k = j;
    while k < b.len() && ((48 <= b[k] && b[k] <= 57) || b[k] == 46)
        invariant
            j <= k <= b@.len(),
            number_end(b@, j as int) == number_end(b@, k as int),
        decreases b@.len() - k,
    {
        k = k + 1;
    }
    k
}

fn dot_pos_in(b: &[u8], j: usize, e: usize) -> (r: usize)
    requires
        j <= e <= b@.len(),
    ensures
        r == dot_pos(b@, j as int, e as int),
        j <= r <= e,
{
    let mut k = j;
    while k < e && b[k] != 46
        invariant
            j <= k <= e,
            e <= b@.len(),
            dot_pos(b@, j as int, e as int) == dot_pos(b@, k as int, e as int),
        decreases e - k,
    {
        k = k + 1;
    }
    k
}

/// `min(digits_value(b, from, to), cap)`.
fn digits_value_capped(b: &[u8], from: usize, to: usize, cap: u128) -> (r: u128)
    requires
        from <= to <= b@.len(),
        forall|k: int| from <= k < to ==> is_digit(#[trigger] b@[k]),
        cap <= u64::MAX as u128 + 1,
    ensures
        r == min(digits_value(b@, from as int, to as int) as int, cap as int),
{
    let mut acc: u128 = 0;
    let mut k = from;
    while k < to
        invariant
            from <= k <= to <= b@.len(),
            forall|k: int| from <= k < to ==> is_digit(#[trigger] b@[k]),
            cap <= u64::MAX as u128 + 1,
            acc == min(digits_value(b@, from as int, k as int) as int, cap as int),
        decreases to - k,
    {
        assert(is_digit(b@[k as int]));
        let d = (b[k] - 48) as u128;
        let next = acc * 10 + d;
        acc = if next < cap { next } else { cap };
        k = k + 1;
    }
    acc
}

/// `fraction_value(b, from, to, k)`.
fn fraction_digits(b: &[u8], from: usize, to: usize, k: u32) -> (r: u64)
    requires
        from <= to <= b@.len(),
        forall|i: int| from <= i < to ==> is_digit(#[trigger] b@[i]),
        k <= 6,
    ensures
        r == fraction_value(b@, from as int, to as int, k as nat),
        r < 1_000_000,
{
    let mut acc: u64 = 0;
    let mut i: u32 = 0;
    while i < k
        invariant
            i <= k <= 6,
            from <= to <= b@.len(),
            forall|i: int| from <= i < to ==> is_digit(#[trigger] b@[i]),
            acc == fraction_value(b@, from as int, to as int, i as nat),
            acc < 1_000_000,
            i == 0 ==> acc == 0,
            i <= 5 ==> acc < 100_000,
            i <= 4 ==> acc < 10_000,
            i <= 3 ==> acc < 1000,
            i <= 2 ==> acc < 100,
            i <= 1 ==> acc < 10,
        decreases k - i,
    {
        let d: u64 = if (i as usize) < to - from {
            assert(is_digit(b@[from + i]));
            (b[from + i as usize] - 48) as u64
        } else {
            0
        };
        acc = acc * 10 + d;
        i = i + 1;
    }
    acc
}

proof fn lemma_number_run(b: Seq<u8>, j: int, k: int)
    requires
        0 <= j <= k < number_end(b, j),
    ensures
        is_number_byte(b[k]),
        k < b.len(),
    decreases k - j,
{
    if j < k {
        lemma_number_run(b, j + 1, k);
    }
}

proof fn lemma_digit_run(b: Seq<u8>, j: int, k: int)
    requires
        0 <= j <= k < digits_end(b, j),
    ensures
        is_digit(b[k]),
        k < b.len(),
    decreases k - j,
{
    if j < k {
        lemma_digit_run(b, j + 1, k);
    }
}

proof fn lemma_dot_pos_bounds(b: Seq<u8>, j: int, e: int)
    requires
        0 <= j <= e <= b.len(),
    ensures
        j <= dot_pos(b, j, e) <= e,
        forall|k: int| j <= k < dot_pos(b, j, e) ==> b[k] != 46,
        dot_pos(b, j, e) < e ==> b[dot_pos(b, j, e)] == 46,
    decreases e - j,
{
    if j < e && b[j] != 46 {
        lemma_dot_pos_bounds(b, j + 1, e);
    }
}

/// `decimal_ok` and `decimal_scaled` of a run of digits and dots.
fn read_decimal(b: &[u8], d: usize, e: usize, k: u32, scale: u64) -> (r: Option<u64>)
    requires
        d <= e <= b@.len(),
        e == number_end(b@, d as int),
        k <= 6,
        scale as int == (if k == 3 { 1000int } else { 1_000_000int }),
        k == 3 || k == 6,
    ensures
        r is Some <==> decimal_ok(b@, d as int, e as int),
        r matches Some(v) ==> v == decimal_scaled(b@, d as int, e as int, k as nat, scale as int),
        r matches Some(v) ==> v <= u32::MAX as int * scale + 999_999,
{
    proof {
        assert forall|i: int| d <= i < e implies is_number_byte(#[trigger] b@[i]) by {
            lemma_number_run(b@, d as int, i);
        }
        lemma_dot_pos_bounds(b@, d as int, e as int);
    }
    let p = dot_pos_in(b, d, e);
    let ok_dots = if p == e {
        true
    } else {
        proof {
            lemma_dot_pos_bounds(b@, p + 1, e as int);
        }
        dot_pos_in(b, p + 1, e) == e
    };
    if !(ok_dots && (p > d || e - p > 1)) {
        return None;
    }
    proof {
        if p < e {
            lemma_dot_pos_bounds(b@, p + 1, e as int);
        }
    }
    let whole = digits_value_capped(b, d, p, u32::MAX as u128);
    let frac_from = if p < e { p + 1 } else { e };
    let frac = fraction_digits(b, frac_from, e, k);
    proof {
        if p == e {
            assert(fraction_value(b@, p + 1, e as int, k as nat) == fraction_value(b@, e as int, e as int, k as nat)) by {
                lemma_fraction_past_end(b@, p + 1, e as int, k as nat);
                lemma_fraction_past_end(b@, e as int, e as int, k as nat);
            }
        }
    }
    Some(whole as u64 * scale + frac)
}

proof fn lemma_fraction_past_end(b: Seq<u8>, from: int, to: int, k: nat)
    requires
        from >= to,
    ensures
        fraction_value(b, from, to, k) == 0,
    decreases k,
{
    if k > 0 {
        lemma_fraction_past_end(b, from, to, (k - 1) as nat);
    }
}

fn tag_at(b: &[u8], i: usize, tag: &[u8]) -> (r: bool)
    ensures
        r == has_tag(b@, i as int, tag@),
{
    if i > b.len() || tag.len() > b.len() - i {
        return false;
    }
    let n = b.len();
    let mut k: usize = 0;
    while k < tag.len()
        invariant
            n == b@.len(),
            k <= tag@.len(),
            i + tag@.len() <= b@.len(),
            forall|j: int| 0 <= j < k ==> b@[i + j] == tag@[j],
        decreases tag@.len() - k,
    {
        if b[i + k] != tag[k] {
            assert(b@.subrange(i as int, i + tag@.len())[k as int] != tag@[k as int]);
            return false;
        }
        k = k + 1;
    }
    assert(b@.subrange(i as int, i + tag@.len()) =~= tag@);
    true
}

/// Position of the leftmost `frame=` field.
fn find_frame(b: &[u8]) -> (r: Option<usize>)
    ensures
        r is None <==> first_frame(b@, 0) is None,
        r matches Some(i) ==> first_frame(b@, 0) == Some(i as int) && i + 6 <= b@.len() && frame_at(b@, i as int),
{
    let tag: [u8; 6] = [102, 114, 97, 109, 101, 61];
    assert(tag@ =~= frame_tag());
    let mut i: usize = 0;
    while i < b.len()
        invariant
            i <= b@.len(),
            tag@ == frame_tag(),
            first_frame(b@, 0) == first_frame(b@, i as int),
        decreases b@.len() - i,
    {
        if tag_at(b, i, tag.as_slice()) {
            let d = skip_spaces_from(b, i + 6);
            if d < b.len() && 48 <= b[d] && b[d] <= 57 {
                return Some(i);
            }
        }
        i = i + 1;
    }
    None
}

/// Position of the leftmost `fps=` field.
fn find_fps(b: &[u8]) -> (r: Option<usize>)
    ensures
        r is None <==> first_fps(b@, 0) is None,
        r matches Some(i) ==> first_fps(b@, 0) == Some(i as int) && i + 4 <= b@.len() && fps_at(b@, i as int),
{
    let tag: [u8; 4] = [102, 112, 115, 61];
    assert(tag@ =~= fps_tag());
    let mut i: usize = 0;
    while i < b.len()
        invariant
            i <= b@.len(),
            tag@ == fps_tag(),
            first_fps(b@, 0) == first_fps(b@, i as int),
        decreases b@.len() - i,
    {
        if tag_at(b, i, tag.as_slice()) {
            let d = skip_spaces_from(b, i + 4);
            if d < b.len() && ((48 <= b[d] && b[d] <= 57) || b[d] == 46) {
                return Some(i);
            }
        }
        i = i + 1;
    }
    None
}

/// Position of the leftmost `time=` field.
fn find_time(b: &[u8]) -> (r: Option<usize>)
    ensures
        r is None <==> first_time(b@, 0) is None,
        r matches Some(i) ==> first_time(b@, 0) == Some(i as int) && time_at(b@, i as int),
{
    let tag: [u8; 5] = [116, 105, 109, 101, 61];
    assert(tag@ =~= time_tag());
    let mut i: usize = 0;
    while i < b.len()
        invariant
            i <= b@.len(),
            tag@ == time_tag(),
            first_time(b@, 0) == first_time(b@, i as int),
        decreases b@.len() - i,
    {
        if tag_at(b, i, tag.as_slice()) {
            let h1 = digits_end_from(b, i + 5);
            if h1 > i + 5 && h1 < b.len() && b[h1] == 58 {
                let m1 = digits_end_from(b, h1 + 1);
                if m1 > h1 + 1 && m1 < b.len() && b[m1] == 58 {
                    let s1 = number_end_from(b, m1 + 1);
                    if s1 > m1 + 1 {
                        return Some(i);
                    }
                }
            }
        }
        i = i + 1;
    }
    None
}

fn read_fps(b: &[u8]) -> (r: u64)
    ensures
        r == fps_value(b@),
        r <= u32::MAX as int * 1000 + 999_999,
{
    let n = b.len();
    match find_fps(b) {
        None => DEFAULT_FPS_MILLIS,
        Some(i) => {
            let d = skip_spaces_from(b, i + 4);
            let e = number_end_from(b, d);
            match read_decimal(b, d, e, 3, 1000) {
                Some(v) => v,
                None => DEFAULT_FPS_MILLIS,
            }
        },
    }
}

fn read_elapsed(b: &[u8]) -> (r: u128)
    ensures
        r == elapsed_micros(b@),
        r <= u64::MAX,
{
    let n = b.len();
    match find_time(b) {
        None => 0,
        Some(i) => {
            let h1 = digits_end_from(b, i + 5);
            let m1 = digits_end_from(b, h1 + 1);
            let s1 = number_end_from(b, m1 + 1);
            proof {
                assert forall|k: int| i + 5 <= k < h1 implies is_digit(#[trigger] b@[k]) by {
                    lemma_digit_run(b@, i + 5, k);
                }
                assert forall|k: int| h1 + 1 <= k < m1 implies is_digit(#[trigger] b@[k]) by {
                    lemma_digit_run(b@, h1 + 1, k);
                }
            }
            let hours = digits_value_capped(b, i + 5, h1, u32::MAX as u128);
            let minutes = digits_value_capped(b, h1 + 1, m1, u32::MAX as u128);
            let seconds: u64 = match read_decimal(b, m1 + 1, s1, 6, 1_000_000) {
                Some(v) => v,
                None => 0,
            };
            hours * 3_600_000_000 + minutes * 60_000_000 + seconds as u128
        },
    }
}

fn frames_estimate(total: i128, fps: u64) -> (r: u64)
    ensures
        r == total_frames_of(total as int, fps as int),
{
    if total <= 0 {
        return 0;
    }
    let t = total as u128;
    let f = fps as u128;
    if f > 0 && t > u128::MAX / f {
        proof {
            let q = u128::MAX as int / f as int;
            assert((u128::MAX as int) < (q + 1) * f) by (nonlinear_arith)
                requires
                    q == u128::MAX as int / f as int,
                    f > 0,
            ;
            assert(t * f >= (q + 1) * f) by (nonlinear_arith)
                requires
                    t >= q + 1,
                    f > 0,
            ;
            assert(t * f / 1_000_000_000 >= u64::MAX) by (nonlinear_arith)
                requires
                    t * f > u128::MAX as int,
            ;
        }
        return u64::MAX;
    }
    proof {
        if f > 0 {
            assert(t * f <= u128::MAX) by (nonlinear_arith)
                requires
                    t <= u128::MAX as int / f as int,
                    f > 0,
            ;
        }
    }
    let q = t * f / 1_000_000_000;
    if q > u64::MAX as u128 {
        u64::MAX
    } else {
        q as u64
    }
}

fn eta_estimate(total_frames: u64, current: u64, fps: u64) -> (r: u64)
    ensures
        r == eta_of(total_frames as int, current as int, fps as int),
{
    if fps > 0 && current > 0 {
        let remaining: u128 = if total_frames > current {
            (total_frames - current) as u128
        } else {
            0
        };
        let q = remaining * 1000 / fps as u128;
        if q > u64::MAX as u128 {
            u64::MAX
        } else {
            q as u64
        }
    } else {
        0
    }
}

/// Reads one line of encoder diagnostics. `None` when the line has no
/// frame counter: such lines are ordinary diagnostics, not errors.
/// `total_duration` is the length of the render in microseconds.
pub fn parse_progress(line: &str, total_duration: i128) -> (r: Option<ExportProgress>)
    ensures
        r == progress_of(line.spec_bytes(), total_duration as int),
{
    let b = line.as_bytes();
    let n = b.len();
    let i = match find_frame(b) {
        None => {
            return None;
        },
        Some(i) => i,
    };
    let d = skip_spaces_from(b, i + 6);
    let e = digits_end_from(b, d);
    proof {
        assert forall|k: int| d <= k < e implies is_digit(#[trigger] b@[k]) by {
            lemma_digit_run(b@, d as int, k);
        }
    }
    let v = digits_value_capped(b, d, e, u64::MAX as u128 + 1);
    if v > u64::MAX as u128 {
        return None;
    }
    let current_frame = v as u64;
    let fps = read_fps(b);
    let elapsed = read_elapsed(b);
    let progress: u32 = if total_duration > 0 {
        let q = elapsed * 1_000_000 / (total_duration as u128);
        if q > 1_000_000 {
            1_000_000
        } else {
            q as u32
        }
    } else {
        0
    };
    let total_frames = frames_estimate(total_duration, fps);
    let eta_seconds = eta_estimate(total_frames, current_frame, fps);
    Some(ExportProgress { current_frame, total_frames, fps, progress, eta_seconds })
}

} // verus!
