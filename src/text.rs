//! Decimal rendering of integers, built up as `String`s.

use vstd::prelude::*;
use vstd::std_specs::iter::IteratorSpec;

verus! {

/// The ASCII character of a decimal digit.
pub open spec fn digit_char(d: int) -> char {
    if d == 0 {
        '0'
    } else if d == 1 {
        '1'
    } else if d == 2 {
        '2'
    } else if d == 3 {
        '3'
    } else if d == 4 {
        '4'
    } else if d == 5 {
        '5'
    } else if d == 6 {
        '6'
    } else if d == 7 {
        '7'
    } else if d == 8 {
        '8'
    } else {
        '9'
    }
}

/// Shortest decimal form of a natural number, without sign or leading zeros.
pub open spec fn decimal(n: nat) -> Seq<char>
    decreases n,
{
    if n < 10 {
        seq![digit_char(n as int)]
    } else {
        decimal(n / 10) + seq![digit_char((n % 10) as int)]
    }
}

/// The last `width` decimal digits of `n`, padded on the left with zeros.
pub open spec fn fixed_digits(n: nat, width: nat) -> Seq<char>
    decreases width,
{
    if width == 0 {
        Seq::empty()
    } else {
        fixed_digits(n / 10, (width - 1) as nat) + seq![digit_char((n % 10) as int)]
    }
}

/// A decimal digit as a one-character string.
fn digit_str(d: u64) -> (r: &'static str)
    requires
        d < 10,
    ensures
        r@ == seq![digit_char(d as int)],
{
    proof {
        reveal_strlit("0");
        reveal_strlit("1");
        reveal_strlit("2");
        reveal_strlit("3");
        reveal_strlit("4");
        reveal_strlit("5");
        reveal_strlit("6");
        reveal_strlit("7");
        reveal_strlit("8");
        reveal_strlit("9");
    }
    if d == 0 {
        "0"
    } else if d == 1 {
        "1"
    } else if d == 2 {
        "2"
    } else if d == 3 {
        "3"
    } else if d == 4 {
        "4"
    } else if d == 5 {
        "5"
    } else if d == 6 {
        "6"
    } else if d == 7 {
        "7"
    } else if d == 8 {
        "8"
    } else {
        assert(d == 9);
        "9"
    }
}

/// Appends the decimal form of `n` to `out`.
pub fn push_decimal(out: &mut String, n: u64)
    ensures
        final(out)@ == old(out)@ + decimal(n as nat),
    decreases n,
{
    if n < 10 {
        out.append(digit_str(n));
    } else {
        push_decimal(out, n / 10);
        out.append(digit_str(n % 10));
        proof {
            assert(old(out)@ + decimal(n as nat) =~= old(out)@ + decimal((n / 10) as nat) + seq![digit_char((n % 10) as int)]);
        }
    }
}

/// Appends the last `width` decimal digits of `n`, zero-padded, to `out`.
pub fn push_fixed_digits(out: &mut String, n: u64, width: u32)
    ensures
        final(out)@ == old(out)@ + fixed_digits(n as nat, width as nat),
    decreases width,
{
    if width == 0 {
        assert(old(out)@ + fixed_digits(n as nat, 0) =~= old(out)@);
    } else {
        push_fixed_digits(out, n / 10, width - 1);
        out.append(digit_str(n % 10));
        proof {
            assert(old(out)@ + fixed_digits(n as nat, width as nat) =~= old(out)@ + fixed_digits((n / 10) as nat, (width - 1) as nat)
                + seq![digit_char((n % 10) as int)]);
        }
    }
}

/// A signed count of microseconds written in seconds with six decimals,
/// such as `-2.500000`.
pub open spec fn seconds_text(micros: int) -> Seq<char> {
    let mag: nat = if micros < 0 { (-micros) as nat } else { micros as nat };
    let sign: Seq<char> = if micros < 0 { seq!['-'] } else { Seq::empty() };
    sign + decimal(mag / 1_000_000) + seq!['.'] + fixed_digits(mag % 1_000_000, 6)
}

/// Appends `seconds_text(micros)` to `out`.
pub fn push_seconds(out: &mut String, micros: i64)
    ensures
        final(out)@ == old(out)@ + seconds_text(micros as int),
{
    let mag: u64 = if micros < 0 {
        (-(micros as i128)) as u64
    } else {
        micros as u64
    };
    let ghost start = out@;
    if micros < 0 {
        proof {
            reveal_strlit("-");
        }
        out.append("-");
    }
    push_decimal(out, mag / 1_000_000);
    proof {
        reveal_strlit(".");
    }
    out.append(".");
    push_fixed_digits(out, mag % 1_000_000, 6);
    proof {
        let sign: Seq<char> = if micros < 0 { seq!['-'] } else { Seq::empty() };
        assert(out@ =~= start + (sign + decimal((mag / 1_000_000) as nat) + seq!['.'] + fixed_digits((mag % 1_000_000) as nat, 6)));
    }
}

/// `needle` occurs in `hay` as a contiguous run of characters.
pub open spec fn contains_text(hay: Seq<char>, needle: Seq<char>) -> bool {
    exists|i: int| 0 <= i && i + needle.len() <= hay.len() && #[trigger] hay.subrange(i, i + needle.len()) == needle
}

/// Whether `needle` occurs in `hay`.
pub fn find_text(hay: &str, needle: &str) -> (r: bool)
    ensures
        r == contains_text(hay@, needle@),
{
    let n = hay.unicode_len();
    let m = needle.unicode_len();
    if m > n {
        proof {
            assert forall|i: int| 0 <= i && i + needle@.len() <= hay@.len() implies #[trigger] hay@.subrange(i, i + needle@.len()) != needle@ by {}
        }
        return false;
    }
    if m == 0 {
        assert(hay@.subrange(0int, 0int + needle@.len()) =~= needle@);
        assert(contains_text(hay@, needle@));
        return true;
    }
    let mut i: usize = 0;
    while i <= n - m
        invariant
            1 <= m <= n,
            n == hay@.len(),
            m == needle@.len(),
            i <= n - m + 1,
            forall|k: int| 0 <= k < i ==> #[trigger] hay@.subrange(k, k + m) != needle@,
        decreases n - m + 1 - i,
    {
        let mut j: usize = 0;
        let mut same = true;
        while j < m
            invariant
                j <= m,
                i + m <= n,
                n == hay@.len(),
                m == needle@.len(),
                same ==> forall|t: int| 0 <= t < j ==> hay@[i + t] == needle@[t],
                !same ==> hay@.subrange(i as int, i + m) != needle@,
            decreases m - j,
        {
            if same && hay.get_char(i + j) != needle.get_char(j) {
                same = false;
                assert(hay@.subrange(i as int, i + m)[j as int] != needle@[j as int]);
            }
            j = j + 1;
        }
        if same {
            assert(hay@.subrange(i as int, i + m) =~= needle@);
            return true;
        }
        i = i + 1;
    }
    proof {
        assert forall|k: int| 0 <= k && k + needle@.len() <= hay@.len() implies #[trigger] hay@.subrange(k, k + needle@.len()) != needle@ by {
            assert(k < i);
        }
    }
    false
}

/// The position of the first occurrence of `needle` in `hay` at or after `i`.
pub open spec fn first_index_of(hay: Seq<char>, needle: Seq<char>, i: int) -> Option<int>
    decreases hay.len() + 1 - i,
{
    if i < 0 || i + needle.len() > hay.len() {
        None
    } else if hay.subrange(i, i + needle.len()) == needle {
        Some(i)
    } else {
        first_index_of(hay, needle, i + 1)
    }
}

/// Position of the first occurrence of `needle` in `hay` at or after `from`.
pub fn index_of(hay: &str, needle: &str, from: usize) -> (r: Option<usize>)
    ensures
        r is None <==> first_index_of(hay@, needle@, from as int) is None,
        r matches Some(i) ==> first_index_of(hay@, needle@, from as int) == Some(i as int) && from <= i && i + needle@.len() <= hay@.len() && hay@.subrange(i as int, i + needle@.len()) == needle@,
{
    let n = hay.unicode_len();
    let m = needle.unicode_len();
    let mut i = from;
    while i <= n && m <= n - i
        invariant
            from <= i,
            n == hay@.len(),
            m == needle@.len(),
            first_index_of(hay@, needle@, from as int) == first_index_of(hay@, needle@, i as int),
        decreases n + 1 - i,
    {
        let mut j: usize = 0;
        let mut same = true;
        while j < m
            invariant
                j <= m,
                i + m <= n,
                n == hay@.len(),
                m == needle@.len(),
                j == 0 ==> same,
                same ==> forall|t: int| 0 <= t < j ==> hay@[i + t] == needle@[t],
                !same ==> hay@.subrange(i as int, i + m) != needle@,
            decreases m - j,
        {
            if same && hay.get_char(i + j) != needle.get_char(j) {
                same = false;
                assert(hay@.subrange(i as int, i + m)[j as int] != needle@[j as int]);
            }
            j = j + 1;
        }
        if same {
            assert(hay@.subrange(i as int, i + m) =~= needle@);
            return Some(i);
        }
        if i == n {
            return None;
        }
        i = i + 1;
    }
    None
}

pub open spec fn is_digit_char(c: char) -> bool {
    '0' <= c <= '9'
}

pub open spec fn char_digit_value(c: char) -> int {
    (c as u32) - ('0' as u32)
}

/// The end of the run of ASCII digits that starts at `j`.
pub open spec fn char_digits_end(s: Seq<char>, j: int) -> int
    decreases s.len() - j,
{
    if 0 <= j < s.len() && is_digit_char(s[j]) {
        char_digits_end(s, j + 1)
    } else {
        j
    }
}

/// The number written by the digits `s[from..to)`.
pub open spec fn char_digits_value(s: Seq<char>, from: int, to: int) -> nat
    decreases to - from,
{
    if to <= from {
        0
    } else {
        (char_digits_value(s, from, to - 1) * 10 + char_digit_value(s[to - 1])) as nat
    }
}

/// `s` is a non-empty run of ASCII digits.
pub open spec fn all_digits(s: Seq<char>) -> bool {
    s.len() > 0 && forall|k: int| 0 <= k < s.len() ==> is_digit_char(#[trigger] s[k])
}

proof fn lemma_char_digits_run(s: Seq<char>, j: int, k: int)
    requires
        0 <= j <= k < char_digits_end(s, j),
    ensures
        is_digit_char(s[k]),
        k < s.len(),
    decreases k - j,
{
    if j < k {
        lemma_char_digits_run(s, j + 1, k);
    }
}

/// `char_digits_end(s@, j)`, and the digits there.
pub fn char_digits_end_from(s: &str, j: usize) -> (r: usize)
    requires
        j <= s@.len(),
    ensures
        r == char_digits_end(s@, j as int),
        j <= r <= s@.len(),
        forall|k: int| j <= k < r ==> is_digit_char(#[trigger] s@[k]),
{
    let n = s.unicode_len();
    let mut k = j;
    while k < n && '0' <= s.get_char(k) && s.get_char(k) <= '9'
        invariant
            j <= k <= n,
            n == s@.len(),
            char_digits_end(s@, j as int) == char_digits_end(s@, k as int),
            forall|t: int| j <= t < k ==> is_digit_char(#[trigger] s@[t]),
        decreases n - k,
    {
        k = k + 1;
    }
    k
}

/// `min(char_digits_value(s@, from, to), cap)` of a run of digits.
pub fn char_digits_value_capped(s: &str, from: usize, to: usize, cap: u128) -> (r: u128)
    requires
        from <= to <= s@.len(),
        forall|k: int| from <= k < to ==> is_digit_char(#[trigger] s@[k]),
        cap <= u64::MAX as u128 + 1,
    ensures
        r as int == (if char_digits_value(s@, from as int, to as int) <= cap { char_digits_value(s@, from as int, to as int) as int } else { cap as int }),
{
    let mut acc: u128 = 0;
    let mut k = from;
    while k < to
        invariant
            from <= k <= to <= s@.len(),
            forall|k: int| from <= k < to ==> is_digit_char(#[trigger] s@[k]),
            cap <= u64::MAX as u128 + 1,
            acc as int == (if char_digits_value(s@, from as int, k as int) <= cap { char_digits_value(s@, from as int, k as int) as int } else { cap as int }),
        decreases to - k,
    {
        let c = s.get_char(k);
        assert(is_digit_char(s@[k as int]));
        let d = (c as u32 - '0' as u32) as u128;
        let next = acc * 10 + d;
        acc = if next < cap { next } else { cap };
        k = k + 1;
    }
    acc
}

/// What `str::to_lowercase` makes of a string.
pub uninterp spec fn lowercase_of(s: Seq<char>) -> Seq<char>;

/// Relies on `str::to_lowercase`: its result depends on the characters
/// alone.
#[verifier::external_body]
pub(crate) fn to_lowercase(s: &str) -> (r: String)
    ensures
        r@ == lowercase_of(s@),
{
    s.to_lowercase()
}

/// Decimal form of an integer, with a leading `-` when negative.
pub open spec fn signed_decimal(v: int) -> Seq<char> {
    if v < 0 {
        seq!['-'] + decimal((-v) as nat)
    } else {
        decimal(v as nat)
    }
}

/// Appends the decimal form of `v` to `out`.
pub fn push_signed(out: &mut String, v: i64)
    ensures
        final(out)@ == old(out)@ + signed_decimal(v as int),
{
    if v < 0 {
        proof {
            reveal_strlit("-");
        }
        out.append("-");
        let ghost mid = out@;
        push_decimal(out, (-(v as i128)) as u64);
        assert(out@ =~= old(out)@ + signed_decimal(v as int));
    } else {
        push_decimal(out, v as u64);
    }
}

/// The views of a list of strings.
pub open spec fn string_views(v: Seq<String>) -> Seq<Seq<char>> {
    v.map_values(|s: String| s@)
}

/// Whether one of the strings is `name`.
pub fn contains_name(v: &Vec<String>, name: &str) -> (r: bool)
    ensures
        r == string_views(v@).contains(name@),
{
    let target = String::from_str(name);
    let mut i: usize = 0;
    while i < v.len()
        invariant
            i <= v@.len(),
            target@ == name@,
            forall|k: int| 0 <= k < i ==> v@[k]@ != name@,
        decreases v@.len() - i,
    {
        if v[i] == target {
            assert(string_views(v@)[i as int] == name@);
            return true;
        }
        i = i + 1;
    }
    proof {
        if string_views(v@).contains(name@) {
            let k = choose|k: int| 0 <= k < string_views(v@).len() && string_views(v@)[k] == name@;
            assert(v@[k]@ == name@);
        }
    }
    false
}

/// The characters of a string, in order.
pub fn chars_of(s: &str) -> (r: Vec<char>)
    ensures
        r@ == s@,
{
    broadcast use vstd::string::axiom_spec_iter, vstd::string::next_postcondition;

    let n = s.unicode_len();
    let mut it = s.chars();
    let mut out: Vec<char> = Vec::new();
    let mut i: usize = 0;
    while i < n
        invariant
            i <= n,
            n == s@.len(),
            out@ == s@.subrange(0, i as int),
            it.obeys_prophetic_iter_laws(),
            it.remaining() == s@.subrange(i as int, n as int),
        decreases n - i,
    {
        match it.next() {
            Some(c) => {
                assert(c == s@[i as int]);
                out.push(c);
                assert(out@ =~= s@.subrange(0, i + 1));
                assert(it.remaining() =~= s@.subrange(i + 1, n as int));
            },
            None => {
                assert(false);
            },
        }
        i = i + 1;
    }
    assert(out@ =~= s@);
    out
}

/// Relies on `String::push`: the character is appended.
#[verifier::external_body]
pub(crate) fn push_char(s: &mut String, c: char)
    ensures
        final(s)@ == old(s)@.push(c),
{
    s.push(c);
}

/// The first `k` digits of `s[from..to)` read as a `k`-digit number,
/// padded with zeros on the right.
pub open spec fn char_fraction(s: Seq<char>, from: int, to: int, k: nat) -> nat
    decreases k,
{
    if k == 0 {
        0
    } else {
        let d: int = if from + k - 1 < to { char_digit_value(s[from + k - 1]) } else { 0 };
        (char_fraction(s, from, to, (k - 1) as nat) * 10 + d) as nat
    }
}

/// `char_fraction(s@, from, to, k)` of a run of digits.
pub fn char_fraction_of(s: &str, from: usize, to: usize, k: u32) -> (r: u64)
    requires
        from <= to <= s@.len(),
        forall|i: int| from <= i < to ==> is_digit_char(#[trigger] s@[i]),
        k <= 6,
    ensures
        r == char_fraction(s@, from as int, to as int, k as nat),
        r < 1_000_000,
{
    let mut acc: u64 = 0;
    let mut i: u32 = 0;
    while i < k
        invariant
            i <= k <= 6,
            from <= to <= s@.len(),
            forall|i: int| from <= i < to ==> is_digit_char(#[trigger] s@[i]),
            acc == char_fraction(s@, from as int, to as int, i as nat),
            i == 0 ==> acc == 0,
            i <= 5 ==> acc < 100_000,
            i <= 4 ==> acc < 10_000,
            i <= 3 ==> acc < 1000,
            i <= 2 ==> acc < 100,
            i <= 1 ==> acc < 10,
            acc < 1_000_000,
        decreases k - i,
    {
        let d: u64 = if (i as usize) < to - from {
            assert(is_digit_char(s@[from + i]));
            (s.get_char(from + i as usize) as u32 - '0' as u32) as u64
        } else {
            0
        };
        acc = acc * 10 + d;
        i = i + 1;
    }
    acc
}

} // verus!
