//! The segment manifest: the main track's clips, ordered by start time,
//! resolved to playable paths and written in the concat list format that
//! the encoder reads.

use crate::media::{playable_path, MediaClip};
use crate::text::{push_seconds, seconds_text};
use crate::timeline::{TimelineClip, Track, TrackType};
use vstd::prelude::*;
use vstd::set_lib::{lemma_int_range, lemma_len_subset, lemma_subset_equality, set_int_range};

verus! {

/// Why a manifest could not be built.
#[derive(Debug, Clone, PartialEq, Eq)]
pub enum ManifestError {
    /// No track of type `Main` exists.
    NoMainTrack,
    /// A clip refers to this media id, which the library does not hold.
    MediaNotFound(String),
}

impl ManifestError {
    /// A message for the user.
    pub fn message(&self) -> (r: String)
        ensures
            self is NoMainTrack ==> r@ == "No main track found"@,
            self matches ManifestError::MediaNotFound(id) ==> r@ == "Media clip not found: "@ + id@,
    {
        match self {
            ManifestError::NoMainTrack => String::from_str("No main track found"),
            ManifestError::MediaNotFound(id) => {
                let mut m = String::from_str("Media clip not found: ");
                m.append(id.as_str());
                m
            },
        }
    }
}

/// File name of the manifest inside its scratch directory.
pub const MANIFEST_FILE_NAME: &'static str = "concat.txt";

// ----- Track selection -----

/// Whether a track is of type `Main`.
pub open spec fn is_main(t: Track) -> bool {
    t.track_type == TrackType::Main
}

/// Whether any track is of type `Main`.
pub open spec fn has_main_track(tracks: Seq<Track>) -> bool {
    exists|i: int| 0 <= i < tracks.len() && is_main(#[trigger] tracks[i])
}

/// Track `i` is the one exported: a main track with the most clips, and
/// the earliest such track in input order when several tie.
pub open spec fn is_selected_main(tracks: Seq<Track>, i: int) -> bool {
    &&& 0 <= i < tracks.len()
    &&& is_main(tracks[i])
    &&& forall|j: int| 0 <= j < tracks.len() && is_main(#[trigger] tracks[j])
        ==> tracks[j].clips@.len() <= tracks[i].clips@.len()
    &&& forall|j: int| 0 <= j < i && is_main(#[trigger] tracks[j])
        ==> tracks[j].clips@.len() < tracks[i].clips@.len()
}

/// At most one track is the selected main track.
pub proof fn lemma_selected_main_unique(tracks: Seq<Track>, i: int, j: int)
    requires
        is_selected_main(tracks, i),
        is_selected_main(tracks, j),
    ensures
        i == j,
{
    if i < j {
        assert(is_main(tracks[i]));
    } else if j < i {
        assert(is_main(tracks[j]));
    }
}

/// Index of the track to export, or `None` when there is no main track.
pub fn select_main_track(tracks: &[Track]) -> (r: Option<usize>)
    ensures
        r is None <==> !has_main_track(tracks@),
        r matches Some(i) ==> is_selected_main(tracks@, i as int),
{
    let mut best: Option<usize> = None;
    let mut i: usize = 0;
    while i < tracks.len()
        invariant
            i <= tracks@.len(),
            best is None <==> !(exists|j: int| 0 <= j < i && is_main(#[trigger] tracks@[j])),
            best matches Some(b) ==> b < i && is_selected_main(tracks@.subrange(0, i as int), b as int),
        decreases tracks@.len() - i,
    {
        let ghost pre = tracks@.subrange(0, i as int);
        let ghost post = tracks@.subrange(0, i + 1);
        assert(forall|j: int| 0 <= j < i ==> post[j] == pre[j] && pre[j] == tracks@[j]);
        assert(post[i as int] == tracks@[i as int]);
        if tracks[i].track_type == TrackType::Main {
            match best {
                None => {
                    best = Some(i);
                },
                Some(b) => {
                    if tracks[i].clips.len() > tracks[b].clips.len() {
                        best = Some(i);
                    }
                },
            }
        }
        i = i + 1;
    }
    assert(tracks@.subrange(0, tracks@.len() as int) =~= tracks@);
    best
}

// ----- Ordering -----

/// Clip `a` comes before clip `b`: it starts earlier, or at the same time
/// and earlier in the track.
pub open spec fn clip_before(clips: Seq<TimelineClip>, a: int, b: int) -> bool {
    clips[a].start_time < clips[b].start_time || (clips[a].start_time == clips[b].start_time && a < b)
}

/// `order` lists every clip index once, ascending by start time, with
/// equal start times kept in track order.
pub open spec fn is_stable_order(clips: Seq<TimelineClip>, order: Seq<usize>) -> bool {
    &&& order.len() == clips.len()
    &&& order.no_duplicates()
    &&& forall|k: int| 0 <= k < order.len() ==> order[k] < clips.len()
    &&& forall|k: int, l: int| 0 <= k < l < order.len() ==> clip_before(clips, #[trigger] order[k] as int, #[trigger] order[l] as int)
}

proof fn lemma_order_covers(clips: Seq<TimelineClip>, order: Seq<usize>, x: int)
    requires
        is_stable_order(clips, order),
        0 <= x < clips.len(),
    ensures
        exists|k: int| 0 <= k < order.len() && order[k] == x,
{
    let n = clips.len() as int;
    let s = order.map_values(|v: usize| v as int);
    assert forall|i: int, j: int| 0 <= i < s.len() && 0 <= j < s.len() && i != j implies s[i] != s[j] by {
        assert(order[i] != order[j]);
    }
    assert(s.no_duplicates());
    s.unique_seq_to_set();
    s.lemma_cardinality_of_set();
    lemma_int_range(0, n);
    assert forall|v: int| s.to_set().contains(v) implies set_int_range(0, n).contains(v) by {
        let k = choose|k: int| 0 <= k < s.len() && s[k] == v;
        assert(order[k] < clips.len());
    }
    lemma_len_subset(s.to_set(), set_int_range(0, n));
    lemma_subset_equality(s.to_set(), set_int_range(0, n));
    assert(set_int_range(0, n).contains(x));
    assert(s.to_set().contains(x));
    let k = choose|k: int| 0 <= k < s.len() && s[k] == x;
    assert(order[k] == x);
}

proof fn lemma_stable_prefix(clips: Seq<TimelineClip>, o1: Seq<usize>, o2: Seq<usize>, k: int)
    requires
        is_stable_order(clips, o1),
        is_stable_order(clips, o2),
        0 <= k < o1.len(),
    ensures
        forall|j: int| 0 <= j <= k ==> o1[j] == o2[j],
    decreases k,
{
    if k > 0 {
        lemma_stable_prefix(clips, o1, o2, k - 1);
    }
    let a = o1[k];
    let b = o2[k];
    if a != b {
        if clip_before(clips, a as int, b as int) {
            lemma_order_covers(clips, o2, a as int);
            let j = choose|j: int| 0 <= j < o2.len() && o2[j] == a;
            if j < k {
                assert(o1[j] == o2[j]);
                assert(o1[j] == o1[k]);
            } else {
                assert(clip_before(clips, o2[k] as int, o2[j] as int));
            }
        } else {
            lemma_order_covers(clips, o1, b as int);
            let j = choose|j: int| 0 <= j < o1.len() && o1[j] == b;
            if j < k {
                assert(o1[j] == o2[j]);
                assert(o2[j] == o2[k]);
            } else {
                assert(clip_before(clips, o1[k] as int, o1[j] as int));
            }
        }
    }
}

/// The manifest order of a track's clips is determined: any two stable
/// orders of the same clips are equal.
pub proof fn lemma_stable_order_unique(clips: Seq<TimelineClip>, o1: Seq<usize>, o2: Seq<usize>)
    requires
        is_stable_order(clips, o1),
        is_stable_order(clips, o2),
    ensures
        o1 == o2,
{
    if o1.len() > 0 {
        lemma_stable_prefix(clips, o1, o2, o1.len() - 1);
    }
    assert(o1 =~= o2);
}

/// The clip indices in the order the manifest lists them.
pub fn stable_order(clips: &Vec<TimelineClip>) -> (r: Vec<usize>)
    ensures
        is_stable_order(clips@, r@),
{
    let n = clips.len();
    let mut order: Vec<usize> = Vec::new();
    let mut i: usize = 0;
    while i < n
        invariant
            i <= n,
            n == clips@.len(),
            order@.len() == i,
            order@.no_duplicates(),
            forall|k: int| 0 <= k < order@.len() ==> order@[k] < i,
            forall|k: int, l: int| 0 <= k < l < order@.len() ==> clip_before(clips@, #[trigger] order@[k] as int, #[trigger] order@[l] as int),
        decreases n - i,
    {
        let key = clips[i].start_time;
        let mut p: usize = 0;
        while p < order.len() && clips[order[p]].start_time <= key
            invariant
                p <= order@.len(),
                n == clips@.len(),
                i < n,
                key == clips@[i as int].start_time,
                forall|k: int| 0 <= k < order@.len() ==> order@[k] < i,
                forall|k: int| 0 <= k < p ==> clips@[#[trigger] order@[k] as int].start_time <= key,
            decreases order@.len() - p,
        {
            p = p + 1;
        }
        let ghost old_order = order@;
        order.insert(p, i);
        proof {
            assert(order@ == old_order.insert(p as int, i));
            assert forall|k: int, l: int| 0 <= k < l < order@.len() implies clip_before(clips@, #[trigger] order@[k] as int, #[trigger] order@[l] as int) by {
                if l < p {
                    assert(order@[k] == old_order[k] && order@[l] == old_order[l]);
                } else if l == p {
                    assert(order@[k] == old_order[k]);
                } else if k == p {
                    assert(order@[l] == old_order[l - 1]);
                    assert(clips@[old_order[p as int] as int].start_time > key);
                    if l - 1 > p {
                        assert(clip_before(clips@, old_order[p as int] as int, old_order[l - 1] as int));
                    }
                } else if k < p {
                    assert(order@[k] == old_order[k] && order@[l] == old_order[l - 1]);
                } else {
                    assert(order@[k] == old_order[k - 1] && order@[l] == old_order[l - 1]);
                }
            }
            assert forall|k: int, l: int| 0 <= k < l < order@.len() implies order@[k] != order@[l] by {
                assert(clip_before(clips@, order@[k] as int, order@[l] as int));
            }
            assert forall|k: int| 0 <= k < order@.len() implies order@[k] < i + 1 by {
                if k < p {
                    assert(order@[k] == old_order[k]);
                } else if k > p {
                    assert(order@[k] == old_order[k - 1]);
                }
            }
        }
        i = i + 1;
    }
    order
}

// ----- Media lookup -----

/// Index of the first library item with the given id, searching from `from`.
pub open spec fn first_media_from(library: Seq<MediaClip>, id: Seq<char>, from: int) -> Option<int>
    decreases library.len() - from,
{
    if from < 0 || from >= library.len() {
        None
    } else if library[from].id@ == id {
        Some(from)
    } else {
        first_media_from(library, id, from + 1)
    }
}

/// Index of the first library item with the given id.
pub open spec fn media_index(library: Seq<MediaClip>, id: Seq<char>) -> Option<int> {
    first_media_from(library, id, 0)
}

proof fn lemma_first_media_found(library: Seq<MediaClip>, id: Seq<char>, from: int)
    requires
        0 <= from,
    ensures
        first_media_from(library, id, from) matches Some(k) ==> from <= k < library.len() && library[k].id@ == id,
    decreases library.len() - from,
{
    if from < library.len() && library[from].id@ != id {
        lemma_first_media_found(library, id, from + 1);
    }
}

/// Position of the first library item whose id is `id`.
pub fn find_media(library: &[MediaClip], id: &String) -> (r: Option<usize>)
    ensures
        r is None <==> media_index(library@, id@) is None,
        r matches Some(k) ==> media_index(library@, id@) == Some(k as int) && k < library@.len() && library@[k as int].id@ == id@,
{
    proof {
        lemma_first_media_found(library@, id@, 0);
    }
    let mut i: usize = 0;
    while i < library.len()
        invariant
            i <= library@.len(),
            media_index(library@, id@) == first_media_from(library@, id@, i as int),
        decreases library@.len() - i,
    {
        if library[i].id == *id {
            return Some(i);
        }
        i = i + 1;
    }
    None
}

// ----- Text -----

/// A path with each single quote written as `'\''`: close the quoted
/// string, an escaped quote, then open it again.
pub open spec fn escape_quotes(s: Seq<char>) -> Seq<char>
    decreases s.len(),
{
    if s.len() == 0 {
        Seq::empty()
    } else {
        let head: Seq<char> = if s[0] == '\'' { seq!['\'', '\\', '\'', '\''] } else { seq![s[0]] };
        head + escape_quotes(s.drop_first())
    }
}

/// How a reader of the manifest decodes a quoted token: outside quotes a
/// backslash takes the next character literally, and a single quote opens
/// a span that runs to the next single quote.
pub open spec fn unquote(s: Seq<char>, quoted: bool) -> Seq<char>
    decreases s.len(),
{
    if s.len() == 0 {
        Seq::empty()
    } else if quoted {
        if s[0] == '\'' {
            unquote(s.drop_first(), false)
        } else {
            seq![s[0]] + unquote(s.drop_first(), true)
        }
    } else if s[0] == '\'' {
        unquote(s.drop_first(), true)
    } else if s[0] == '\\' && s.len() > 1 {
        seq![s[1]] + unquote(s.subrange(2, s.len() as int), false)
    } else {
        seq![s[0]] + unquote(s.drop_first(), false)
    }
}

/// A path as it stands in a manifest entry: escaped and in single quotes.
pub open spec fn quoted_path(path: Seq<char>) -> Seq<char> {
    seq!['\''] + escape_quotes(path) + seq!['\'']
}

proof fn lemma_unquote_escaped(p: Seq<char>)
    ensures
        unquote(escape_quotes(p) + seq!['\''], true) == p,
    decreases p.len(),
{
    let tail = escape_quotes(p) + seq!['\''];
    if p.len() == 0 {
        assert(tail =~= seq!['\'']);
        assert(unquote(tail, true) == unquote(tail.drop_first(), false));
        assert(tail.drop_first() =~= Seq::<char>::empty());
    } else {
        let rest = escape_quotes(p.drop_first()) + seq!['\''];
        lemma_unquote_escaped(p.drop_first());
        if p[0] == '\'' {
            let q: Seq<char> = seq!['\'', '\\', '\'', '\''];
            assert(tail =~= q + rest);
            assert(tail.drop_first() =~= seq!['\\', '\'', '\''] + rest);
            let t1 = tail.drop_first();
            assert(t1.subrange(2, t1.len() as int) =~= seq!['\''] + rest);
            let t2 = t1.subrange(2, t1.len() as int);
            assert(t2.drop_first() =~= rest);
            assert(unquote(t2, false) == unquote(rest, true));
            assert(unquote(t1, false) == seq!['\''] + unquote(t2, false));
            assert(unquote(tail, true) == unquote(t1, false));
            assert(seq!['\''] + p.drop_first() =~= p);
        } else {
            assert(tail =~= seq![p[0]] + rest);
            assert(tail.drop_first() =~= rest);
            assert(seq![p[0]] + p.drop_first() =~= p);
        }
    }
}

/// A reader of the manifest recovers every path exactly as it was given.
pub proof fn lemma_quoted_path_round_trip(path: Seq<char>)
    ensures
        unquote(quoted_path(path), false) == path,
{
    let s = quoted_path(path);
    assert(s.drop_first() =~= escape_quotes(path) + seq!['\'']);
    lemma_unquote_escaped(path);
}

proof fn lemma_escape_push(s: Seq<char>, c: char)
    ensures
        escape_quotes(s.push(c)) == escape_quotes(s) + escape_quotes(seq![c]),
    decreases s.len(),
{
    if s.len() == 0 {
        assert(s.push(c) =~= seq![c]);
        assert(escape_quotes(s) =~= Seq::<char>::empty());
        assert(escape_quotes(s) + escape_quotes(seq![c]) =~= escape_quotes(seq![c]));
    } else {
        lemma_escape_push(s.drop_first(), c);
        assert(s.push(c).drop_first() =~= s.drop_first().push(c));
        assert(s.push(c)[0] == s[0]);
        let head: Seq<char> = if s[0] == '\'' { seq!['\'', '\\', '\'', '\''] } else { seq![s[0]] };
        assert(escape_quotes(s.push(c)) =~= head + escape_quotes(s.drop_first().push(c)));
        assert(escape_quotes(s) =~= head + escape_quotes(s.drop_first()));
    }
}

proof fn lemma_escape_one(c: char)
    ensures
        escape_quotes(seq![c]) == (if c == '\'' { seq!['\'', '\\', '\'', '\''] } else { seq![c] }),
{
    let s = seq![c];
    assert(s.drop_first() =~= Seq::<char>::empty());
    assert(escape_quotes(s.drop_first()) =~= Seq::<char>::empty());
    let head: Seq<char> = if c == '\'' { seq!['\'', '\\', '\'', '\''] } else { seq![c] };
    assert(escape_quotes(s) =~= head + Seq::<char>::empty());
}

/// Appends `escape_quotes(path)` to `out`.
pub fn push_escaped(out: &mut String, path: &str)
    ensures
        final(out)@ == old(out)@ + escape_quotes(path@),
{
    let n = path.unicode_len();
    let mut i: usize = 0;
    proof {
        assert(path@.subrange(0, 0) =~= Seq::<char>::empty());
        assert(old(out)@ + escape_quotes(Seq::<char>::empty()) =~= old(out)@);
    }
    while i < n
        invariant
            i <= n,
            n == path@.len(),
            out@ == old(out)@ + escape_quotes(path@.subrange(0, i as int)),
        decreases n - i,
    {
        let c = path.get_char(i);
        proof {
            assert(path@.subrange(0, i + 1) =~= path@.subrange(0, i as int).push(c));
            lemma_escape_push(path@.subrange(0, i as int), c);
            lemma_escape_one(c);
            reveal_strlit("'\\''");
        }
        if c == '\'' {
            out.append("'\\''");
        } else {
            out.append(path.substring_char(i, i + 1));
        }
        proof {
            assert(out@ =~= old(out)@ + escape_quotes(path@.subrange(0, i + 1)));
        }
        i = i + 1;
    }
    assert(path@.subrange(0, n as int) =~= path@);
}

/// First line of every manifest.
pub open spec fn manifest_header() -> Seq<char> {
    "ffconcat version 1.0\n"@
}

/// The three lines of one segment: quoted path, trim-in, trim-out.
pub open spec fn entry_text(path: Seq<char>, in_point: int, out_point: int) -> Seq<char> {
    "file "@ + quoted_path(path) + "\n"@ + "inpoint "@ + seconds_text(in_point) + "\n"@ + "outpoint "@
        + seconds_text(out_point) + "\n"@
}

/// The path a clip resolves to through the library.
pub open spec fn clip_path(library: Seq<MediaClip>, c: TimelineClip) -> Seq<char> {
    playable_path(library[media_index(library, c.media_clip_id@).unwrap()])
}

/// Whether the library holds the media a clip refers to.
pub open spec fn clip_resolves(library: Seq<MediaClip>, c: TimelineClip) -> bool {
    media_index(library, c.media_clip_id@) is Some
}

/// The entries of the first `k` clips of `order`.
pub open spec fn entries_text(clips: Seq<TimelineClip>, order: Seq<usize>, library: Seq<MediaClip>, k: nat) -> Seq<char>
    decreases k,
{
    if k == 0 {
        Seq::empty()
    } else {
        let c = clips[order[k - 1] as int];
        entries_text(clips, order, library, (k - 1) as nat) + entry_text(clip_path(library, c), c.in_point as int, c.out_point as int)
    }
}

/// The manifest of the clips in `order`.
pub open spec fn manifest_text(clips: Seq<TimelineClip>, order: Seq<usize>, library: Seq<MediaClip>) -> Seq<char> {
    manifest_header() + entries_text(clips, order, library, order.len())
}

/// The clips of the track that is exported.
pub open spec fn selected_clips(tracks: Seq<Track>) -> Seq<TimelineClip> {
    tracks[choose|i: int| is_selected_main(tracks, i)].clips@
}

/// The first clip in `order` whose media is missing is at position `k`.
pub open spec fn first_unresolved_at(clips: Seq<TimelineClip>, order: Seq<usize>, library: Seq<MediaClip>, k: int) -> bool {
    &&& 0 <= k < order.len()
    &&& !clip_resolves(library, clips[order[k] as int])
    &&& forall|j: int| 0 <= j < k ==> clip_resolves(library, #[trigger] clips[order[j] as int])
}

/// What building the manifest of `tracks` against `library` gives: `NoMainTrack`
/// exactly when there is no main track; `MediaNotFound` with the media id of
/// the first clip, in manifest order, that the library lacks; otherwise the
/// manifest text.
pub open spec fn is_manifest_outcome(tracks: Seq<Track>, library: Seq<MediaClip>, r: Result<String, ManifestError>) -> bool {
    &&& (r matches Err(ManifestError::NoMainTrack) <==> !has_main_track(tracks))
    &&& (r matches Err(ManifestError::MediaNotFound(id)) ==> exists|order: Seq<usize>, k: int|
            is_stable_order(selected_clips(tracks), order) && first_unresolved_at(selected_clips(tracks), order, library, k)
                && id@ == selected_clips(tracks)[order[k] as int].media_clip_id@)
    &&& (r matches Ok(text) ==> exists|order: Seq<usize>|
            is_stable_order(selected_clips(tracks), order)
                && (forall|k: int| 0 <= k < order.len() ==> clip_resolves(library, #[trigger] selected_clips(tracks)[order[k] as int]))
                && text@ == manifest_text(selected_clips(tracks), order, library))
}

/// When the exported track has a clip whose media the library lacks, the
/// manifest is not built: the outcome is `MediaNotFound`, never a text.
pub proof fn lemma_missing_media_fails(
    tracks: Seq<Track>,
    library: Seq<MediaClip>,
    r: Result<String, ManifestError>,
    j: int,
)
    requires
        is_manifest_outcome(tracks, library, r),
        has_main_track(tracks),
        0 <= j < selected_clips(tracks).len(),
        !clip_resolves(library, selected_clips(tracks)[j]),
    ensures
        r matches Err(ManifestError::MediaNotFound(_)),
{
    let clips = selected_clips(tracks);
    if r is Ok {
        let text = r->Ok_0;
        let order = choose|order: Seq<usize>|
            is_stable_order(clips, order)
                && (forall|k: int| 0 <= k < order.len() ==> clip_resolves(library, #[trigger] clips[order[k] as int]))
                && text@ == manifest_text(clips, order, library);
        lemma_order_covers(clips, order, j);
        let k = choose|k: int| 0 <= k < order.len() && order[k] == j;
        assert(clip_resolves(library, clips[order[k] as int]));
    }
}

/// Builds the manifest text for the main track. Fails with `NoMainTrack`
/// when there is none, and with `MediaNotFound` for the first clip, in
/// manifest order, whose media the library lacks; nothing is produced then.
pub fn build_manifest(tracks: &[Track], library: &[MediaClip]) -> (r: Result<String, ManifestError>)
    ensures
        is_manifest_outcome(tracks@, library@, r),
{
    let m = match select_main_track(tracks) {
        None => {
            return Err(ManifestError::NoMainTrack);
        },
        Some(m) => m,
    };
    proof {
        let c = choose|i: int| is_selected_main(tracks@, i);
        lemma_selected_main_unique(tracks@, c, m as int);
    }
    let clips = &tracks[m].clips;
    let ghost cs = clips@;
    assert(cs == selected_clips(tracks@));
    let order = stable_order(clips);
    let mut text = String::from_str("ffconcat version 1.0\n");
    let mut k: usize = 0;
    while k < order.len()
        invariant
            k <= order@.len(),
            cs == clips@,
            cs == selected_clips(tracks@),
            has_main_track(tracks@),
            is_stable_order(cs, order@),
            forall|j: int| 0 <= j < k ==> clip_resolves(library@, #[trigger] cs[order@[j] as int]),
            text@ == manifest_header() + entries_text(cs, order@, library@, k as nat),
        decreases order@.len() - k,
    {
        let c = &clips[order[k]];
        match find_media(library, &c.media_clip_id) {
            None => {
                let id = c.media_clip_id.clone();
                assert(first_unresolved_at(cs, order@, library@, k as int));
                assert(id@ == cs[order@[k as int] as int].media_clip_id@);
                return Err(ManifestError::MediaNotFound(id));
            },
            Some(j) => {
                let path = library[j].playable_path();
                let ghost before = text@;
                text.append("file '");
                push_escaped(&mut text, path.as_str());
                text.append("'\ninpoint ");
                push_seconds(&mut text, c.in_point);
                text.append("\noutpoint ");
                push_seconds(&mut text, c.out_point);
                text.append("\n");
                proof {
                    reveal_strlit("file '");
                    reveal_strlit("'\ninpoint ");
                    reveal_strlit("\noutpoint ");
                    reveal_strlit("\n");
                    reveal_strlit("file ");
                    reveal_strlit("inpoint ");
                    reveal_strlit("outpoint ");
                    assert(media_index(library@, c.media_clip_id@) == Some(j as int));
                    assert(playable_path(library@[j as int]) == path@);
                    assert(clip_path(library@, *c) == path@);
                    assert(text@ =~= before + entry_text(path@, c.in_point as int, c.out_point as int));
                }
            },
        }
        k = k + 1;
    }
    Ok(text)
}

} // verus!
