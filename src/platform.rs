//! Platform recording back ends. The functions here answer for a platform
//! without a recording back end; `macos` and `windows` hold the others.

pub mod macos;
pub mod windows;

use crate::recording::{PermissionResult, PermissionStatus, RecordingSources};
use vstd::prelude::*;

verus! {

/// The answer of a platform without a recording back end.
pub open spec fn unsupported_text() -> Seq<char> {
    "Recording not supported on this platform"@
}

fn unsupported() -> (r: String)
    ensures
        r@ == unsupported_text(),
{
    String::from_str("Recording not supported on this platform")
}

/// Not supported on this platform.
pub fn request_permissions(permissions: Vec<String>) -> (r: Result<PermissionResult, String>)
    ensures
        r matches Err(e) && e@ == unsupported_text(),
{
    Err(unsupported())
}

/// Not supported on this platform.
pub fn list_sources() -> (r: Result<RecordingSources, String>)
    ensures
        r matches Err(e) && e@ == unsupported_text(),
{
    Err(unsupported())
}

/// Not supported on this platform.
pub fn start_recording(
    session_id: String,
    output_path: String,
    screen_source: Option<String>,
    camera_source: Option<String>,
    audio_sources: Vec<String>,
    resolution: String,
    fps: u32,
) -> (r: Result<(), String>)
    ensures
        r matches Err(e) && e@ == unsupported_text(),
{
    Err(unsupported())
}

/// Not supported on this platform.
pub fn stop_recording(session_id: String) -> (r: Result<(), String>)
    ensures
        r matches Err(e) && e@ == unsupported_text(),
{
    Err(unsupported())
}

/// The permission names a back end understands.
pub open spec fn known_permission(p: Seq<char>) -> bool {
    p == "screen"@ || p == "camera"@ || p == "microphone"@
}

/// The permissions granted for a list of known permission names.
pub open spec fn granted_for(perms: Seq<Seq<char>>) -> PermissionStatus {
    PermissionStatus { screen: perms.contains("screen"@), camera: perms.contains("camera"@), microphone: perms.contains("microphone"@) }
}

/// Grants each requested permission, as back ends that ask the system
/// only when capture starts do. The first unknown name is an error,
/// `Unknown permission: <name>`.
pub fn grant_permissions(permissions: &Vec<String>) -> (r: Result<PermissionResult, String>)
    ensures
        r is Ok <==> forall|i: int| 0 <= i < permissions@.len() ==> known_permission(#[trigger] permissions@[i]@),
        r matches Ok(res) ==> res.granted == granted_for(permissions@.map_values(|s: String| s@)),
        r matches Err(e) ==> exists|i: int|
            0 <= i < permissions@.len() && !known_permission(permissions@[i]@)
                && (forall|j: int| 0 <= j < i ==> known_permission(#[trigger] permissions@[j]@))
                && e@ == "Unknown permission: "@ + permissions@[i]@,
{
    let ghost views = permissions@.map_values(|s: String| s@);
    let screen_name = String::from_str("screen");
    let camera_name = String::from_str("camera");
    let microphone_name = String::from_str("microphone");
    let mut status = PermissionStatus { screen: false, camera: false, microphone: false };
    let mut i: usize = 0;
    while i < permissions.len()
        invariant
            i <= permissions@.len(),
            views == permissions@.map_values(|s: String| s@),
            screen_name@ == "screen"@,
            camera_name@ == "camera"@,
            microphone_name@ == "microphone"@,
            forall|j: int| 0 <= j < i ==> known_permission(#[trigger] permissions@[j]@),
            status == granted_for(views.subrange(0, i as int)),
        decreases permissions@.len() - i,
    {
        let p = &permissions[i];
        let ghost pre = views.subrange(0, i as int);
        let ghost post = views.subrange(0, i + 1);
        assert(post =~= pre.push(p@));
        if *p == screen_name {
            status.screen = true;
        } else if *p == camera_name {
            status.camera = true;
        } else if *p == microphone_name {
            status.microphone = true;
        } else {
            let mut e = String::from_str("Unknown permission: ");
            e.append(p.as_str());
            return Err(e);
        }
        proof {
            reveal_strlit("screen");
            reveal_strlit("camera");
            reveal_strlit("microphone");
            assert("screen"@[0] != "camera"@[0] && "screen"@[0] != "microphone"@[0] && "camera"@[0] != "microphone"@[0]);
            assert(post[i as int] == p@);
            assert(post.contains(p@));
            assert forall|x: Seq<char>| x != p@ implies (post.contains(x) <==> pre.contains(x)) by {
                if post.contains(x) {
                    let k = choose|k: int| 0 <= k < post.len() && post[k] == x;
                    assert(k < pre.len());
                    assert(pre[k] == x);
                }
                if pre.contains(x) {
                    let k = choose|k: int| 0 <= k < pre.len() && pre[k] == x;
                    assert(post[k] == x);
                }
            }
        }
        i = i + 1;
    }
    assert(views.subrange(0, permissions@.len() as int) =~= views);
    Ok(PermissionResult { granted: status })
}

/// A recording session and the handle of its capture process.
pub struct ActiveRecording<P> {
    pub session_id: String,
    pub process: P,
}

pub open spec fn sessions_unique<P>(entries: Seq<ActiveRecording<P>>) -> bool {
    forall|i: int, j: int|
        0 <= i < entries.len() && 0 <= j < entries.len() && #[trigger] entries[i].session_id@ == #[trigger] entries[j].session_id@
            ==> i == j
}

pub open spec fn holds_session<P>(entries: Seq<ActiveRecording<P>>, k: Seq<char>) -> bool {
    exists|i: int| 0 <= i < entries.len() && #[trigger] entries[i].session_id@ == k
}

pub open spec fn recordings_view<P>(entries: Seq<ActiveRecording<P>>) -> Map<Seq<char>, P> {
    Map::new(
        |k: Seq<char>| holds_session(entries, k),
        |k: Seq<char>| entries[choose|i: int| 0 <= i < entries.len() && #[trigger] entries[i].session_id@ == k].process,
    )
}

proof fn lemma_recording_at<P>(entries: Seq<ActiveRecording<P>>, i: int)
    requires
        sessions_unique(entries),
        0 <= i < entries.len(),
    ensures
        recordings_view(entries).contains_key(entries[i].session_id@),
        recordings_view(entries)[entries[i].session_id@] == entries[i].process,
{
    let k = entries[i].session_id@;
    assert(holds_session(entries, k));
    let j = choose|j: int| 0 <= j < entries.len() && #[trigger] entries[j].session_id@ == k;
    assert(entries[j].session_id@ == entries[i].session_id@);
}

proof fn lemma_recording_push<P>(old: Seq<ActiveRecording<P>>, e: ActiveRecording<P>)
    requires
        sessions_unique(old),
        !holds_session(old, e.session_id@),
    ensures
        sessions_unique(old.push(e)),
        recordings_view(old.push(e)) == recordings_view(old).insert(e.session_id@, e.process),
{
    let new = old.push(e);
    let n = old.len() as int;
    assert forall|a: int, b: int|
        0 <= a < new.len() && 0 <= b < new.len() && #[trigger] new[a].session_id@ == #[trigger] new[b].session_id@ implies a == b by {
        if a < n && b < n {
            assert(old[a].session_id@ == new[a].session_id@);
            assert(old[b].session_id@ == new[b].session_id@);
        } else if a < n {
            assert(old[a].session_id@ == e.session_id@);
        } else if b < n {
            assert(old[b].session_id@ == e.session_id@);
        }
    }
    let lhs = recordings_view(new);
    let rhs = recordings_view(old).insert(e.session_id@, e.process);
    assert forall|k: Seq<char>| lhs.contains_key(k) <==> rhs.contains_key(k) by {
        if holds_session(new, k) {
            let j = choose|j: int| 0 <= j < new.len() && #[trigger] new[j].session_id@ == k;
            if j < n {
                assert(old[j].session_id@ == k);
            }
        }
        if holds_session(old, k) {
            let j = choose|j: int| 0 <= j < old.len() && #[trigger] old[j].session_id@ == k;
            assert(new[j].session_id@ == k);
        }
        if k == e.session_id@ {
            assert(new[n].session_id@ == k);
        }
    }
    assert forall|k: Seq<char>| #[trigger] lhs.contains_key(k) implies lhs[k] == rhs[k] by {
        let j = choose|j: int| 0 <= j < new.len() && #[trigger] new[j].session_id@ == k;
        lemma_recording_at(new, j);
        if j < n {
            assert(old[j].session_id@ == k);
            lemma_recording_at(old, j);
        }
    }
    assert(lhs =~= rhs);
}

proof fn lemma_recording_remove<P>(old: Seq<ActiveRecording<P>>, i: int)
    requires
        sessions_unique(old),
        0 <= i < old.len(),
    ensures
        sessions_unique(old.remove(i)),
        recordings_view(old.remove(i)) == recordings_view(old).remove(old[i].session_id@),
{
    let new = old.remove(i);
    let gone = old[i].session_id@;
    assert forall|a: int, b: int|
        0 <= a < new.len() && 0 <= b < new.len() && #[trigger] new[a].session_id@ == #[trigger] new[b].session_id@ implies a == b by {
        let oa = if a < i { a } else { a + 1 };
        let ob = if b < i { b } else { b + 1 };
        assert(new[a] == old[oa]);
        assert(new[b] == old[ob]);
    }
    let lhs = recordings_view(new);
    let rhs = recordings_view(old).remove(gone);
    assert forall|k: Seq<char>| lhs.contains_key(k) <==> rhs.contains_key(k) by {
        if holds_session(new, k) {
            let j = choose|j: int| 0 <= j < new.len() && #[trigger] new[j].session_id@ == k;
            let oj = if j < i { j } else { j + 1 };
            assert(new[j] == old[oj]);
            assert(old[oj].session_id@ == k);
            assert(oj != i);
        }
        if holds_session(old, k) && k != gone {
            let j = choose|j: int| 0 <= j < old.len() && #[trigger] old[j].session_id@ == k;
            assert(j != i);
            let nj = if j < i { j } else { j - 1 };
            assert(new[nj] == old[j]);
            assert(new[nj].session_id@ == k);
        }
    }
    assert forall|k: Seq<char>| #[trigger] lhs.contains_key(k) implies lhs[k] == rhs[k] by {
        let j = choose|j: int| 0 <= j < new.len() && #[trigger] new[j].session_id@ == k;
        let oj = if j < i { j } else { j + 1 };
        assert(new[j] == old[oj]);
        lemma_recording_at(new, j);
        lemma_recording_at(old, oj);
    }
    assert(lhs =~= rhs);
}

/// The recordings in progress, keyed by session id, each with the handle
/// of its capture process.
pub struct ActiveRecordings<P> {
    entries: Vec<ActiveRecording<P>>,
}

impl<P> View for ActiveRecordings<P> {
    type V = Map<Seq<char>, P>;

    closed spec fn view(&self) -> Map<Seq<char>, P> {
        recordings_view(self.entries@)
    }
}

impl<P> ActiveRecordings<P> {
    /// Session ids are unique.
    pub closed spec fn wf(&self) -> bool {
        sessions_unique(self.entries@)
    }

    /// No recording in progress.
    pub fn new() -> (r: ActiveRecordings<P>)
        ensures
            r.wf(),
            r@ == Map::<Seq<char>, P>::empty(),
    {
        let r = ActiveRecordings { entries: Vec::new() };
        assert(r@ =~= Map::<Seq<char>, P>::empty());
        r
    }

    fn index_of(&self, session_id: &str) -> (r: Option<usize>)
        requires
            self.wf(),
        ensures
            r is None <==> !self@.contains_key(session_id@),
            r matches Some(i) ==> i < self.entries@.len() && self.entries@[i as int].session_id@ == session_id@,
    {
        let target = String::from_str(session_id);
        let mut i: usize = 0;
        while i < self.entries.len()
            invariant
                i <= self.entries@.len(),
                target@ == session_id@,
                sessions_unique(self.entries@),
                forall|j: int| 0 <= j < i ==> self.entries@[j].session_id@ != session_id@,
            decreases self.entries@.len() - i,
        {
            if self.entries[i].session_id == target {
                proof {
                    lemma_recording_at(self.entries@, i as int);
                }
                return Some(i);
            }
            i = i + 1;
        }
        None
    }

    /// Whether a recording with this session id is in progress.
    pub fn contains(&self, session_id: &str) -> (r: bool)
        requires
            self.wf(),
        ensures
            r == self@.contains_key(session_id@),
    {
        self.index_of(session_id).is_some()
    }

    /// Registers a started recording. A session id already present is
    /// refused, and the handle is handed back.
    pub fn insert(&mut self, session_id: String, process: P) -> (r: Result<(), P>)
        requires
            old(self).wf(),
        ensures
            final(self).wf(),
            old(self)@.contains_key(session_id@) ==> r == Err::<(), P>(process) && final(self)@ == old(self)@,
            !old(self)@.contains_key(session_id@) ==> r is Ok && final(self)@ == old(self)@.insert(session_id@, process),
    {
        if self.index_of(session_id.as_str()).is_some() {
            return Err(process);
        }
        let e = ActiveRecording { session_id, process };
        proof {
            lemma_recording_push(self.entries@, e);
        }
        self.entries.push(e);
        Ok(())
    }

    /// Takes a recording out, returning its process handle.
    pub fn remove(&mut self, session_id: &str) -> (r: Option<P>)
        requires
            old(self).wf(),
        ensures
            final(self).wf(),
            !old(self)@.contains_key(session_id@) ==> r is None && final(self)@ == old(self)@,
            old(self)@.contains_key(session_id@) ==> r == Some(old(self)@[session_id@])
                && final(self)@ == old(self)@.remove(session_id@),
    {
        match self.index_of(session_id) {
            None => None,
            Some(i) => {
                proof {
                    lemma_recording_at(self.entries@, i as int);
                    lemma_recording_remove(self.entries@, i as int);
                }
                let e = self.entries.remove(i);
                Some(e.process)
            },
        }
    }
}

/// How long a capture process may take to stop after being asked, in milliseconds.
pub const STOP_GRACE_MS: u64 = 5000;

/// How often a stopping capture process is checked, in milliseconds.
pub const STOP_POLL_MS: u64 = 100;

/// What to do next while a capture process is stopping.
#[derive(Debug, Clone, Copy, PartialEq, Eq, Structural)]
pub enum StopAction {
    /// The process has exited.
    Done,
    /// Check again after `STOP_POLL_MS`.
    Wait,
    /// The grace period is over: kill the process and wait for it.
    Kill,
}

/// One check of a capture process asked to stop: `exited` tells whether it
/// has exited, `elapsed_ms` how long ago it was asked.
pub fn stop_step(exited: bool, elapsed_ms: u64) -> (r: StopAction)
    ensures
        exited ==> r == StopAction::Done,
        !exited && elapsed_ms > STOP_GRACE_MS ==> r == StopAction::Kill,
        !exited && elapsed_ms <= STOP_GRACE_MS ==> r == StopAction::Wait,
{
    if exited {
        StopAction::Done
    } else if elapsed_ms > STOP_GRACE_MS {
        StopAction::Kill
    } else {
        StopAction::Wait
    }
}

} // verus!
