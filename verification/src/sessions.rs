//! Tracking of concurrently playing sound instances.
//!
//! Each triggered sound file becomes one playback session; the same file may
//! have several simultaneous sessions, each with its own life. The tracker
//! owns the bookkeeping: elapsed time against an injected monotonic clock in
//! milliseconds, pause and resume, explicit stops, and the per-frame reap of
//! sessions that have reached their end within a small tolerance. Opening,
//! decoding and mixing the audio itself is the surrounding application's
//! work; it hands the tracker the decoded duration and an opaque handle for
//! the mixing connection it acquired.
use vstd::prelude::*;

verus! {

/// The reap tolerance: a session is considered finished when its elapsed
/// playback time is within this many milliseconds of its duration.
pub const REAP_EPSILON_MS: u64 = 10;

/// One in-flight instance of a sound file being rendered.
pub struct PlaybackSession {
    /// Identifier handed back by `play`, unique within the tracker.
    pub session_id: u64,
    /// The path the sound was opened from.
    pub source_path: String,
    /// Total duration of the decoded audio, in milliseconds.
    pub duration_ms: u64,
    /// The application's handle for this session's mixing connection.
    pub mix_handle: u64,
    /// Playback time gathered before the most recent resume.
    pub accumulated_ms: u64,
    /// Clock reading at the most recent resume (or at creation).
    pub resumed_at_ms: u64,
    /// Whether the session is currently paused.
    pub paused: bool,
    /// Whether an explicit stop requested this session's removal.
    pub marked_for_removal: bool,
}

fn duplicate_session(s: &PlaybackSession) -> (r: PlaybackSession)
    ensures
        r == *s,
{
    PlaybackSession {
        session_id: s.session_id,
        source_path: s.source_path.clone(),
        duration_ms: s.duration_ms,
        mix_handle: s.mix_handle,
        accumulated_ms: s.accumulated_ms,
        resumed_at_ms: s.resumed_at_ms,
        paused: s.paused,
        marked_for_removal: s.marked_for_removal,
    }
}

/// A session's clock bookkeeping is consistent with a clock that has reached
/// `now`: it never counts more playback than wall time.
pub open spec fn session_wf(s: PlaybackSession, now: u64) -> bool {
    s.accumulated_ms <= s.resumed_at_ms <= now
}

/// The session's elapsed playback position at clock reading `now`.
pub open spec fn elapsed_ms_at(s: PlaybackSession, now: u64) -> int
    recommends
        session_wf(s, now),
{
    if s.paused {
        s.accumulated_ms as int
    } else {
        s.accumulated_ms + now - s.resumed_at_ms
    }
}

/// Whether a reap at clock reading `now` removes the session: it was
/// explicitly stopped, or its elapsed position has reached its duration
/// minus the tolerance.
pub open spec fn reapable(s: PlaybackSession, now: u64) -> bool {
    s.marked_for_removal || elapsed_ms_at(s, now) + REAP_EPSILON_MS >= s.duration_ms
}

/// The sessions a reap at `now` keeps, in order.
pub open spec fn spec_reap(ss: Seq<PlaybackSession>, now: u64) -> Seq<PlaybackSession> {
    ss.filter(|s: PlaybackSession| !reapable(s, now))
}

/// Every session a reap keeps is one of the sessions it was given, and
/// distinct identifiers stay distinct.
proof fn lemma_reap_membership(ss: Seq<PlaybackSession>, now: u64)
    requires
        forall|i: int, j: int| 0 <= i < j < ss.len()
            ==> (#[trigger] ss[i]).session_id != (#[trigger] ss[j]).session_id,
    ensures
        forall|k: int| 0 <= k < spec_reap(ss, now).len()
            ==> exists|m: int| 0 <= m < ss.len() && #[trigger] spec_reap(ss, now)[k] == ss[m],
        forall|i: int, j: int| 0 <= i < j < spec_reap(ss, now).len()
            ==> (#[trigger] spec_reap(ss, now)[i]).session_id
                != (#[trigger] spec_reap(ss, now)[j]).session_id,
    decreases ss.len(),
{
    reveal(Seq::filter);
    if ss.len() > 0 {
        let d = ss.drop_last();
        assert(forall|i: int| 0 <= i < d.len() ==> #[trigger] d[i] == ss[i]);
        lemma_reap_membership(d, now);
        let f = spec_reap(ss, now);
        let fd = spec_reap(d, now);
        assert(forall|k: int| 0 <= k < fd.len() ==> #[trigger] fd[k] == f[k]);
        if !reapable(ss.last(), now) {
            assert(f == fd.push(ss.last()));
            assert forall|k: int| 0 <= k < f.len()
                implies exists|m: int| 0 <= m < ss.len() && #[trigger] f[k] == ss[m] by {
                if k < fd.len() {
                    let m = choose|m: int| 0 <= m < d.len() && fd[k] == d[m];
                    assert(f[k] == ss[m]);
                } else {
                    assert(f[k] == ss[ss.len() - 1]);
                }
            }
            assert forall|i: int, j: int| 0 <= i < j < f.len()
                implies (#[trigger] f[i]).session_id != (#[trigger] f[j]).session_id by {
                if j < fd.len() {
                    assert(fd[i].session_id != fd[j].session_id);
                } else {
                    let m = choose|m: int| 0 <= m < d.len() && fd[i] == d[m];
                    assert(f[j] == ss[ss.len() - 1]);
                    assert(ss[m].session_id != ss[ss.len() - 1].session_id);
                }
            }
        } else {
            assert(f == fd);
        }
    }
}

/// How many of the given sessions a reap at `now` would keep: those not
/// explicitly stopped whose elapsed position is still short of their
/// duration minus the tolerance.
pub open spec fn unfinished_count(ss: Seq<PlaybackSession>, now: u64) -> nat
    decreases ss.len(),
{
    if ss.len() == 0 {
        0
    } else {
        unfinished_count(ss.drop_last(), now) + if !reapable(ss.last(), now) {
            1nat
        } else {
            0nat
        }
    }
}

/// For any sequence of `play` calls — each session possibly paused, resumed
/// or stopped in place afterwards — the number of active sessions after one
/// reap equals the number of sessions that were not explicitly stopped and
/// whose elapsed position is below their duration minus the tolerance.
/// `play` appends one session per call and the other operations keep the
/// count, so `ss` here is exactly one session per call.
pub proof fn lemma_reap_count(ss: Seq<PlaybackSession>, now: u64)
    ensures
        spec_reap(ss, now).len() == unfinished_count(ss, now),
    decreases ss.len(),
{
    reveal(Seq::filter);
    if ss.len() > 0 {
        lemma_reap_count(ss.drop_last(), now);
    }
}

/// The session `play` registers.
pub open spec fn fresh_session(
    id: u64,
    source_path: String,
    duration_ms: u64,
    mix_handle: u64,
    now: u64,
) -> PlaybackSession {
    PlaybackSession {
        session_id: id,
        source_path: source_path,
        duration_ms: duration_ms,
        mix_handle: mix_handle,
        accumulated_ms: 0,
        resumed_at_ms: now,
        paused: false,
        marked_for_removal: false,
    }
}

/// The session after a pause at `now`: the elapsed position is banked and
/// the session stops counting. Pausing a paused session changes nothing.
pub open spec fn pause_session(s: PlaybackSession, now: u64) -> PlaybackSession
    recommends
        session_wf(s, now),
{
    if s.paused {
        s
    } else {
        PlaybackSession {
            session_id: s.session_id,
            source_path: s.source_path,
            duration_ms: s.duration_ms,
            mix_handle: s.mix_handle,
            accumulated_ms: (s.accumulated_ms + now - s.resumed_at_ms) as u64,
            resumed_at_ms: now,
            paused: true,
            marked_for_removal: s.marked_for_removal,
        }
    }
}

/// The session after a resume at `now`: counting starts again from the
/// banked position. Resuming a running session changes nothing.
pub open spec fn resume_session(s: PlaybackSession, now: u64) -> PlaybackSession
    recommends
        session_wf(s, now),
{
    if !s.paused {
        s
    } else {
        PlaybackSession {
            session_id: s.session_id,
            source_path: s.source_path,
            duration_ms: s.duration_ms,
            mix_handle: s.mix_handle,
            accumulated_ms: s.accumulated_ms,
            resumed_at_ms: now,
            paused: false,
            marked_for_removal: s.marked_for_removal,
        }
    }
}

/// The session after an explicit stop: marked, and removed by the next reap.
pub open spec fn stop_session(s: PlaybackSession) -> PlaybackSession {
    PlaybackSession {
        session_id: s.session_id,
        source_path: s.source_path,
        duration_ms: s.duration_ms,
        mix_handle: s.mix_handle,
        accumulated_ms: s.accumulated_ms,
        resumed_at_ms: s.resumed_at_ms,
        paused: s.paused,
        marked_for_removal: true,
    }
}

/// Owner of the set of currently playing sound instances.
pub struct SessionTracker {
    /// The active sessions, oldest first.
    pub sessions: Vec<PlaybackSession>,
    /// The identifier the next `play` hands out.
    pub next_id: u64,
    /// The latest clock reading the tracker has seen.
    pub last_seen_ms: u64,
}

/// Tracker invariant: every session's clock bookkeeping is consistent with
/// the latest seen clock reading, and identifiers are unique and below the
/// next one to be handed out.
pub open spec fn tracker_wf(t: SessionTracker) -> bool {
    &&& forall|i: int| 0 <= i < t.sessions@.len() ==> session_wf(#[trigger] t.sessions@[i], t.last_seen_ms)
    &&& forall|i: int| 0 <= i < t.sessions@.len() ==> (#[trigger] t.sessions@[i]).session_id < t.next_id
    &&& forall|i: int, j: int| 0 <= i < j < t.sessions@.len()
        ==> (#[trigger] t.sessions@[i]).session_id != (#[trigger] t.sessions@[j]).session_id
}

impl SessionTracker {
    /// A tracker with no sessions.
    pub fn new() -> (t: SessionTracker)
        ensures
            tracker_wf(t),
            t.sessions@.len() == 0,
            t.next_id == 0,
            t.last_seen_ms == 0,
    {
        SessionTracker { sessions: Vec::new(), next_id: 0, last_seen_ms: 0 }
    }

    /// Registers one new playing session for a decoded file and hands back
    /// its identifier. Playback begins immediately: the session starts
    /// unpaused at position zero. Several sessions of the same path are
    /// independent.
    pub fn play(
        &mut self,
        source_path: String,
        duration_ms: u64,
        mix_handle: u64,
        now_ms: u64,
    ) -> (sid: u64)
        requires
            tracker_wf(*old(self)),
            now_ms >= old(self).last_seen_ms,
            old(self).next_id < u64::MAX,
        ensures
            tracker_wf(*final(self)),
            sid == old(self).next_id,
            final(self).next_id == old(self).next_id + 1,
            final(self).last_seen_ms == now_ms,
            final(self).sessions@ == old(self).sessions@.push(
                fresh_session(old(self).next_id, source_path, duration_ms, mix_handle, now_ms),
            ),
    {
        let sid = self.next_id;
        self.sessions.push(PlaybackSession {
            session_id: sid,
            source_path: source_path,
            duration_ms: duration_ms,
            mix_handle: mix_handle,
            accumulated_ms: 0,
            resumed_at_ms: now_ms,
            paused: false,
            marked_for_removal: false,
        });
        self.next_id = self.next_id + 1;
        self.last_seen_ms = now_ms;
        proof {
            assert(forall|i: int| 0 <= i < old(self).sessions@.len()
                ==> self.sessions@[i] == #[trigger] old(self).sessions@[i]);
        }
        sid
    }

    /// Removes every session that an explicit stop marked or whose elapsed
    /// position has reached its duration minus the tolerance. Sessions keep
    /// their order; nothing else about them changes.
    pub fn tick_and_reap(&mut self, now_ms: u64)
        requires
            tracker_wf(*old(self)),
            now_ms >= old(self).last_seen_ms,
        ensures
            tracker_wf(*final(self)),
            final(self).sessions@ == spec_reap(old(self).sessions@, now_ms),
            final(self).sessions@.len() == unfinished_count(old(self).sessions@, now_ms),
            final(self).next_id == old(self).next_id,
            final(self).last_seen_ms == now_ms,
    {
        proof {
            lemma_reap_count(old(self).sessions@, now_ms);
        }
        let mut kept: Vec<PlaybackSession> = Vec::new();
        let mut i: usize = 0;
        proof {
            reveal(Seq::filter);
            assert(self.sessions@.take(0) =~= Seq::<PlaybackSession>::empty());
            assert(kept@ == spec_reap(self.sessions@.take(0), now_ms));
        }
        while i < self.sessions.len()
            invariant
                tracker_wf(*self),
                now_ms >= self.last_seen_ms,
                i <= self.sessions@.len(),
                kept@ == spec_reap(self.sessions@.take(i as int), now_ms),
            decreases self.sessions@.len() - i,
        {
            let s = &self.sessions[i];
            let keep: bool = if s.marked_for_removal {
                false
            } else {
                let elapsed: u64 = if s.paused {
                    s.accumulated_ms
                } else {
                    s.accumulated_ms + (now_ms - s.resumed_at_ms)
                };
                if s.duration_ms <= REAP_EPSILON_MS {
                    false
                } else {
                    elapsed < s.duration_ms - REAP_EPSILON_MS
                }
            };
            proof {
                reveal(Seq::filter);
                assert(keep == !reapable(self.sessions@[i as int], now_ms));
                assert(self.sessions@.take(i as int + 1).drop_last() =~= self.sessions@.take(i as int));
                assert(self.sessions@.take(i as int + 1).last() == self.sessions@[i as int]);
            }
            let ghost prev = kept@;
            if keep {
                kept.push(duplicate_session(&self.sessions[i]));
                proof {
                    assert(forall|k: int| 0 <= k < prev.len() ==> kept@[k] == #[trigger] prev[k]);
                    assert(kept@[prev.len() as int] == self.sessions@[i as int]);
                }
            }
            i = i + 1;
        }
        proof {
            assert(self.sessions@.take(self.sessions@.len() as int) =~= self.sessions@);
        }
        let ghost source = self.sessions@;
        let ghost seen = self.last_seen_ms;
        self.sessions = kept;
        self.last_seen_ms = now_ms;
        proof {
            lemma_reap_membership(source, now_ms);
            assert forall|k: int| 0 <= k < self.sessions@.len()
                implies session_wf(#[trigger] self.sessions@[k], now_ms)
                    && self.sessions@[k].session_id < self.next_id by {
                let m = choose|m: int| 0 <= m < source.len() && self.sessions@[k] == source[m];
                assert(session_wf(source[m], seen));
            }
        }
    }
    /// Pauses the session with the given identifier, banking its elapsed
    /// position. Reports whether such a session exists; no other session is
    /// affected.
    pub fn pause(&mut self, session_id: u64, now_ms: u64) -> (found: bool)
        requires
            tracker_wf(*old(self)),
            now_ms >= old(self).last_seen_ms,
        ensures
            tracker_wf(*final(self)),
            found == (exists|k: int| 0 <= k < old(self).sessions@.len()
                && (#[trigger] old(self).sessions@[k]).session_id == session_id),
            final(self).sessions@.len() == old(self).sessions@.len(),
            final(self).next_id == old(self).next_id,
            final(self).last_seen_ms == now_ms,
            forall|k: int| 0 <= k < old(self).sessions@.len()
                && (#[trigger] old(self).sessions@[k]).session_id != session_id
                ==> final(self).sessions@[k] == old(self).sessions@[k],
            forall|k: int| 0 <= k < old(self).sessions@.len()
                && (#[trigger] old(self).sessions@[k]).session_id == session_id
                ==> final(self).sessions@[k] == pause_session(old(self).sessions@[k], now_ms),
    {
        let r = self.rewrite_session(session_id, now_ms, SessionEdit::Pause);
        r
    }

    /// Resumes the session with the given identifier; counting starts again
    /// from its banked position. Reports whether such a session exists.
    pub fn resume(&mut self, session_id: u64, now_ms: u64) -> (found: bool)
        requires
            tracker_wf(*old(self)),
            now_ms >= old(self).last_seen_ms,
        ensures
            tracker_wf(*final(self)),
            found == (exists|k: int| 0 <= k < old(self).sessions@.len()
                && (#[trigger] old(self).sessions@[k]).session_id == session_id),
            final(self).sessions@.len() == old(self).sessions@.len(),
            final(self).next_id == old(self).next_id,
            final(self).last_seen_ms == now_ms,
            forall|k: int| 0 <= k < old(self).sessions@.len()
                && (#[trigger] old(self).sessions@[k]).session_id != session_id
                ==> final(self).sessions@[k] == old(self).sessions@[k],
            forall|k: int| 0 <= k < old(self).sessions@.len()
                && (#[trigger] old(self).sessions@[k]).session_id == session_id
                ==> final(self).sessions@[k] == resume_session(old(self).sessions@[k], now_ms),
    {
        let r = self.rewrite_session(session_id, now_ms, SessionEdit::Resume);
        r
    }

    /// Marks the session with the given identifier for removal; the next
    /// reap removes it, so it is still rendered once more in the frame that
    /// stopped it. Reports whether such a session exists.
    pub fn stop(&mut self, session_id: u64, now_ms: u64) -> (found: bool)
        requires
            tracker_wf(*old(self)),
            now_ms >= old(self).last_seen_ms,
        ensures
            tracker_wf(*final(self)),
            found == (exists|k: int| 0 <= k < old(self).sessions@.len()
                && (#[trigger] old(self).sessions@[k]).session_id == session_id),
            final(self).sessions@.len() == old(self).sessions@.len(),
            final(self).next_id == old(self).next_id,
            final(self).last_seen_ms == now_ms,
            forall|k: int| 0 <= k < old(self).sessions@.len()
                && (#[trigger] old(self).sessions@[k]).session_id != session_id
                ==> final(self).sessions@[k] == old(self).sessions@[k],
            forall|k: int| 0 <= k < old(self).sessions@.len()
                && (#[trigger] old(self).sessions@[k]).session_id == session_id
                ==> final(self).sessions@[k] == stop_session(old(self).sessions@[k]),
    {
        let r = self.rewrite_session(session_id, now_ms, SessionEdit::Stop);
        r
    }

    /// Clears every session at once and hands back their mixing handles so
    /// the caller can silence them immediately.
    pub fn stop_all(&mut self) -> (handles: Vec<u64>)
        requires
            tracker_wf(*old(self)),
        ensures
            tracker_wf(*final(self)),
            final(self).sessions@.len() == 0,
            final(self).next_id == old(self).next_id,
            final(self).last_seen_ms == old(self).last_seen_ms,
            handles@.len() == old(self).sessions@.len(),
            forall|k: int| 0 <= k < handles@.len()
                ==> handles@[k] == (#[trigger] old(self).sessions@[k]).mix_handle,
    {
        let mut handles: Vec<u64> = Vec::new();
        let mut i: usize = 0;
        while i < self.sessions.len()
            invariant
                *self == *old(self),
                i <= self.sessions@.len(),
                handles@.len() == i,
                forall|k: int| 0 <= k < i ==> handles@[k] == (#[trigger] self.sessions@[k]).mix_handle,
            decreases self.sessions@.len() - i,
        {
            handles.push(self.sessions[i].mix_handle);
            i = i + 1;
        }
        self.sessions = Vec::new();
        handles
    }

    /// A read-only snapshot of the active sessions for display: path,
    /// elapsed position, duration and pause state of each.
    pub fn snapshot(&self, now_ms: u64) -> (infos: Vec<SessionInfo>)
        requires
            tracker_wf(*self),
            now_ms >= self.last_seen_ms,
        ensures
            infos@.len() == self.sessions@.len(),
            forall|k: int| 0 <= k < infos@.len() ==> {
                let s = self.sessions@[k];
                let v = #[trigger] infos@[k];
                v.session_id == s.session_id
                    && v.source_path == s.source_path
                    && v.elapsed_ms == elapsed_ms_at(s, now_ms)
                    && v.duration_ms == s.duration_ms
                    && v.paused == s.paused
            },
    {
        let mut infos: Vec<SessionInfo> = Vec::new();
        let mut i: usize = 0;
        while i < self.sessions.len()
            invariant
                tracker_wf(*self),
                now_ms >= self.last_seen_ms,
                i <= self.sessions@.len(),
                infos@.len() == i,
                forall|k: int| 0 <= k < i ==> {
                    let s = self.sessions@[k];
                    let v = #[trigger] infos@[k];
                    v.session_id == s.session_id
                        && v.source_path == s.source_path
                        && v.elapsed_ms == elapsed_ms_at(s, now_ms)
                        && v.duration_ms == s.duration_ms
                        && v.paused == s.paused
                },
            decreases self.sessions@.len() - i,
        {
            let s = &self.sessions[i];
            let elapsed: u64 = if s.paused {
                s.accumulated_ms
            } else {
                s.accumulated_ms + (now_ms - s.resumed_at_ms)
            };
            let ghost prev = infos@;
            infos.push(SessionInfo {
                session_id: s.session_id,
                source_path: s.source_path.clone(),
                elapsed_ms: elapsed,
                duration_ms: s.duration_ms,
                paused: s.paused,
            });
            proof {
                assert(forall|k: int| 0 <= k < prev.len() ==> infos@[k] == #[trigger] prev[k]);
            }
            i = i + 1;
        }
        infos
    }

    /// How many sessions are currently tracked.
    pub fn active_count(&self) -> (n: usize)
        ensures
            n == self.sessions@.len(),
    {
        self.sessions.len()
    }

    /// Finds the session with the given identifier and replaces it by the
    /// edited session; the shared shape behind `pause`, `resume` and `stop`.
    fn rewrite_session(&mut self, session_id: u64, now_ms: u64, edit: SessionEdit) -> (found: bool)
        requires
            tracker_wf(*old(self)),
            now_ms >= old(self).last_seen_ms,
        ensures
            tracker_wf(*final(self)),
            found == (exists|k: int| 0 <= k < old(self).sessions@.len()
                && (#[trigger] old(self).sessions@[k]).session_id == session_id),
            final(self).sessions@.len() == old(self).sessions@.len(),
            final(self).next_id == old(self).next_id,
            final(self).last_seen_ms == now_ms,
            forall|k: int| 0 <= k < old(self).sessions@.len()
                && (#[trigger] old(self).sessions@[k]).session_id != session_id
                ==> final(self).sessions@[k] == old(self).sessions@[k],
            forall|k: int| 0 <= k < old(self).sessions@.len()
                && (#[trigger] old(self).sessions@[k]).session_id == session_id
                ==> final(self).sessions@[k] == edit_session(old(self).sessions@[k], now_ms, edit),
    {
        let n = self.sessions.len();
        let mut i: usize = 0;
        while i < n
            invariant
                *self == *old(self),
                tracker_wf(*self),
                now_ms >= self.last_seen_ms,
                n == self.sessions@.len(),
                i <= n,
                forall|k: int| 0 <= k < i ==> (#[trigger] self.sessions@[k]).session_id != session_id,
            decreases n - i,
        {
            if self.sessions[i].session_id == session_id {
                let old_s = self.sessions.remove(i);
                let new_s = apply_edit(old_s, now_ms, edit);
                self.sessions.insert(i, new_s);
                self.last_seen_ms = now_ms;
                proof {
                    assert(self.sessions@ =~= old(self).sessions@.update(
                        i as int,
                        edit_session(old(self).sessions@[i as int], now_ms, edit),
                    ));
                    assert forall|k: int| 0 <= k < old(self).sessions@.len()
                        && (#[trigger] old(self).sessions@[k]).session_id == session_id
                        implies self.sessions@[k] == edit_session(old(self).sessions@[k], now_ms, edit) by {
                        if k != i as int {
                            assert(old(self).sessions@[k].session_id != old(self).sessions@[i as int].session_id);
                        }
                    }
                }
                return true;
            }
            i = i + 1;
        }
        self.last_seen_ms = now_ms;
        false
    }
}

/// Which per-session operation `rewrite_session` applies.
#[derive(Clone, Copy)]
enum SessionEdit {
    Pause,
    Resume,
    Stop,
}

/// The edited session for each operation.
spec fn edit_session(s: PlaybackSession, now: u64, edit: SessionEdit) -> PlaybackSession {
    match edit {
        SessionEdit::Pause => pause_session(s, now),
        SessionEdit::Resume => resume_session(s, now),
        SessionEdit::Stop => stop_session(s),
    }
}

fn apply_edit(s: PlaybackSession, now_ms: u64, edit: SessionEdit) -> (r: PlaybackSession)
    requires
        session_wf(s, now_ms),
    ensures
        r == edit_session(s, now_ms, edit),
{
    match edit {
        SessionEdit::Pause => {
            if s.paused {
                s
            } else {
                let banked = s.accumulated_ms + (now_ms - s.resumed_at_ms);
                PlaybackSession {
                    session_id: s.session_id,
                    source_path: s.source_path,
                    duration_ms: s.duration_ms,
                    mix_handle: s.mix_handle,
                    accumulated_ms: banked,
                    resumed_at_ms: now_ms,
                    paused: true,
                    marked_for_removal: s.marked_for_removal,
                }
            }
        },
        SessionEdit::Resume => {
            if !s.paused {
                s
            } else {
                PlaybackSession {
                    session_id: s.session_id,
                    source_path: s.source_path,
                    duration_ms: s.duration_ms,
                    mix_handle: s.mix_handle,
                    accumulated_ms: s.accumulated_ms,
                    resumed_at_ms: now_ms,
                    paused: false,
                    marked_for_removal: s.marked_for_removal,
                }
            }
        },
        SessionEdit::Stop => {
            PlaybackSession {
                session_id: s.session_id,
                source_path: s.source_path,
                duration_ms: s.duration_ms,
                mix_handle: s.mix_handle,
                accumulated_ms: s.accumulated_ms,
                resumed_at_ms: s.resumed_at_ms,
                paused: s.paused,
                marked_for_removal: true,
            }
        },
    }
}

/// One row of the read-only display snapshot.
pub struct SessionInfo {
    /// Identifier of the session.
    pub session_id: u64,
    /// The path the sound was opened from.
    pub source_path: String,
    /// Elapsed playback position at the snapshot's clock reading.
    pub elapsed_ms: u64,
    /// Total duration of the decoded audio.
    pub duration_ms: u64,
    /// Whether the session is paused.
    pub paused: bool,
}

} // verus!
