//! Gaze engagement: turning per-frame face detections into "away" and
//! "present" events, with hysteresis so single missed frames do not count.
use vstd::prelude::*;

verus! {

/// Consecutive away frames before firing the away event (~2s at 4fps).
pub const AWAY_FRAMES_THRESHOLD: u32 = 8;

/// Consecutive present frames before firing the return event.
pub const RETURN_FRAMES_THRESHOLD: u32 = 5;

/// The event announced on a change of attention.
#[derive(Debug, Clone, Copy, PartialEq, Eq, Structural)]
pub enum GazeEvent {
    Away,
    Present,
}

/// Whether the viewer is away, and the current runs of frames without and with a face.
#[derive(Debug, Clone, Copy, PartialEq, Eq, Structural)]
pub struct GazeTracker {
    pub is_away: bool,
    pub away_counter: u32,
    pub return_counter: u32,
}

/// The tracker after one frame in which a face was or was not detected,
/// and the event announced.
pub open spec fn observed(t: GazeTracker, face_detected: bool) -> (GazeTracker, Option<GazeEvent>) {
    if !face_detected {
        let away = t.away_counter.saturating_add(1);
        if !t.is_away && away >= AWAY_FRAMES_THRESHOLD {
            (GazeTracker { is_away: true, away_counter: away, return_counter: 0 }, Some(GazeEvent::Away))
        } else {
            (GazeTracker { is_away: t.is_away, away_counter: away, return_counter: 0 }, None)
        }
    } else {
        let ret = t.return_counter.saturating_add(1);
        if t.is_away && ret >= RETURN_FRAMES_THRESHOLD {
            (GazeTracker { is_away: false, away_counter: 0, return_counter: ret }, Some(GazeEvent::Present))
        } else {
            (GazeTracker { is_away: t.is_away, away_counter: 0, return_counter: ret }, None)
        }
    }
}

/// The tracker after a frame while tracking is paused, and the event announced.
pub open spec fn paused(t: GazeTracker) -> (GazeTracker, Option<GazeEvent>) {
    (
        GazeTracker { is_away: false, away_counter: 0, return_counter: 0 },
        if t.is_away {
            Some(GazeEvent::Present)
        } else {
            None
        },
    )
}

impl GazeTracker {
    /// Present, with no frames counted.
    pub fn new() -> (r: Self)
        ensures
            r == (GazeTracker { is_away: false, away_counter: 0, return_counter: 0 }),
    {
        GazeTracker { is_away: false, away_counter: 0, return_counter: 0 }
    }

    /// Counts one camera frame. Returns the event to announce, if any.
    pub fn observe(&mut self, face_detected: bool) -> (r: Option<GazeEvent>)
        ensures
            (*final(self), r) == observed(*old(self), face_detected),
    {
        if !face_detected {
            self.return_counter = 0;
            self.away_counter = self.away_counter.saturating_add(1);
            if !self.is_away && self.away_counter >= AWAY_FRAMES_THRESHOLD {
                self.is_away = true;
                return Some(GazeEvent::Away);
            }
        } else {
            self.away_counter = 0;
            self.return_counter = self.return_counter.saturating_add(1);
            if self.is_away && self.return_counter >= RETURN_FRAMES_THRESHOLD {
                self.is_away = false;
                return Some(GazeEvent::Present);
            }
        }
        None
    }

    /// A frame while tracking is paused: counters cleared, and a viewer who
    /// was away is announced present again.
    pub fn pause_tick(&mut self) -> (r: Option<GazeEvent>)
        ensures
            (*final(self), r) == paused(*old(self)),
    {
        self.away_counter = 0;
        self.return_counter = 0;
        if self.is_away {
            self.is_away = false;
            return Some(GazeEvent::Present);
        }
        None
    }
}

/// Events alternate: "away" is announced only for a viewer who was present,
/// "present" only for one who was away, and each flips the state.
pub proof fn lemma_events_alternate(t: GazeTracker, face_detected: bool)
    ensures
        observed(t, face_detected).1 == Some(GazeEvent::Away) ==> !t.is_away && observed(
            t,
            face_detected,
        ).0.is_away,
        observed(t, face_detected).1 == Some(GazeEvent::Present) ==> t.is_away && !observed(
            t,
            face_detected,
        ).0.is_away,
        observed(t, face_detected).1 is None ==> observed(t, face_detected).0.is_away
            == t.is_away,
{
}

/// A viewer is announced away only after eight frames in a row without a
/// face: from any present state whose miss count was reset by a detected
/// face, seven misses announce nothing and the eighth announces "away".
pub proof fn lemma_away_after_eight_misses(t: GazeTracker)
    requires
        !t.is_away,
        t.away_counter == 0,
    ensures
        ({
            let s1 = observed(t, false);
            let s2 = observed(s1.0, false);
            let s3 = observed(s2.0, false);
            let s4 = observed(s3.0, false);
            let s5 = observed(s4.0, false);
            let s6 = observed(s5.0, false);
            let s7 = observed(s6.0, false);
            let s8 = observed(s7.0, false);
            &&& s1.1 is None && s2.1 is None && s3.1 is None && s4.1 is None
            &&& s5.1 is None && s6.1 is None && s7.1 is None
            &&& s8.1 == Some(GazeEvent::Away)
        }),
{
}

/// A viewer is announced present again only after five frames in a row with
/// a face: from an away state whose hit count was reset by a missed frame,
/// four hits announce nothing and the fifth announces "present".
pub proof fn lemma_present_after_five_hits(t: GazeTracker)
    requires
        t.is_away,
        t.return_counter == 0,
    ensures
        ({
            let s1 = observed(t, true);
            let s2 = observed(s1.0, true);
            let s3 = observed(s2.0, true);
            let s4 = observed(s3.0, true);
            let s5 = observed(s4.0, true);
            &&& s1.1 is None && s2.1 is None && s3.1 is None && s4.1 is None
            &&& s5.1 == Some(GazeEvent::Present)
        }),
{
}

// ---------------------------------------------------------------------------
// Histories of detections
// ---------------------------------------------------------------------------

/// The tracker after the per-frame detections `fs`, starting present with
/// nothing counted.
pub open spec fn tracker_after(fs: Seq<bool>) -> GazeTracker
    decreases fs.len(),
{
    if fs.len() == 0 {
        GazeTracker { is_away: false, away_counter: 0, return_counter: 0 }
    } else {
        observed(tracker_after(fs.drop_last()), fs.last()).0
    }
}

/// The event announced at frame `k` of the detections `fs`.
pub open spec fn event_at(fs: Seq<bool>, k: int) -> Option<GazeEvent> {
    observed(tracker_after(fs.take(k)), fs[k]).1
}

/// The frames `k - n + 1` through `k` of `fs` all detected `v`.
pub open spec fn run_ending_at(fs: Seq<bool>, k: int, n: int, v: bool) -> bool {
    k + 1 >= n && forall|j: int| k - n < j <= k ==> #[trigger] fs[j] == v
}

/// How many of the last detections of `fs` in a row equal `v`.
pub open spec fn trailing(fs: Seq<bool>, v: bool) -> nat
    decreases fs.len(),
{
    if fs.len() > 0 && fs.last() == v {
        trailing(fs.drop_last(), v) + 1
    } else {
        0
    }
}

/// A count held in a `u32`, stuck at the maximum.
pub open spec fn capped(n: nat) -> u32 {
    if n > u32::MAX {
        u32::MAX
    } else {
        n as u32
    }
}

/// The counters are the lengths of the current runs of misses and hits.
proof fn lemma_counters(fs: Seq<bool>)
    ensures
        tracker_after(fs).away_counter == capped(trailing(fs, false)),
        tracker_after(fs).return_counter == capped(trailing(fs, true)),
    decreases fs.len(),
{
    if fs.len() > 0 {
        lemma_counters(fs.drop_last());
    }
}

/// A run of `n` equal detections ends the history exactly when the trailing
/// run is at least `n` long.
proof fn lemma_trailing_run(fs: Seq<bool>, n: int, v: bool)
    requires
        0 <= n,
    ensures
        trailing(fs, v) >= n <==> run_ending_at(fs, fs.len() - 1, n, v),
    decreases fs.len(),
{
    if fs.len() > 0 && n > 0 {
        let p = fs.drop_last();
        lemma_trailing_run(p, n - 1, v);
        if trailing(fs, v) >= n {
            assert forall|j: int| fs.len() - 1 - n < j <= fs.len() - 1 implies #[trigger] fs[j] == v by {
                if j < fs.len() - 1 {
                    assert(p[j] == fs[j]);
                }
            }
        }
        if run_ending_at(fs, fs.len() - 1, n, v) {
            assert(fs[fs.len() - 1] == v);
            assert forall|j: int| p.len() - 1 - (n - 1) < j <= p.len() - 1 implies #[trigger] p[j] == v by {
                assert(p[j] == fs[j]);
            }
        }
    } else if fs.len() == 0 && n > 0 {
        assert(!run_ending_at(fs, -1, n, v));
    }
}

/// Over any history of detections from a present start, "away" is announced
/// at frame `k` exactly when the viewer was present and frames `k - 7`
/// through `k` all missed the face; "present" exactly when the viewer was
/// away and frames `k - 4` through `k` all found it. Each announcement flips
/// whether the viewer is away, and a frame that announces nothing leaves it.
pub proof fn lemma_gaze_history(fs: Seq<bool>, k: int)
    requires
        0 <= k < fs.len(),
    ensures
        event_at(fs, k) == Some(GazeEvent::Away) <==> !tracker_after(fs.take(k)).is_away
            && run_ending_at(fs, k, AWAY_FRAMES_THRESHOLD as int, false),
        event_at(fs, k) == Some(GazeEvent::Present) <==> tracker_after(fs.take(k)).is_away
            && run_ending_at(fs, k, RETURN_FRAMES_THRESHOLD as int, true),
        event_at(fs, k) is Some ==> tracker_after(fs.take(k + 1)).is_away != tracker_after(
            fs.take(k),
        ).is_away,
        event_at(fs, k) is None ==> tracker_after(fs.take(k + 1)).is_away == tracker_after(
            fs.take(k),
        ).is_away,
{
    let h = fs.take(k + 1);
    assert(h.drop_last() =~= fs.take(k));
    assert(h.last() == fs[k]);
    lemma_counters(h);
    lemma_trailing_run(h, AWAY_FRAMES_THRESHOLD as int, false);
    lemma_trailing_run(h, RETURN_FRAMES_THRESHOLD as int, true);
    lemma_run_in_prefix(fs, k, AWAY_FRAMES_THRESHOLD as int, false);
    lemma_run_in_prefix(fs, k, RETURN_FRAMES_THRESHOLD as int, true);
}

/// A run ending at frame `k` is the same in the history and in its first `k + 1` frames.
proof fn lemma_run_in_prefix(fs: Seq<bool>, k: int, n: int, v: bool)
    requires
        0 <= k < fs.len(),
    ensures
        run_ending_at(fs.take(k + 1), k, n, v) == run_ending_at(fs, k, n, v),
{
    let h = fs.take(k + 1);
    if run_ending_at(h, k, n, v) {
        assert forall|j: int| k - n < j <= k implies #[trigger] fs[j] == v by {
            assert(h[j] == v);
        }
    }
    if run_ending_at(fs, k, n, v) {
        assert forall|j: int| k - n < j <= k implies #[trigger] h[j] == v by {
            assert(fs[j] == v);
        }
    }
}

/// Between a frame where the viewer is away (resp. present) and a later one
/// where they are present (resp. away), some frame announced "present"
/// (resp. "away").
proof fn lemma_flip_needs_event(fs: Seq<bool>, a: int, b: int, was_away: bool)
    requires
        0 <= a <= b <= fs.len(),
        tracker_after(fs.take(a)).is_away == was_away,
        tracker_after(fs.take(b)).is_away != was_away,
    ensures
        exists|m: int|
            a <= m < b && #[trigger] event_at(fs, m) == Some(
                if was_away {
                    GazeEvent::Present
                } else {
                    GazeEvent::Away
                },
            ),
    decreases b - a,
{
    let m = b - 1;
    lemma_gaze_history(fs, m);
    assert(m + 1 == b);
    if tracker_after(fs.take(m)).is_away == was_away {
        assert(event_at(fs, m) is Some);
    } else {
        lemma_flip_needs_event(fs, a, m, was_away);
    }
}

/// The announced statuses alternate, starting with "away": the first event
/// of any history is "away", and between two equal events lies the other one.
pub proof fn lemma_gaze_statuses_alternate(fs: Seq<bool>, j: int, k: int)
    requires
        0 <= j < k < fs.len(),
    ensures
        event_at(fs, k) == Some(GazeEvent::Present) ==> exists|m: int|
            0 <= m < k && #[trigger] event_at(fs, m) == Some(GazeEvent::Away),
        event_at(fs, j) == Some(GazeEvent::Away) && event_at(fs, k) == Some(GazeEvent::Away)
            ==> exists|m: int| j < m < k && #[trigger] event_at(fs, m) == Some(GazeEvent::Present),
        event_at(fs, j) == Some(GazeEvent::Present) && event_at(fs, k) == Some(
            GazeEvent::Present,
        ) ==> exists|m: int| j < m < k && #[trigger] event_at(fs, m) == Some(GazeEvent::Away),
{
    lemma_gaze_history(fs, j);
    lemma_gaze_history(fs, k);
    assert(fs.take(0) =~= Seq::<bool>::empty());
    if event_at(fs, k) == Some(GazeEvent::Present) {
        lemma_flip_needs_event(fs, 0, k, false);
    }
    if event_at(fs, j) == Some(GazeEvent::Away) && event_at(fs, k) == Some(GazeEvent::Away) {
        lemma_flip_needs_event(fs, j + 1, k, true);
    }
    if event_at(fs, j) == Some(GazeEvent::Present) && event_at(fs, k) == Some(GazeEvent::Present) {
        lemma_flip_needs_event(fs, j + 1, k, false);
    }
}

} // verus!
