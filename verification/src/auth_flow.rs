//! Decisions of the recognition loop: what each camera frame does to the
//! counters, when the loop stops, and what it answers.
//!
//! The caller reads frames, runs the models and compares similarity scores;
//! it reports each frame's outcome as a [`FrameEvent`] and acts on the
//! returned [`FrameStep`].

use crate::text::{decimal, push_decimal};
use vstd::prelude::*;
use vstd::string::StringExecFns;

verus! {

/// Stopping rules of one authentication attempt.
#[derive(Debug)]
pub struct AuthLimits {
    pub consecutive_match_frames: u32,
    pub required_valid_frames: u32,
    /// Stop as soon as enough valid frames were seen (only when some are required).
    pub stop_on_valid_frames: bool,
    /// Frame budget; 0 means unlimited.
    pub max_frames: u32,
}

impl AuthLimits {
    pub fn new(consecutive_match_frames: u32, valid_frames: u32, stop_on_valid_frames: bool, max_frames: u32) -> (r: AuthLimits)
        ensures
            r.consecutive_match_frames == consecutive_match_frames,
            r.required_valid_frames == valid_frames,
            r.stop_on_valid_frames == (stop_on_valid_frames && valid_frames > 0),
            r.max_frames == max_frames,
    {
        AuthLimits {
            consecutive_match_frames,
            required_valid_frames: valid_frames,
            stop_on_valid_frames: stop_on_valid_frames && valid_frames > 0,
            max_frames,
        }
    }
}

/// Counters of the loop so far.
#[derive(Debug)]
pub struct AuthProgress {
    pub frame_count: u32,
    pub valid_frame_count: u32,
    pub consecutive_matches: u32,
    pub max_consecutive_matches: u32,
    /// Some frame matched, so a best match is on record.
    pub has_best: bool,
}

/// What happened to one frame.
#[derive(Debug)]
pub enum FrameEvent {
    /// The session was cancelled.
    Cancelled,
    /// No frame could be read.
    ReadFailed,
    /// No face was detected, or the primary face was refused.
    NoFace,
    /// A valid face failed the liveness check (or the check failed).
    LivenessRejected,
    /// A valid face gave no embedding.
    EmbeddingFailed,
    /// A valid face matched no enrolled face above the threshold.
    Unmatched,
    /// A valid face matched; `improves` tells whether its similarity beats
    /// the best one on record.
    Matched { improves: bool },
}

/// The answer of an attempt.
#[derive(Debug)]
pub enum AuthVerdict {
    /// Success with the best match on record.
    Accepted,
    Rejected(String),
}

/// What the caller does after a frame.
#[derive(Debug)]
pub struct FrameStep {
    /// Record this frame's match as the best one.
    pub record_best: bool,
    /// Stop with this answer.
    pub verdict: Option<AuthVerdict>,
}

/// Counters are consistent: runs never exceed the valid frames, valid frames
/// never exceed frames, and a best match is on record exactly when some frame
/// matched.
pub open spec fn progress_wf(p: AuthProgress) -> bool {
    &&& p.consecutive_matches <= p.max_consecutive_matches
    &&& p.max_consecutive_matches <= p.valid_frame_count
    &&& p.valid_frame_count <= p.frame_count
    &&& p.has_best <==> p.max_consecutive_matches > 0
}

/// `expected` is `None` for acceptance, or the rejection text.
pub open spec fn verdict_is(v: AuthVerdict, expected: Option<Seq<char>>) -> bool {
    match v {
        AuthVerdict::Accepted => expected is None,
        AuthVerdict::Rejected(m) => expected == Some(m@),
    }
}

pub open spec fn interrupt_text() -> Seq<char> {
    "用户手动打断"@
}

pub open spec fn stop_text(valid: u32, consecutive: u32) -> Seq<char> {
    "Recognition failed after "@ + decimal(valid as nat) + " valid frame(s); required "@
        + decimal(consecutive as nat) + " consecutive matched frame(s)"@
}

pub open spec fn too_few_text(valid: u32, required: u32) -> Seq<char> {
    "Recognition ended with only "@ + decimal(valid as nat) + " valid frame(s); required at least "@
        + decimal(required as nat)
}

pub open spec fn ended_text(valid: u32, consecutive: u32) -> Seq<char> {
    "Recognition ended after "@ + decimal(valid as nat) + " valid frame(s); required "@
        + decimal(consecutive as nat) + " consecutive matched frame(s)"@
}

/// The loop reads another frame: not timed out, and the frame budget (if
/// any) not spent.
pub open spec fn may_continue(p: AuthProgress, l: AuthLimits, timed_out: bool) -> bool {
    !timed_out && (l.max_frames == 0 || p.frame_count < l.max_frames)
}

/// The frame reached the face checks.
pub open spec fn counts_valid(e: FrameEvent) -> bool {
    match e {
        FrameEvent::LivenessRejected | FrameEvent::EmbeddingFailed | FrameEvent::Unmatched
        | FrameEvent::Matched { .. } => true,
        _ => false,
    }
}

/// Counters after a frame.
pub open spec fn next_progress(p: AuthProgress, e: FrameEvent) -> AuthProgress {
    match e {
        FrameEvent::Cancelled => p,
        FrameEvent::ReadFailed => AuthProgress { frame_count: (p.frame_count + 1) as u32, ..p },
        FrameEvent::Matched { .. } => {
            let run = (p.consecutive_matches + 1) as u32;
            AuthProgress {
                frame_count: (p.frame_count + 1) as u32,
                valid_frame_count: (p.valid_frame_count + 1) as u32,
                consecutive_matches: run,
                max_consecutive_matches: if run > p.max_consecutive_matches { run } else { p.max_consecutive_matches },
                has_best: true,
            }
        },
        _ => AuthProgress {
            frame_count: (p.frame_count + 1) as u32,
            valid_frame_count: if counts_valid(e) { (p.valid_frame_count + 1) as u32 } else { p.valid_frame_count },
            consecutive_matches: 0,
            ..p
        },
    }
}

/// This frame's match becomes the best one: it improves on the record, or
/// there is none yet.
pub open spec fn records_best(p: AuthProgress, e: FrameEvent) -> bool {
    e matches FrameEvent::Matched { improves } && (improves || !p.has_best)
}

/// Enough consecutive matched frames, with a best match on record.
pub open spec fn accepts(p: AuthProgress, l: AuthLimits) -> bool {
    p.max_consecutive_matches >= l.consecutive_match_frames && p.has_best
}

/// Whether a frame ends the attempt, and with what answer.
pub open spec fn frame_verdict(p: AuthProgress, l: AuthLimits, e: FrameEvent) -> Option<Option<Seq<char>>> {
    match e {
        FrameEvent::Cancelled => Some(Some(interrupt_text())),
        FrameEvent::Unmatched | FrameEvent::Matched { .. } => {
            let q = next_progress(p, e);
            if l.stop_on_valid_frames && q.valid_frame_count >= l.required_valid_frames {
                if accepts(q, l) {
                    Some(None)
                } else {
                    Some(Some(stop_text(q.valid_frame_count, l.consecutive_match_frames)))
                }
            } else {
                None
            }
        },
        _ => None,
    }
}

/// The answer once the loop has run out of time or frames.
pub open spec fn end_verdict(p: AuthProgress, l: AuthLimits) -> Option<Seq<char>> {
    if l.required_valid_frames > 0 && p.valid_frame_count < l.required_valid_frames {
        Some(too_few_text(p.valid_frame_count, l.required_valid_frames))
    } else if accepts(p, l) {
        None
    } else {
        Some(ended_text(p.valid_frame_count, l.consecutive_match_frames))
    }
}

fn counted_text(prefix: &str, n: u32, middle: &str, m: u32, suffix: &str) -> (r: String)
    ensures
        r@ == prefix@ + decimal(n as nat) + middle@ + decimal(m as nat) + suffix@,
{
    let mut s = String::from_str(prefix);
    push_decimal(&mut s, n as u64);
    s.append(middle);
    push_decimal(&mut s, m as u64);
    s.append(suffix);
    s
}

impl AuthProgress {
    /// Counters before the first frame.
    pub fn new() -> (r: AuthProgress)
        ensures
            r.frame_count == 0,
            r.valid_frame_count == 0,
            r.consecutive_matches == 0,
            r.max_consecutive_matches == 0,
            !r.has_best,
            progress_wf(r),
    {
        AuthProgress {
            frame_count: 0,
            valid_frame_count: 0,
            consecutive_matches: 0,
            max_consecutive_matches: 0,
            has_best: false,
        }
    }

    /// Whether the loop reads another frame.
    pub fn may_continue(&self, limits: &AuthLimits, timed_out: bool) -> (r: bool)
        ensures
            r == may_continue(*self, *limits, timed_out),
    {
        !timed_out && (limits.max_frames == 0 || self.frame_count < limits.max_frames)
    }

    /// Applies one frame's outcome to the counters and says what to do next.
    pub fn on_frame(&mut self, limits: &AuthLimits, event: FrameEvent) -> (r: FrameStep)
        requires
            progress_wf(*old(self)),
            old(self).frame_count < u32::MAX,
        ensures
            *final(self) == next_progress(*old(self), event),
            progress_wf(*final(self)),
            r.record_best == records_best(*old(self), event),
            match frame_verdict(*old(self), *limits, event) {
                None => r.verdict is None,
                Some(v) => r.verdict matches Some(x) && verdict_is(x, v),
            },
    {
        let record_best = match event {
            FrameEvent::Matched { improves } => improves || !self.has_best,
            _ => false,
        };
        match event {
            FrameEvent::Cancelled => {
                return FrameStep {
                    record_best: false,
                    verdict: Some(AuthVerdict::Rejected(String::from_str("用户手动打断"))),
                };
            },
            FrameEvent::ReadFailed => {
                self.frame_count = self.frame_count + 1;
                return FrameStep { record_best: false, verdict: None };
            },
            FrameEvent::NoFace => {
                self.frame_count = self.frame_count + 1;
                self.consecutive_matches = 0;
                return FrameStep { record_best: false, verdict: None };
            },
            FrameEvent::LivenessRejected | FrameEvent::EmbeddingFailed => {
                self.frame_count = self.frame_count + 1;
                self.valid_frame_count = self.valid_frame_count + 1;
                self.consecutive_matches = 0;
                return FrameStep { record_best: false, verdict: None };
            },
            FrameEvent::Unmatched => {
                self.frame_count = self.frame_count + 1;
                self.valid_frame_count = self.valid_frame_count + 1;
                self.consecutive_matches = 0;
            },
            FrameEvent::Matched { .. } => {
                self.frame_count = self.frame_count + 1;
                self.valid_frame_count = self.valid_frame_count + 1;
                self.consecutive_matches = self.consecutive_matches + 1;
                if self.consecutive_matches > self.max_consecutive_matches {
                    self.max_consecutive_matches = self.consecutive_matches;
                }
                self.has_best = true;
            },
        }
        if limits.stop_on_valid_frames && self.valid_frame_count >= limits.required_valid_frames {
            if self.max_consecutive_matches >= limits.consecutive_match_frames && self.has_best {
                return FrameStep { record_best, verdict: Some(AuthVerdict::Accepted) };
            }
            let m = counted_text(
                "Recognition failed after ",
                self.valid_frame_count,
                " valid frame(s); required ",
                limits.consecutive_match_frames,
                " consecutive matched frame(s)",
            );
            return FrameStep { record_best, verdict: Some(AuthVerdict::Rejected(m)) };
        }
        FrameStep { record_best, verdict: None }
    }

    /// The answer when the loop ends without an earlier verdict.
    pub fn conclude(&self, limits: &AuthLimits) -> (r: AuthVerdict)
        ensures
            verdict_is(r, end_verdict(*self, *limits)),
    {
        if limits.required_valid_frames > 0 && self.valid_frame_count < limits.required_valid_frames {
            let mut s = String::from_str("Recognition ended with only ");
            push_decimal(&mut s, self.valid_frame_count as u64);
            s.append(" valid frame(s); required at least ");
            push_decimal(&mut s, limits.required_valid_frames as u64);
            return AuthVerdict::Rejected(s);
        }
        if self.max_consecutive_matches >= limits.consecutive_match_frames && self.has_best {
            return AuthVerdict::Accepted;
        }
        AuthVerdict::Rejected(counted_text(
            "Recognition ended after ",
            self.valid_frame_count,
            " valid frame(s); required ",
            limits.consecutive_match_frames,
            " consecutive matched frame(s)",
        ))
    }
}

/// An attempt is only ever accepted with a run of at least the required
/// number of consecutive matched frames behind it, and with a best match on
/// record; at the end it also needs the required number of valid frames.
pub proof fn lemma_acceptance_needs_matches(p: AuthProgress, l: AuthLimits, e: FrameEvent)
    requires
        progress_wf(p),
    ensures
        frame_verdict(p, l, e) == Some(None::<Seq<char>>) ==> accepts(next_progress(p, e), l)
            && next_progress(p, e).valid_frame_count >= l.required_valid_frames,
        end_verdict(p, l) is None ==> accepts(p, l) && p.valid_frame_count >= l.required_valid_frames
            && p.max_consecutive_matches >= 1,
{
}

/// A cancelled session is refused with the interrupt message, whatever the
/// counters say, and the counters stay as they were.
pub proof fn lemma_cancel_refuses(p: AuthProgress, l: AuthLimits)
    ensures
        frame_verdict(p, l, FrameEvent::Cancelled) == Some(Some(interrupt_text())),
        next_progress(p, FrameEvent::Cancelled) == p,
{
}

/// Every frame that is not a cancellation uses up one frame of the budget;
/// valid frames never decrease; a frame that was read but did not match
/// breaks the current run of matches, and an unreadable frame leaves it.
pub proof fn lemma_frame_counting(p: AuthProgress, e: FrameEvent)
    requires
        progress_wf(p),
        p.frame_count < u32::MAX,
        !(e is Cancelled),
    ensures
        next_progress(p, e).frame_count == p.frame_count + 1,
        next_progress(p, e).valid_frame_count == p.valid_frame_count + (if counts_valid(e) { 1int } else { 0int }),
        !(e is Matched) && !(e is ReadFailed) ==> next_progress(p, e).consecutive_matches == 0,
        e is ReadFailed ==> next_progress(p, e).consecutive_matches == p.consecutive_matches,
        e is Matched ==> next_progress(p, e).consecutive_matches == p.consecutive_matches + 1,
        progress_wf(next_progress(p, e)),
{
}

/// With a frame budget, the loop reads at most that many frames.
pub proof fn lemma_frame_budget(p: AuthProgress, l: AuthLimits, timed_out: bool)
    requires
        l.max_frames > 0,
        may_continue(p, l, timed_out),
    ensures
        p.frame_count < l.max_frames,
        !timed_out,
{
}

/// The counters after `n` frames in a row that all matched, from a fresh start.
pub open spec fn matched_run(n: u32) -> AuthProgress {
    AuthProgress {
        frame_count: n,
        valid_frame_count: n,
        consecutive_matches: n,
        max_consecutive_matches: n,
        has_best: n > 0,
    }
}

/// A face that matches on every frame is accepted. A fresh attempt is the
/// empty run and each matched frame extends the run; with an early stop, no
/// frame before the required number of valid frames ends the attempt, and
/// the frame that completes that number accepts when the required run of
/// matches is no longer; without one, the end of the loop accepts a run that
/// meets both numbers.
pub proof fn lemma_matching_face_accepted(l: AuthLimits, n: u32, improves: bool)
    requires
        n < u32::MAX,
    ensures
        matched_run(0) == (AuthProgress {
            frame_count: 0,
            valid_frame_count: 0,
            consecutive_matches: 0,
            max_consecutive_matches: 0,
            has_best: false,
        }),
        progress_wf(matched_run(n)),
        next_progress(matched_run(n), FrameEvent::Matched { improves }) == matched_run((n + 1) as u32),
        l.stop_on_valid_frames && n + 1 < l.required_valid_frames ==> frame_verdict(
            matched_run(n),
            l,
            FrameEvent::Matched { improves },
        ) is None,
        l.stop_on_valid_frames && n + 1 == l.required_valid_frames && l.consecutive_match_frames <= n + 1
            ==> frame_verdict(matched_run(n), l, FrameEvent::Matched { improves }) == Some(None::<Seq<char>>),
        n > 0 && n >= l.required_valid_frames && n >= l.consecutive_match_frames ==> end_verdict(matched_run(n), l)
            is None,
{
}

// ---------------------------------------------------------------------------
// Runs of matches over a whole attempt

/// A frame that ends a run of matches: one that was read but did not match.
/// A frame that could not be read leaves the run as it is.
pub open spec fn breaks_run(e: FrameEvent) -> bool {
    !(e is Matched) && !(e is ReadFailed)
}

/// How many frames of `s` matched.
pub open spec fn matched_in(s: Seq<FrameEvent>) -> nat
    decreases s.len(),
{
    if s.len() == 0 {
        0
    } else {
        matched_in(s.drop_last()) + (if s.last() is Matched { 1nat } else { 0nat })
    }
}

/// How many frames of `s` reached the face checks.
pub open spec fn valid_in(s: Seq<FrameEvent>) -> nat
    decreases s.len(),
{
    if s.len() == 0 {
        0
    } else {
        valid_in(s.drop_last()) + (if counts_valid(s.last()) { 1nat } else { 0nat })
    }
}

/// No frame of `s` ends a run of matches.
pub open spec fn unbroken(s: Seq<FrameEvent>) -> bool {
    forall|k: int| 0 <= k < s.len() ==> !breaks_run(#[trigger] s[k])
}

/// Somewhere in the frames `s` there are `n` matched frames with no frame
/// between them that ends the run.
pub open spec fn has_run(s: Seq<FrameEvent>, n: nat) -> bool {
    exists|i: int, j: int|
        0 <= i <= j <= s.len() && unbroken(#[trigger] s.subrange(i, j)) && matched_in(s.subrange(i, j)) >= n
}

/// No frame of `s` is a cancellation (a cancellation ends the attempt).
pub open spec fn never_cancelled(s: Seq<FrameEvent>) -> bool {
    forall|k: int| 0 <= k < s.len() ==> !(#[trigger] s[k] is Cancelled)
}

/// The counters before the first frame.
pub open spec fn fresh_progress() -> AuthProgress {
    AuthProgress {
        frame_count: 0,
        valid_frame_count: 0,
        consecutive_matches: 0,
        max_consecutive_matches: 0,
        has_best: false,
    }
}

/// The counters after the frames `s`, one `on_frame` step per frame from a
/// fresh start.
pub open spec fn progress_after(s: Seq<FrameEvent>) -> AuthProgress
    decreases s.len(),
{
    if s.len() == 0 {
        fresh_progress()
    } else {
        next_progress(progress_after(s.drop_last()), s.last())
    }
}

proof fn lemma_push_subranges(s: Seq<FrameEvent>, e: FrameEvent)
    ensures
        forall|i: int, j: int| 0 <= i <= j <= s.len() ==> #[trigger] s.push(e).subrange(i, j) == s.subrange(i, j),
        forall|i: int| 0 <= i <= s.len() ==> #[trigger] s.push(e).subrange(i, s.len() + 1int) == s.subrange(i, s.len() as int).push(e),
{
    assert forall|i: int, j: int| 0 <= i <= j <= s.len() implies #[trigger] s.push(e).subrange(i, j) == s.subrange(i, j) by {
        assert(s.push(e).subrange(i, j) =~= s.subrange(i, j));
    }
    assert forall|i: int| 0 <= i <= s.len() implies #[trigger] s.push(e).subrange(i, s.len() + 1int) == s.subrange(i, s.len() as int).push(e) by {
        assert(s.push(e).subrange(i, s.len() + 1int) =~= s.subrange(i, s.len() as int).push(e));
    }
}

proof fn lemma_push_counts(x: Seq<FrameEvent>, e: FrameEvent)
    ensures
        matched_in(x.push(e)) == matched_in(x) + (if e is Matched { 1nat } else { 0nat }),
        valid_in(x.push(e)) == valid_in(x) + (if counts_valid(e) { 1nat } else { 0nat }),
        unbroken(x.push(e)) <==> unbroken(x) && !breaks_run(e),
{
    assert(x.push(e).drop_last() =~= x);
    if unbroken(x.push(e)) {
        assert forall|k: int| 0 <= k < x.len() implies !breaks_run(#[trigger] x[k]) by {
            assert(x.push(e)[k] == x[k]);
        }
        assert(x.push(e)[x.len() as int] == e);
    }
}

/// What the counters hold after any frames: the frame and valid-frame
/// counts, the current run (the matches since the last frame that ended a
/// run) and the longest run of matches anywhere in the frames.
proof fn lemma_progress_runs(s: Seq<FrameEvent>)
    requires
        never_cancelled(s),
        s.len() < u32::MAX,
    ensures
        progress_wf(progress_after(s)),
        progress_after(s).frame_count == s.len(),
        progress_after(s).valid_frame_count == valid_in(s),
        forall|i: int| 0 <= i <= s.len() && unbroken(#[trigger] s.subrange(i, s.len() as int))
            ==> matched_in(s.subrange(i, s.len() as int)) <= progress_after(s).consecutive_matches,
        exists|b: int| 0 <= b <= s.len() && unbroken(#[trigger] s.subrange(b, s.len() as int))
            && matched_in(s.subrange(b, s.len() as int)) == progress_after(s).consecutive_matches,
        forall|i: int, j: int| 0 <= i <= j <= s.len() && unbroken(#[trigger] s.subrange(i, j))
            ==> matched_in(s.subrange(i, j)) <= progress_after(s).max_consecutive_matches,
        exists|i: int, j: int| 0 <= i <= j <= s.len() && unbroken(#[trigger] s.subrange(i, j))
            && matched_in(s.subrange(i, j)) == progress_after(s).max_consecutive_matches,
    decreases s.len(),
{
    let n = s.len() as int;
    if n == 0 {
        assert(s.subrange(0, 0) =~= Seq::<FrameEvent>::empty());
        assert(unbroken(s.subrange(0, 0)));
        assert(matched_in(s.subrange(0, 0)) == 0);
    } else {
        let t = s.drop_last();
        let e = s.last();
        assert(t.push(e) =~= s);
        assert(never_cancelled(t)) by {
            assert forall|k: int| 0 <= k < t.len() implies !(#[trigger] t[k] is Cancelled) by {
                assert(t[k] == s[k]);
            }
        }
        assert(!(e is Cancelled)) by {
            assert(s[n - 1] == e);
        }
        lemma_progress_runs(t);
        lemma_push_subranges(t, e);
        let p = progress_after(t);
        let q = progress_after(s);
        assert(q == next_progress(p, e));
        lemma_push_counts(t, e);
        let m: int = n - 1;
        // the empty window at the end
        assert(s.subrange(n, n) =~= Seq::<FrameEvent>::empty());
        assert(unbroken(s.subrange(n, n)));
        assert(matched_in(s.subrange(n, n)) == 0) by {
            assert(s.subrange(n, n).len() == 0);
        }
        // suffix bound
        assert forall|i: int| 0 <= i <= n && unbroken(#[trigger] s.subrange(i, n))
            implies matched_in(s.subrange(i, n)) <= q.consecutive_matches by {
            if i < n {
                assert(s.subrange(i, n) == t.subrange(i, m).push(e));
                lemma_push_counts(t.subrange(i, m), e);
                assert(unbroken(t.subrange(i, m)));
            }
        }
        // the current run
        if breaks_run(e) {
            assert(0 <= n <= n && unbroken(s.subrange(n, n)) && matched_in(s.subrange(n, n)) == q.consecutive_matches);
        } else {
            let b = choose|b: int| 0 <= b <= m && unbroken(#[trigger] t.subrange(b, m))
                && matched_in(t.subrange(b, m)) == p.consecutive_matches;
            assert(s.subrange(b, n) == t.subrange(b, m).push(e));
            lemma_push_counts(t.subrange(b, m), e);
            assert(0 <= b <= n && unbroken(s.subrange(b, n)) && matched_in(s.subrange(b, n)) == q.consecutive_matches);
        }
        // every window is bounded by the longest run
        assert forall|i: int, j: int| 0 <= i <= j <= n && unbroken(#[trigger] s.subrange(i, j))
            implies matched_in(s.subrange(i, j)) <= q.max_consecutive_matches by {
            if j <= m {
                assert(s.subrange(i, j) == t.subrange(i, j));
            } else {
                assert(s.subrange(i, n) == s.subrange(i, j));
            }
        }
        // the longest run is some window
        let (i0, j0) = choose|i: int, j: int| 0 <= i <= j <= m && unbroken(#[trigger] t.subrange(i, j))
            && matched_in(t.subrange(i, j)) == p.max_consecutive_matches;
        if q.max_consecutive_matches == p.max_consecutive_matches {
            assert(s.subrange(i0, j0) == t.subrange(i0, j0));
            assert(0 <= i0 <= j0 <= n && unbroken(s.subrange(i0, j0))
                && matched_in(s.subrange(i0, j0)) == q.max_consecutive_matches);
        } else {
            let b = choose|b: int| 0 <= b <= n && unbroken(#[trigger] s.subrange(b, n))
                && matched_in(s.subrange(b, n)) == q.consecutive_matches;
            assert(0 <= b <= n && unbroken(s.subrange(b, n))
                && matched_in(s.subrange(b, n)) == q.max_consecutive_matches);
        }
    }
}

/// The longest run of matches decides. After any frames (none of them a
/// cancellation), the counters count every frame and every valid frame, and
/// the attempt accepts exactly when somewhere in the frames there is a run of
/// at least the required number of matched frames, and at least one match:
/// a later frame that breaks the run does not undo that. This holds for the
/// early stop on the frame that completes the required valid frames and for
/// the answer at the end of the loop, which also needs the required valid
/// frames. More frames never lose a run, so an attempt that accepts keeps
/// accepting.
pub proof fn lemma_longest_run_decides(s: Seq<FrameEvent>, l: AuthLimits, e: FrameEvent)
    requires
        never_cancelled(s),
        s.len() + 1 < u32::MAX,
    ensures
        progress_after(s).frame_count == s.len(),
        progress_after(s).valid_frame_count == valid_in(s),
        forall|n: nat| #[trigger] has_run(s, n) <==> progress_after(s).max_consecutive_matches >= n,
        accepts(progress_after(s), l) <==> has_run(s, l.consecutive_match_frames as nat) && has_run(s, 1),
        end_verdict(progress_after(s), l) is None <==> (l.required_valid_frames == 0
            || valid_in(s) >= l.required_valid_frames) && has_run(s, l.consecutive_match_frames as nat)
            && has_run(s, 1),
        (e is Matched || e is Unmatched) ==> (frame_verdict(progress_after(s), l, e) == Some(None::<Seq<char>>)
            <==> l.stop_on_valid_frames && valid_in(s.push(e)) >= l.required_valid_frames
            && has_run(s.push(e), l.consecutive_match_frames as nat) && has_run(s.push(e), 1)),
        forall|n: nat| has_run(s, n) ==> #[trigger] has_run(s.push(e), n),
        !(e is Cancelled) && accepts(progress_after(s), l) ==> accepts(progress_after(s.push(e)), l),
{
    lemma_progress_runs(s);
    let p = progress_after(s);
    assert forall|n: nat| #[trigger] has_run(s, n) <==> p.max_consecutive_matches >= n by {
        if p.max_consecutive_matches >= n {
            let (i, j) = choose|i: int, j: int| 0 <= i <= j <= s.len() && unbroken(#[trigger] s.subrange(i, j))
                && matched_in(s.subrange(i, j)) == p.max_consecutive_matches;
            assert(0 <= i <= j <= s.len() && unbroken(s.subrange(i, j)) && matched_in(s.subrange(i, j)) >= n);
        }
    }
    lemma_push_subranges(s, e);
    assert forall|n: nat| has_run(s, n) implies #[trigger] has_run(s.push(e), n) by {
        let (i, j) = choose|i: int, j: int| 0 <= i <= j <= s.len() && unbroken(#[trigger] s.subrange(i, j))
            && matched_in(s.subrange(i, j)) >= n;
        assert(s.push(e).subrange(i, j) == s.subrange(i, j));
    }
    let s2 = s.push(e);
    assert(s2.drop_last() =~= s);
    if !(e is Cancelled) {
        assert(never_cancelled(s2)) by {
            assert forall|k: int| 0 <= k < s2.len() implies !(#[trigger] s2[k] is Cancelled) by {
                if k < s.len() {
                    assert(s2[k] == s[k]);
                }
            }
        }
        lemma_progress_runs(s2);
        let q = progress_after(s2);
        assert(q == next_progress(p, e));
        assert forall|n: nat| #[trigger] has_run(s2, n) <==> q.max_consecutive_matches >= n by {
            if q.max_consecutive_matches >= n {
                let (i, j) = choose|i: int, j: int| 0 <= i <= j <= s2.len() && unbroken(#[trigger] s2.subrange(i, j))
                    && matched_in(s2.subrange(i, j)) == q.max_consecutive_matches;
                assert(0 <= i <= j <= s2.len() && unbroken(s2.subrange(i, j)) && matched_in(s2.subrange(i, j)) >= n);
            }
        }
        assert(has_run(s2, l.consecutive_match_frames as nat) <==> q.max_consecutive_matches >= l.consecutive_match_frames);
        assert(has_run(s2, 1) <==> q.max_consecutive_matches >= 1);
    }
    assert(has_run(s, l.consecutive_match_frames as nat) <==> p.max_consecutive_matches >= l.consecutive_match_frames);
    assert(has_run(s, 1) <==> p.max_consecutive_matches >= 1);
}

} // verus!
