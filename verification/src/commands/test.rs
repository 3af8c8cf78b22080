//! The `test` command: frame counters of a recognition trial, when the trial
//! stops and whether its result counts as valid, and the texts it prints.
//!
//! The caller reads frames and runs the models; it reports each frame's
//! outcome as a [`TestEvent`].

use crate::commands::list::{push_spaces, spaces};
use crate::commands::{is_message, CommandError};
use crate::text::{decimal, lemma_seq_lt_asym, lemma_seq_lt_total, lemma_seq_lt_trans, push_decimal, seq_lt, str_eq, str_lt};
use vstd::prelude::*;
use vstd::string::StrSliceExecFns;
use vstd::string::StringExecFns;

verus! {

/// Why a trial stopped.
#[derive(Debug, Clone, Copy, PartialEq, Eq, Structural)]
pub enum StopReason {
    UserStopped,
    TimeoutReached,
    FrameLimitReached,
    ValidFrameThresholdReached,
}

impl StopReason {
    pub open spec fn text(self) -> Seq<char> {
        match self {
            StopReason::UserStopped => "user_stopped"@,
            StopReason::TimeoutReached => "timeout_reached"@,
            StopReason::FrameLimitReached => "frame_limit_reached"@,
            StopReason::ValidFrameThresholdReached => "valid_frame_threshold_reached"@,
        }
    }

    /// The name printed for the reason.
    pub fn as_str(self) -> (r: &'static str)
        ensures
            r@ == self.text(),
    {
        match self {
            StopReason::UserStopped => "user_stopped",
            StopReason::TimeoutReached => "timeout_reached",
            StopReason::FrameLimitReached => "frame_limit_reached",
            StopReason::ValidFrameThresholdReached => "valid_frame_threshold_reached",
        }
    }
}

/// Limits of a trial.
#[derive(Debug)]
pub struct TestLimits {
    /// Frame budget (0 means unlimited).
    pub frames: u32,
    pub enforce_frame_limit: bool,
    pub enforce_timeout: bool,
    pub stop_on_valid_frames: bool,
    pub required_valid_frames: u32,
    pub consecutive_match_frames: u32,
}

impl TestLimits {
    /// The limits for the given options: the frame budget is the override when
    /// given, else the configured one; debug mode lifts the frame budget, the
    /// timeout and the early stop.
    pub fn new(
        frames_override: Option<u32>,
        max_frames: u32,
        timeout: u32,
        debug: bool,
        stop_on_valid_frames: bool,
        valid_frames: u32,
        consecutive_match_frames: u32,
    ) -> (r: TestLimits)
        ensures
            r.frames == match frames_override {
                Some(f) => f,
                None => max_frames,
            },
            r.enforce_frame_limit == (!debug && r.frames > 0),
            r.enforce_timeout == (!debug && timeout > 0),
            r.stop_on_valid_frames == (stop_on_valid_frames && !debug && valid_frames > 0),
            r.required_valid_frames == valid_frames,
            r.consecutive_match_frames == consecutive_match_frames,
    {
        let frames = match frames_override {
            Some(f) => f,
            None => max_frames,
        };
        TestLimits {
            frames,
            enforce_frame_limit: !debug && frames > 0,
            enforce_timeout: !debug && timeout > 0,
            stop_on_valid_frames: stop_on_valid_frames && !debug && valid_frames > 0,
            required_valid_frames: valid_frames,
            consecutive_match_frames,
        }
    }
}

/// Counters of a trial.
#[derive(Debug)]
pub struct TestStats {
    pub total_frames: u32,
    pub frame_errors: u32,
    pub no_face_frames: u32,
    pub detected_face_frames: u32,
    pub invalid_face_frames: u32,
    pub valid_frames: u32,
    pub matched_frames: u32,
    pub unmatched_frames: u32,
    pub spoof_frames: u32,
    pub max_consecutive_matches: u32,
    /// Length of the current run of matched frames.
    pub consecutive_matches: u32,
}

/// What happened to one frame of a trial.
#[derive(Debug)]
pub enum TestEvent {
    /// The frame could not be read.
    FrameError,
    /// No face was detected.
    NoFace,
    /// The primary face was refused as invalid.
    InvalidFace,
    /// Choosing the primary face failed otherwise.
    SelectionFailed,
    /// A valid face was refused as invalid by the liveness check.
    LivenessInvalid,
    /// The liveness check failed with an error.
    LivenessError,
    /// A valid face was judged a spoof.
    Spoof,
    /// No embedding could be computed for a valid face.
    EmbeddingError,
    /// A valid face matched above the threshold.
    Matched,
    /// The best candidate stayed below the threshold.
    BelowThreshold,
    /// There was no candidate to compare with.
    NoCandidate,
    /// Matching failed with an error.
    MatchError,
}

/// The counters add up: each frame is an error, a frame without a face, or
/// one with a face; faces are refused or valid; valid faces are matched,
/// unmatched or spoofs at most once; runs of matches never exceed the matches.
pub open spec fn stats_wf(s: TestStats) -> bool {
    &&& s.frame_errors + s.no_face_frames + s.detected_face_frames == s.total_frames
    &&& s.valid_frames <= s.detected_face_frames
    &&& s.invalid_face_frames <= s.detected_face_frames
    &&& s.matched_frames + s.unmatched_frames + s.spoof_frames <= s.valid_frames
    &&& s.consecutive_matches <= s.max_consecutive_matches
    &&& s.max_consecutive_matches <= s.matched_frames
}

/// The frame reached the face checks.
pub open spec fn face_valid(e: TestEvent) -> bool {
    match e {
        TestEvent::FrameError | TestEvent::NoFace | TestEvent::InvalidFace | TestEvent::SelectionFailed => false,
        _ => true,
    }
}

/// After the frame, the trial goes on to the end-of-frame checks (rather
/// than skipping to the next frame).
pub open spec fn reaches_end_checks(e: TestEvent) -> bool {
    match e {
        TestEvent::Spoof | TestEvent::Matched | TestEvent::BelowThreshold | TestEvent::NoCandidate
        | TestEvent::MatchError => true,
        _ => false,
    }
}

/// Counters after a frame.
pub open spec fn next_stats(s: TestStats, e: TestEvent) -> TestStats {
    let t = TestStats { total_frames: (s.total_frames + 1) as u32, ..s };
    match e {
        TestEvent::FrameError => TestStats { frame_errors: (s.frame_errors + 1) as u32, ..t },
        TestEvent::NoFace => TestStats { no_face_frames: (s.no_face_frames + 1) as u32, ..t },
        TestEvent::InvalidFace => TestStats {
            detected_face_frames: (s.detected_face_frames + 1) as u32,
            invalid_face_frames: (s.invalid_face_frames + 1) as u32,
            consecutive_matches: 0,
            ..t
        },
        TestEvent::SelectionFailed => TestStats {
            detected_face_frames: (s.detected_face_frames + 1) as u32,
            consecutive_matches: 0,
            ..t
        },
        _ => {
            let v = TestStats {
                detected_face_frames: (s.detected_face_frames + 1) as u32,
                valid_frames: (s.valid_frames + 1) as u32,
                ..t
            };
            match e {
                TestEvent::LivenessInvalid => TestStats {
                    invalid_face_frames: (s.invalid_face_frames + 1) as u32,
                    consecutive_matches: 0,
                    ..v
                },
                TestEvent::Spoof => TestStats { spoof_frames: (s.spoof_frames + 1) as u32, consecutive_matches: 0, ..v },
                TestEvent::Matched => {
                    let run = (s.consecutive_matches + 1) as u32;
                    TestStats {
                        matched_frames: (s.matched_frames + 1) as u32,
                        consecutive_matches: run,
                        max_consecutive_matches: if run > s.max_consecutive_matches { run } else { s.max_consecutive_matches },
                        ..v
                    }
                },
                TestEvent::BelowThreshold | TestEvent::NoCandidate => TestStats {
                    unmatched_frames: (s.unmatched_frames + 1) as u32,
                    consecutive_matches: 0,
                    ..v
                },
                _ => TestStats { consecutive_matches: 0, ..v },
            }
        },
    }
}

/// Why the trial stops before reading another frame, if it does: a quit
/// request, then the timeout, then the frame budget.
pub open spec fn stop_before_frame(s: TestStats, l: TestLimits, quit_requested: bool, timed_out: bool) -> Option<StopReason> {
    if quit_requested {
        Some(StopReason::UserStopped)
    } else if l.enforce_timeout && timed_out {
        Some(StopReason::TimeoutReached)
    } else if l.enforce_frame_limit && s.total_frames >= l.frames {
        Some(StopReason::FrameLimitReached)
    } else {
        None
    }
}

/// Whether the trial stops after a frame: it reached the end-of-frame checks
/// and enough valid frames were seen for an early stop.
pub open spec fn stop_after_frame(s: TestStats, l: TestLimits, e: TestEvent) -> Option<StopReason> {
    if reaches_end_checks(e) && l.stop_on_valid_frames && next_stats(s, e).valid_frames >= l.required_valid_frames {
        Some(StopReason::ValidFrameThresholdReached)
    } else {
        None
    }
}

/// The judgement of a finished trial.
#[derive(Debug)]
pub struct TestVerdict {
    pub valid_frame_threshold_met: bool,
    pub consecutive_threshold_met: bool,
    /// Enough valid frames (when any are required) and a long enough run of matches.
    pub result_valid: bool,
}

impl TestStats {
    /// Counters before the first frame.
    pub fn new() -> (r: TestStats)
        ensures
            r.total_frames == 0 && r.frame_errors == 0 && r.no_face_frames == 0,
            r.detected_face_frames == 0 && r.invalid_face_frames == 0 && r.valid_frames == 0,
            r.matched_frames == 0 && r.unmatched_frames == 0 && r.spoof_frames == 0,
            r.max_consecutive_matches == 0 && r.consecutive_matches == 0,
            stats_wf(r),
    {
        TestStats {
            total_frames: 0,
            frame_errors: 0,
            no_face_frames: 0,
            detected_face_frames: 0,
            invalid_face_frames: 0,
            valid_frames: 0,
            matched_frames: 0,
            unmatched_frames: 0,
            spoof_frames: 0,
            max_consecutive_matches: 0,
            consecutive_matches: 0,
        }
    }

    /// Whether the trial stops before reading another frame, and why.
    pub fn stop_before_frame(&self, limits: &TestLimits, quit_requested: bool, timed_out: bool) -> (r: Option<StopReason>)
        ensures
            r == stop_before_frame(*self, *limits, quit_requested, timed_out),
    {
        if quit_requested {
            Some(StopReason::UserStopped)
        } else if limits.enforce_timeout && timed_out {
            Some(StopReason::TimeoutReached)
        } else if limits.enforce_frame_limit && self.total_frames >= limits.frames {
            Some(StopReason::FrameLimitReached)
        } else {
            None
        }
    }

    /// Counts one frame and says whether the trial stops after it.
    pub fn on_frame(&mut self, limits: &TestLimits, event: TestEvent) -> (r: Option<StopReason>)
        requires
            stats_wf(*old(self)),
            old(self).total_frames < u32::MAX,
        ensures
            *final(self) == next_stats(*old(self), event),
            stats_wf(*final(self)),
            r == stop_after_frame(*old(self), *limits, event),
    {
        self.total_frames = self.total_frames + 1;
        let valid = match event {
            TestEvent::FrameError => {
                self.frame_errors = self.frame_errors + 1;
                false
            },
            TestEvent::NoFace => {
                self.no_face_frames = self.no_face_frames + 1;
                false
            },
            TestEvent::InvalidFace => {
                self.detected_face_frames = self.detected_face_frames + 1;
                self.invalid_face_frames = self.invalid_face_frames + 1;
                self.consecutive_matches = 0;
                false
            },
            TestEvent::SelectionFailed => {
                self.detected_face_frames = self.detected_face_frames + 1;
                self.consecutive_matches = 0;
                false
            },
            _ => {
                self.detected_face_frames = self.detected_face_frames + 1;
                self.valid_frames = self.valid_frames + 1;
                true
            },
        };
        if valid {
            match event {
                TestEvent::LivenessInvalid => {
                    self.invalid_face_frames = self.invalid_face_frames + 1;
                    self.consecutive_matches = 0;
                },
                TestEvent::Spoof => {
                    self.spoof_frames = self.spoof_frames + 1;
                    self.consecutive_matches = 0;
                },
                TestEvent::Matched => {
                    self.matched_frames = self.matched_frames + 1;
                    self.consecutive_matches = self.consecutive_matches + 1;
                    if self.consecutive_matches > self.max_consecutive_matches {
                        self.max_consecutive_matches = self.consecutive_matches;
                    }
                },
                TestEvent::BelowThreshold | TestEvent::NoCandidate => {
                    self.unmatched_frames = self.unmatched_frames + 1;
                    self.consecutive_matches = 0;
                },
                _ => {
                    self.consecutive_matches = 0;
                },
            }
        }
        let end_checks = match event {
            TestEvent::Spoof | TestEvent::Matched | TestEvent::BelowThreshold | TestEvent::NoCandidate
            | TestEvent::MatchError => true,
            _ => false,
        };
        if end_checks && limits.stop_on_valid_frames && self.valid_frames >= limits.required_valid_frames {
            Some(StopReason::ValidFrameThresholdReached)
        } else {
            None
        }
    }

    /// Judges a finished trial.
    pub fn verdict(&self, limits: &TestLimits) -> (r: TestVerdict)
        ensures
            r.valid_frame_threshold_met == (self.valid_frames >= limits.required_valid_frames),
            r.consecutive_threshold_met == (self.max_consecutive_matches >= limits.consecutive_match_frames),
            r.result_valid == ((limits.required_valid_frames == 0 || self.valid_frames >= limits.required_valid_frames)
                && self.max_consecutive_matches >= limits.consecutive_match_frames),
    {
        let valid_met = self.valid_frames >= limits.required_valid_frames;
        let consecutive_met = self.max_consecutive_matches >= limits.consecutive_match_frames;
        TestVerdict {
            valid_frame_threshold_met: valid_met,
            consecutive_threshold_met: consecutive_met,
            result_valid: (limits.required_valid_frames == 0 || valid_met) && consecutive_met,
        }
    }
}

/// Every frame counts once, in exactly one of the error, no-face and face
/// counters; the counters stay consistent; and a frame without a match
/// that got as far as a face breaks the current run of matches.
pub proof fn lemma_test_frame_counting(s: TestStats, e: TestEvent)
    requires
        stats_wf(s),
        s.total_frames < u32::MAX,
    ensures
        next_stats(s, e).total_frames == s.total_frames + 1,
        stats_wf(next_stats(s, e)),
        next_stats(s, e).valid_frames == s.valid_frames + (if face_valid(e) { 1int } else { 0int }),
        next_stats(s, e).max_consecutive_matches >= s.max_consecutive_matches,
        !(e is Matched) && !(e is FrameError) && !(e is NoFace) ==> next_stats(s, e).consecutive_matches == 0,
{
}

/// With a frame budget in force, a trial never reads more frames than the
/// budget.
pub proof fn lemma_test_frame_budget(s: TestStats, l: TestLimits, quit: bool, timed_out: bool)
    requires
        l.enforce_frame_limit,
        stop_before_frame(s, l, quit, timed_out) is None,
    ensures
        s.total_frames < l.frames,
{
}


// ---------------------------------------------------------------------------
// Texts

/// Progress of the trial: `(current/total)`, or `(current/unlimited)`
/// without a budget.
pub open spec fn frame_progress_text(current: u32, total: u32) -> Seq<char> {
    if total == 0 {
        "("@ + decimal(current as nat) + "/unlimited)"@
    } else {
        "("@ + decimal(current as nat) + "/"@ + decimal(total as nat) + ")"@
    }
}

pub fn format_frame_progress(current: u32, total: u32) -> (r: String)
    ensures
        r@ == frame_progress_text(current, total),
{
    let mut s = String::from_str("(");
    push_decimal(&mut s, current as u64);
    if total == 0 {
        s.append("/unlimited)");
    } else {
        s.append("/");
        push_decimal(&mut s, total as u64);
        s.append(")");
    }
    s
}

/// An error message cut to its first 60 characters, with `...` when
/// something was cut.
pub open spec fn shortened_text(message: Seq<char>) -> Seq<char> {
    if message.len() <= 60 {
        message
    } else {
        message.take(60) + "..."@
    }
}

pub fn shorten_error(message: &str) -> (r: String)
    ensures
        r@ == shortened_text(message@),
{
    let n = message.unicode_len();
    if n <= 60 {
        String::from_str(message)
    } else {
        let head = message.substring_char(0, 60);
        let mut s = String::from_str(head);
        s.append("...");
        assert(head@ =~= message@.take(60));
        s
    }
}

/// Keys that end a trial in the preview window: Esc, Enter, `q` and `Q`.
pub open spec fn ends_trial(key: i32) -> bool {
    key == 27 || key == 10 || key == 13 || key == 113 || key == 81
}

pub fn should_end(key: i32) -> (r: bool)
    ensures
        r == ends_trial(key),
{
    key == 27 || key == 10 || key == 13 || key == 113 || key == 81
}

/// `text` in the terminal colour `color` (an SGR parameter list).
pub open spec fn colored(text: Seq<char>, color: Seq<char>) -> Seq<char> {
    "\x1b["@ + color + "m"@ + text + "\x1b[0m"@
}

pub fn colorize(text: &str, color: &str) -> (r: String)
    ensures
        r@ == colored(text@, color@),
{
    let mut s = String::from_str("\x1b[");
    s.append(color);
    s.append("m");
    s.append(text);
    s.append("\x1b[0m");
    s
}

/// The colour of a stop reason: yellow for the limits, green for an early
/// stop on enough valid frames, cyan otherwise.
pub open spec fn stop_reason_color_of(reason: Seq<char>) -> Seq<char> {
    if reason == "timeout_reached"@ || reason == "frame_limit_reached"@ {
        "33"@
    } else if reason == "valid_frame_threshold_reached"@ {
        "32"@
    } else {
        "36"@
    }
}

pub fn stop_reason_color(stop_reason: &str) -> (r: &'static str)
    ensures
        r@ == stop_reason_color_of(stop_reason@),
{
    if crate::text::str_eq(stop_reason, "timeout_reached") || crate::text::str_eq(stop_reason, "frame_limit_reached") {
        "33"
    } else if crate::text::str_eq(stop_reason, "valid_frame_threshold_reached") {
        "32"
    } else {
        "36"
    }
}

pub open spec fn debug_note(debug: bool) -> Seq<char> {
    if debug { " (ignored in debug mode)"@ } else { ""@ }
}

/// `Frame limit: N` (or `unlimited`), noting when debug mode ignores it.
pub open spec fn frame_limit_text(frames: u32, debug: bool) -> Seq<char> {
    "Frame limit: "@ + (if frames == 0 { "unlimited"@ } else { decimal(frames as nat) }) + debug_note(debug)
}

pub fn frame_limit_line(frames: u32, debug: bool) -> (r: String)
    ensures
        r@ == frame_limit_text(frames, debug),
{
    let mut s = String::from_str("Frame limit: ");
    if frames == 0 {
        s.append("unlimited");
    } else {
        push_decimal(&mut s, frames as u64);
    }
    if debug {
        s.append(" (ignored in debug mode)");
    } else {
        proof {
            reveal_strlit("");
        }
        assert(s@ + debug_note(debug) =~= s@);
    }
    s
}

/// `Timeout: Ns` (or `unlimited`), noting when debug mode ignores it.
pub open spec fn timeout_text(timeout: u32, debug: bool) -> Seq<char> {
    "Timeout: "@ + (if timeout == 0 { "unlimited"@ } else { decimal(timeout as nat) + "s"@ }) + debug_note(debug)
}

pub fn timeout_line(timeout: u32, debug: bool) -> (r: String)
    ensures
        r@ == timeout_text(timeout, debug),
{
    let mut s = String::from_str("Timeout: ");
    if timeout == 0 {
        s.append("unlimited");
    } else {
        push_decimal(&mut s, timeout as u64);
        s.append("s");
    }
    if debug {
        s.append(" (ignored in debug mode)");
    } else {
        proof {
            reveal_strlit("");
        }
        assert(s@ + debug_note(debug) =~= s@);
    }
    s
}

/// How to stop a trial: in the preview window, in debug mode, or otherwise.
pub open spec fn controls_text(view: bool, debug: bool) -> Seq<char> {
    if view {
        "Press Enter/Esc in the window, or q in the terminal.\n"@
    } else if debug {
        "Press q to stop.\n"@
    } else {
        "Press Ctrl+C to stop.\n"@
    }
}

pub fn controls_hint(view: bool, debug: bool) -> (r: &'static str)
    ensures
        r@ == controls_text(view, debug),
{
    if view {
        "Press Enter/Esc in the window, or q in the terminal.\n"
    } else if debug {
        "Press q to stop.\n"
    } else {
        "Press Ctrl+C to stop.\n"
    }
}

/// The refusal when no enrolled face fits the active model: all faces of
/// the group were considered, or only the selected ones.
pub open spec fn no_candidates_text(username: Seq<char>, group_name: Seq<char>, model_id: Seq<char>, selected: bool) -> Seq<
    char,
> {
    (if selected {
        "Selected faces in group '"@ + group_name + "' do not match active model '"@ + model_id + "'."@
    } else {
        "No faces registered for user '"@ + username + "' in group '"@ + group_name + "' for active model '"@
            + model_id + "'."@
    }) + " Use 'facepass add' with the current backend first."@
}

pub fn no_candidates_error(username: &str, group_name: &str, model_id: &str, selected: bool) -> (r: CommandError)
    ensures
        is_message(r, no_candidates_text(username@, group_name@, model_id@, selected)),
{
    let mut s = if selected {
        let mut s = String::from_str("Selected faces in group '");
        s.append(group_name);
        s.append("' do not match active model '");
        s.append(model_id);
        s.append("'.");
        s
    } else {
        let mut s = String::from_str("No faces registered for user '");
        s.append(username);
        s.append("' in group '");
        s.append(group_name);
        s.append("' for active model '");
        s.append(model_id);
        s.append("'.");
        s
    };
    s.append(" Use 'facepass add' with the current backend first.");
    CommandError::Message(s)
}


// ---------------------------------------------------------------------------
// Candidate summary

/// Number of times `l` occurs among `labels`.
pub open spec fn occurrences(labels: Seq<String>, l: Seq<char>) -> nat
    decreases labels.len(),
{
    if labels.len() == 0 {
        0
    } else {
        occurrences(labels.drop_last(), l) + if labels.last()@ == l { 1nat } else { 0nat }
    }
}

/// A label with its number of occurrences.
#[derive(Debug)]
pub struct LabelCount {
    pub label: String,
    pub count: usize,
}

/// `tally` lists each label of `labels` once, in ascending order, with the
/// number of times it occurs.
pub open spec fn is_tally(labels: Seq<String>, tally: Seq<LabelCount>) -> bool {
    &&& forall|i: int, j: int| 0 <= i < j < tally.len() ==> seq_lt(#[trigger] tally[i].label@, #[trigger] tally[j].label@)
    &&& forall|i: int| 0 <= i < tally.len() ==> (#[trigger] tally[i]).count == occurrences(labels, tally[i].label@)
        && tally[i].count > 0
    &&& forall|k: int| 0 <= k < labels.len() ==> exists|i: int| 0 <= i < tally.len() && #[trigger] tally[i].label@ == (#[trigger] labels[k])@
}

proof fn lemma_occurrences_push(labels: Seq<String>, x: String, l: Seq<char>)
    ensures
        occurrences(labels.push(x), l) == occurrences(labels, l) + if x@ == l { 1nat } else { 0nat },
{
    assert(labels.push(x).drop_last() =~= labels);
}

proof fn lemma_occurrences_bound(labels: Seq<String>, l: Seq<char>)
    ensures
        occurrences(labels, l) <= labels.len(),
        (forall|k: int| 0 <= k < labels.len() ==> labels[k]@ != l) ==> occurrences(labels, l) == 0,
    decreases labels.len(),
{
    if labels.len() > 0 {
        lemma_occurrences_bound(labels.drop_last(), l);
    }
}

proof fn lemma_seq_lt_irreflexive(a: Seq<char>)
    ensures
        !seq_lt(a, a),
{
    lemma_seq_lt_asym(a, a);
}

/// The distinct labels, in ascending order, each with its count.
#[verifier::spinoff_prover]
#[verifier::rlimit(40)]
pub fn tally_labels(labels: &Vec<String>) -> (r: Vec<LabelCount>)
    ensures
        is_tally(labels@, r@),
{
    let mut out: Vec<LabelCount> = Vec::new();
    let mut i: usize = 0;
    while i < labels.len()
        invariant
            i <= labels.len(),
            out@.len() <= i,
            is_tally(labels@.take(i as int), out@),
        decreases labels.len() - i,
    {
        let ghost prefix = labels@.take(i as int);
        let x = labels[i].as_str();
        proof {
            assert(labels@.take(i + 1) =~= prefix.push(labels@[i as int]));
        }
        let mut p: usize = 0;
        while p < out.len() && str_lt(out[p].label.as_str(), x)
            invariant
                p <= out@.len(),
                forall|q: int| 0 <= q < p ==> seq_lt(#[trigger] out@[q].label@, x@),
            decreases out.len() - p,
        {
            p = p + 1;
        }
        if p < out.len() && str_eq(out[p].label.as_str(), x) {
            let ghost before = out@;
            proof {
                lemma_occurrences_bound(prefix, x@);
            }
            let c = out[p].count + 1;
            let label = out[p].label.clone();
            out.set(p, LabelCount { label, count: c });
            proof {
                let next = labels@.take(i + 1);
                assert forall|q: int| 0 <= q < out@.len() implies (#[trigger] out@[q]).count == occurrences(next, out@[q].label@)
                    && out@[q].count > 0 by {
                    lemma_occurrences_push(prefix, labels@[i as int], out@[q].label@);
                    if q != p {
                        if q < p {
                            assert(seq_lt(before[q].label@, before[p as int].label@));
                        } else {
                            assert(seq_lt(before[p as int].label@, before[q].label@));
                        }
                        lemma_seq_lt_irreflexive(x@);
                    }
                }
                assert forall|k: int| 0 <= k < next.len() implies exists|q: int| 0 <= q < out@.len()
                    && #[trigger] out@[q].label@ == (#[trigger] next[k])@ by {
                    if k < i {
                        assert(next[k] == prefix[k]);
                        let q = choose|q: int| 0 <= q < before.len() && #[trigger] before[q].label@ == prefix[k]@;
                        assert(out@[q].label@ == before[q].label@);
                    } else {
                        assert(out@[p as int].label@ == next[k]@);
                    }
                }
                assert forall|a: int, b: int| 0 <= a < b < out@.len() implies seq_lt(#[trigger] out@[a].label@, #[trigger] out@[b].label@) by {
                    assert(out@[a].label@ == before[a].label@);
                    assert(out@[b].label@ == before[b].label@);
                }
            }
        } else {
            let ghost before = out@;
            proof {
                if p < out.len() {
                    lemma_seq_lt_total(before[p as int].label@, x@);
                }
                assert forall|q: int| 0 <= q < before.len() implies before[q].label@ != x@ by {
                    lemma_seq_lt_irreflexive(x@);
                    if q > p {
                        lemma_seq_lt_trans(x@, before[p as int].label@, before[q].label@);
                        lemma_seq_lt_asym(x@, before[q].label@);
                    }
                }
                assert forall|k: int| 0 <= k < prefix.len() implies prefix[k]@ != x@ by {
                    let q = choose|q: int| 0 <= q < before.len() && #[trigger] before[q].label@ == (#[trigger] prefix[k])@;
                }
                lemma_occurrences_bound(prefix, x@);
            }
            out.insert(p, LabelCount { label: String::from_str(x), count: 1 });
            proof {
                let next = labels@.take(i + 1);
                assert forall|q: int| 0 <= q < out@.len() implies (#[trigger] out@[q]).count == occurrences(next, out@[q].label@)
                    && out@[q].count > 0 by {
                    lemma_occurrences_push(prefix, labels@[i as int], out@[q].label@);
                    if q < p {
                        assert(out@[q] == before[q]);
                    } else if q > p {
                        assert(out@[q] == before[q - 1]);
                    }
                }
                assert forall|k: int| 0 <= k < next.len() implies exists|q: int| 0 <= q < out@.len()
                    && #[trigger] out@[q].label@ == (#[trigger] next[k])@ by {
                    if k < i {
                        assert(next[k] == prefix[k]);
                        let q = choose|q: int| 0 <= q < before.len() && #[trigger] before[q].label@ == prefix[k]@;
                        if q < p {
                            assert(out@[q] == before[q]);
                        } else {
                            assert(out@[q + 1] == before[q]);
                        }
                    } else {
                        assert(out@[p as int].label@ == next[k]@);
                    }
                }
                assert forall|a: int, b: int| 0 <= a < b < out@.len() implies seq_lt(#[trigger] out@[a].label@, #[trigger] out@[b].label@) by {
                    if b < p {
                        assert(out@[a] == before[a] && out@[b] == before[b]);
                    } else if b == p {
                        assert(out@[a] == before[a]);
                    } else if a < p {
                        assert(out@[a] == before[a] && out@[b] == before[b - 1]);
                        lemma_seq_lt_trans(before[a].label@, x@, before[b - 1].label@);
                        if b - 1 > p {
                            lemma_seq_lt_trans(x@, before[p as int].label@, before[b - 1].label@);
                        }
                    } else if a == p {
                        assert(out@[b] == before[b - 1]);
                        if b - 1 > p {
                            lemma_seq_lt_trans(x@, before[p as int].label@, before[b - 1].label@);
                        }
                    } else {
                        assert(out@[a] == before[a - 1] && out@[b] == before[b - 1]);
                    }
                }
            }
        }
        i = i + 1;
    }
    assert(labels@.take(labels@.len() as int) =~= labels@);
    out
}

/// How one label is shown: the label alone when it occurs once, else with
/// ` xN`.
pub open spec fn tally_part(t: LabelCount) -> Seq<char> {
    if t.count == 1 {
        t.label@
    } else {
        t.label@ + " x"@ + decimal(t.count as nat)
    }
}

/// The parts joined with `, `.
pub open spec fn joined_parts(t: Seq<LabelCount>) -> Seq<char>
    decreases t.len(),
{
    if t.len() == 0 {
        Seq::empty()
    } else if t.len() == 1 {
        tally_part(t[0])
    } else {
        joined_parts(t.drop_last()) + ", "@ + tally_part(t.last())
    }
}

/// The candidates of a trial, by label: each distinct label once, in
/// ascending order, with ` xN` when it occurs `N > 1` times.
pub fn summarize_face_candidates(labels: &Vec<String>) -> (r: String)
    ensures
        exists|t: Seq<LabelCount>| is_tally(labels@, t) && r@ == joined_parts(t),
{
    let tally = tally_labels(labels);
    let mut s = String::from_str("");
    proof {
        reveal_strlit("");
    }
    let mut i: usize = 0;
    while i < tally.len()
        invariant
            i <= tally.len(),
            s@ == joined_parts(tally@.take(i as int)),
        decreases tally.len() - i,
    {
        proof {
            assert(tally@.take(i + 1).drop_last() =~= tally@.take(i as int));
        }
        if i > 0 {
            s.append(", ");
        }
        let t = &tally[i];
        s.append(t.label.as_str());
        if t.count != 1 {
            s.append(" x");
            push_decimal(&mut s, t.count as u64);
        }
        assert(s@ =~= joined_parts(tally@.take(i + 1)));
        i = i + 1;
    }
    assert(tally@.take(tally@.len() as int) =~= tally@);
    s
}


/// The labels of a tally, in order.
spec fn tally_label_views(t: Seq<LabelCount>) -> Seq<Seq<char>> {
    t.map_values(|c: LabelCount| c.label@)
}

spec fn strictly_sorted(s: Seq<Seq<char>>) -> bool {
    forall|i: int, j: int| 0 <= i < j < s.len() ==> seq_lt(#[trigger] s[i], #[trigger] s[j])
}

/// Two strictly ascending lists with the same members are the same list.
proof fn lemma_sorted_same_members(a: Seq<Seq<char>>, b: Seq<Seq<char>>)
    requires
        strictly_sorted(a),
        strictly_sorted(b),
        forall|x: Seq<char>| a.contains(x) <==> b.contains(x),
    ensures
        a == b,
    decreases a.len(),
{
    if a.len() == 0 {
        if b.len() > 0 {
            assert(b.contains(b[0]));
        }
        assert(a =~= b);
    } else {
        if b.len() == 0 {
            assert(a.contains(a[0]));
        }
        assert(a.contains(a[0]));
        let j = choose|j: int| 0 <= j < b.len() && b[j] == a[0];
        assert(b.contains(b[0]));
        let k = choose|k: int| 0 <= k < a.len() && a[k] == b[0];
        if j > 0 {
            assert(seq_lt(b[0], b[j]));
            if k > 0 {
                assert(seq_lt(a[0], a[k]));
                lemma_seq_lt_asym(a[0], b[0]);
            } else {
                lemma_seq_lt_irreflexive(b[0]);
            }
        }
        let a1 = a.drop_first();
        let b1 = b.drop_first();
        assert forall|x: Seq<char>| a1.contains(x) <==> b1.contains(x) by {
            if a1.contains(x) {
                let p = choose|p: int| 0 <= p < a1.len() && a1[p] == x;
                assert(a[p + 1] == x && seq_lt(a[0], a[p + 1]));
                assert(a.contains(x));
                let q = choose|q: int| 0 <= q < b.len() && b[q] == x;
                if q == 0 {
                    lemma_seq_lt_irreflexive(x);
                }
                assert(b1[q - 1] == x);
            }
            if b1.contains(x) {
                let p = choose|p: int| 0 <= p < b1.len() && b1[p] == x;
                assert(b[p + 1] == x && seq_lt(b[0], b[p + 1]));
                assert(b.contains(x));
                let q = choose|q: int| 0 <= q < a.len() && a[q] == x;
                if q == 0 {
                    lemma_seq_lt_irreflexive(x);
                }
                assert(a1[q - 1] == x);
            }
        }
        lemma_sorted_same_members(a1, b1);
        assert(a =~= b) by {
            assert forall|i: int| 0 <= i < a.len() implies a[i] == b[i] by {
                if i > 0 {
                    assert(a[i] == a1[i - 1] && b[i] == b1[i - 1]);
                }
            }
        }
    }
}

proof fn lemma_tally_members(labels: Seq<String>, t1: Seq<LabelCount>, t2: Seq<LabelCount>, x: Seq<char>)
    requires
        is_tally(labels, t1),
        is_tally(labels, t2),
        tally_label_views(t1).contains(x),
    ensures
        tally_label_views(t2).contains(x),
{
    let i = choose|i: int| 0 <= i < tally_label_views(t1).len() && tally_label_views(t1)[i] == x;
    assert(t1[i].label@ == x);
    assert(occurrences(labels, x) > 0);
    lemma_occurrences_bound(labels, x);
    let k = choose|k: int| 0 <= k < labels.len() && labels[k]@ == x;
    assert(exists|i2: int| 0 <= i2 < t2.len() && #[trigger] t2[i2].label@ == (#[trigger] labels[k])@);
    let i2 = choose|i2: int| 0 <= i2 < t2.len() && t2[i2].label@ == labels[k]@;
    assert(tally_label_views(t2)[i2] == x);
}

proof fn lemma_joined_parts_equal(t1: Seq<LabelCount>, t2: Seq<LabelCount>)
    requires
        t1.len() == t2.len(),
        forall|i: int| 0 <= i < t1.len() ==> tally_part(#[trigger] t1[i]) == tally_part(t2[i]),
    ensures
        joined_parts(t1) == joined_parts(t2),
    decreases t1.len(),
{
    if t1.len() > 1 {
        lemma_joined_parts_equal(t1.drop_last(), t2.drop_last());
        assert(tally_part(t1[t1.len() - 1]) == tally_part(t2[t2.len() - 1]));
    } else if t1.len() == 1 {
        assert(tally_part(t1[0]) == tally_part(t2[0]));
    }
}

/// A list of labels has only one tally, so the candidate summary is
/// determined by the labels alone.
pub proof fn lemma_tally_unique(labels: Seq<String>, t1: Seq<LabelCount>, t2: Seq<LabelCount>)
    requires
        is_tally(labels, t1),
        is_tally(labels, t2),
    ensures
        t1.len() == t2.len(),
        forall|i: int| 0 <= i < t1.len() ==> (#[trigger] t1[i]).label@ == t2[i].label@ && t1[i].count == t2[i].count,
        joined_parts(t1) == joined_parts(t2),
{
    let a = tally_label_views(t1);
    let b = tally_label_views(t2);
    assert(strictly_sorted(a)) by {
        assert forall|i: int, j: int| 0 <= i < j < a.len() implies seq_lt(#[trigger] a[i], #[trigger] a[j]) by {
            assert(seq_lt(t1[i].label@, t1[j].label@));
        }
    }
    assert(strictly_sorted(b)) by {
        assert forall|i: int, j: int| 0 <= i < j < b.len() implies seq_lt(#[trigger] b[i], #[trigger] b[j]) by {
            assert(seq_lt(t2[i].label@, t2[j].label@));
        }
    }
    assert forall|x: Seq<char>| a.contains(x) <==> b.contains(x) by {
        if a.contains(x) {
            lemma_tally_members(labels, t1, t2, x);
        }
        if b.contains(x) {
            lemma_tally_members(labels, t2, t1, x);
        }
    }
    lemma_sorted_same_members(a, b);
    assert forall|i: int| 0 <= i < t1.len() implies (#[trigger] t1[i]).label@ == t2[i].label@ && t1[i].count
        == t2[i].count by {
        assert(a[i] == b[i]);
    }
    lemma_joined_parts_equal(t1, t2);
}

// ---------------------------------------------------------------------------
// Dashed rectangles

/// The dashes of a dashed edge from `lo` to `hi`: dashes of length `dash`
/// (cut at `hi`) start at `lo` and every `dash + gap` after it, while they
/// start before `hi`.
pub open spec fn dash_spans(lo: int, hi: int, dash: int, gap: int) -> Seq<(int, int)>
    decreases (if lo < hi { hi - lo } else { 0 }),
    when dash + gap > 0
{
    if lo >= hi {
        Seq::empty()
    } else {
        seq![(lo, if lo + dash < hi { lo + dash } else { hi })] + dash_spans(lo + dash + gap, hi, dash, gap)
    }
}

/// The dashes along one edge.
pub fn dash_segments(lo: i32, hi: i32, dash: i32, gap: i32) -> (r: Vec<(i32, i32)>)
    requires
        dash + gap > 0,
        lo + dash >= i32::MIN,
        hi + dash <= i32::MAX + 1,
        hi + dash + gap <= i32::MAX + 1,
    ensures
        r@.len() == dash_spans(lo as int, hi as int, dash as int, gap as int).len(),
        forall|i: int| 0 <= i < r@.len() ==> (#[trigger] r@[i]).0 == dash_spans(lo as int, hi as int, dash as int, gap as int)[i].0
            && r@[i].1 == dash_spans(lo as int, hi as int, dash as int, gap as int)[i].1,
{
    let mut out: Vec<(i32, i32)> = Vec::new();
    let mut x = lo;
    while x < hi
        invariant
            dash + gap > 0,
            lo + dash >= i32::MIN,
            hi + dash <= i32::MAX + 1,
            hi + dash + gap <= i32::MAX + 1,
            x >= lo,
            out@.len() + dash_spans(x as int, hi as int, dash as int, gap as int).len()
                == dash_spans(lo as int, hi as int, dash as int, gap as int).len(),
            forall|i: int| 0 <= i < out@.len() ==> (#[trigger] out@[i]).0 == dash_spans(lo as int, hi as int, dash as int, gap as int)[i].0
                && out@[i].1 == dash_spans(lo as int, hi as int, dash as int, gap as int)[i].1,
            forall|i: int| 0 <= i < dash_spans(x as int, hi as int, dash as int, gap as int).len()
                ==> dash_spans(lo as int, hi as int, dash as int, gap as int)[out@.len() + i]
                == #[trigger] dash_spans(x as int, hi as int, dash as int, gap as int)[i],
        decreases (if x < hi { hi - x } else { 0 }),
    {
        let end = if x + dash < hi { x + dash } else { hi };
        let ghost rest = dash_spans(x as int, hi as int, dash as int, gap as int);
        let ghost after = dash_spans(x + dash + gap, hi as int, dash as int, gap as int);
        assert(rest =~= seq![(x as int, end as int)] + after);
        assert(rest[0] == (x as int, end as int));
        out.push((x, end));
        assert forall|i: int| 0 <= i < after.len() implies dash_spans(lo as int, hi as int, dash as int, gap as int)[out@.len() + i]
            == #[trigger] after[i] by {
            assert(rest[i + 1] == after[i]);
        }
        x = x + dash + gap;
    }
    out
}

/// A straight line between two points.
#[derive(Debug, Clone, Copy, PartialEq, Eq, Structural)]
pub struct DashLine {
    pub x1: i32,
    pub y1: i32,
    pub x2: i32,
    pub y2: i32,
}

/// The lines of a dashed rectangle, in drawing order: for each dash along
/// the width, its piece of the top edge and then of the bottom edge; then
/// for each dash along the height, its piece of the left edge and then of
/// the right edge.
pub open spec fn dashed_rect_spec(x: int, y: int, width: int, height: int, dash: int, gap: int) -> Seq<DashLine> {
    let hs = dash_spans(x, x + width, dash, gap);
    let vs = dash_spans(y, y + height, dash, gap);
    Seq::new(2 * hs.len(), |i: int| {
        let s = hs[i / 2];
        if i % 2 == 0 {
            DashLine { x1: s.0 as i32, y1: y as i32, x2: s.1 as i32, y2: y as i32 }
        } else {
            DashLine { x1: s.0 as i32, y1: (y + height) as i32, x2: s.1 as i32, y2: (y + height) as i32 }
        }
    }) + Seq::new(2 * vs.len(), |i: int| {
        let s = vs[i / 2];
        if i % 2 == 0 {
            DashLine { x1: x as i32, y1: s.0 as i32, x2: x as i32, y2: s.1 as i32 }
        } else {
            DashLine { x1: (x + width) as i32, y1: s.0 as i32, x2: (x + width) as i32, y2: s.1 as i32 }
        }
    })
}

/// The lines that draw the rectangle at (`x`, `y`) of the given size with
/// dashed edges.
pub fn dashed_rect_lines(x: i32, y: i32, width: i32, height: i32, dash: i32, gap: i32) -> (r: Vec<DashLine>)
    requires
        dash + gap > 0,
        i32::MIN <= x + width <= i32::MAX,
        i32::MIN <= y + height <= i32::MAX,
        x + dash >= i32::MIN,
        y + dash >= i32::MIN,
        x + width + dash <= i32::MAX + 1,
        x + width + dash + gap <= i32::MAX + 1,
        y + height + dash <= i32::MAX + 1,
        y + height + dash + gap <= i32::MAX + 1,
    ensures
        r@ == dashed_rect_spec(x as int, y as int, width as int, height as int, dash as int, gap as int),
{
    let x2 = x + width;
    let y2 = y + height;
    let hs = dash_segments(x, x2, dash, gap);
    let vs = dash_segments(y, y2, dash, gap);
    let ghost spec = dashed_rect_spec(x as int, y as int, width as int, height as int, dash as int, gap as int);
    let ghost hspec = dash_spans(x as int, x2 as int, dash as int, gap as int);
    let ghost vspec = dash_spans(y as int, y2 as int, dash as int, gap as int);
    let mut out: Vec<DashLine> = Vec::new();
    let mut i: usize = 0;
    while i < hs.len()
        invariant
            i <= hs@.len(),
            hs@.len() == hspec.len(),
            vs@.len() == vspec.len(),
            forall|k: int| 0 <= k < hs@.len() ==> (#[trigger] hs@[k]).0 == hspec[k].0 && hs@[k].1 == hspec[k].1,
            spec == dashed_rect_spec(x as int, y as int, width as int, height as int, dash as int, gap as int),
            hspec == dash_spans(x as int, x + width, dash as int, gap as int),
            vspec == dash_spans(y as int, y + height, dash as int, gap as int),
            x2 == x + width,
            y2 == y + height,
            out@.len() == 2 * i,
            forall|k: int| 0 <= k < out@.len() ==> #[trigger] out@[k] == spec[k],
        decreases hs.len() - i,
    {
        let (a, b) = hs[i];
        out.push(DashLine { x1: a, y1: y, x2: b, y2: y });
        out.push(DashLine { x1: a, y1: y2, x2: b, y2: y2 });
        proof {
            assert((2 * i) / 2 == i && (2 * i) % 2 == 0) by (nonlinear_arith);
            assert((2 * i + 1) / 2 == i && (2 * i + 1) % 2 == 1) by (nonlinear_arith);
            assert(out@[2 * i as int] == spec[2 * i as int]);
            assert(out@[2 * i + 1] == spec[2 * i + 1]);
        }
        i = i + 1;
    }
    let mut j: usize = 0;
    while j < vs.len()
        invariant
            j <= vs@.len(),
            hs@.len() == hspec.len(),
            vs@.len() == vspec.len(),
            forall|k: int| 0 <= k < vs@.len() ==> (#[trigger] vs@[k]).0 == vspec[k].0 && vs@[k].1 == vspec[k].1,
            spec == dashed_rect_spec(x as int, y as int, width as int, height as int, dash as int, gap as int),
            hspec == dash_spans(x as int, x + width, dash as int, gap as int),
            vspec == dash_spans(y as int, y + height, dash as int, gap as int),
            x2 == x + width,
            y2 == y + height,
            out@.len() == 2 * hs@.len() + 2 * j,
            forall|k: int| 0 <= k < out@.len() ==> #[trigger] out@[k] == spec[k],
        decreases vs.len() - j,
    {
        let (a, b) = vs[j];
        out.push(DashLine { x1: x, y1: a, x2: x, y2: b });
        out.push(DashLine { x1: x2, y1: a, x2: x2, y2: b });
        proof {
            let base = 2 * hs@.len();
            assert((2 * j) / 2 == j && (2 * j) % 2 == 0) by (nonlinear_arith);
            assert((2 * j + 1) / 2 == j && (2 * j + 1) % 2 == 1) by (nonlinear_arith);
            assert(out@[base + 2 * j] == spec[base + 2 * j]);
            assert(out@[base + 2 * j + 1] == spec[base + 2 * j + 1]);
        }
        j = j + 1;
    }
    assert(out@ =~= spec);
    out
}


// ---------------------------------------------------------------------------
// Status line

/// The text that redraws the status line with `message`: back to the start
/// of the line, the message, then spaces over what is left of the previous
/// message (`last_width` characters).
pub open spec fn status_line_text(last_width: usize, message: Seq<char>) -> Seq<char> {
    "\r"@ + message + spaces(if last_width > message.len() { (last_width - message.len()) as nat } else { 0 })
}

/// The redraw text and the width to remember.
pub fn status_line(last_width: usize, message: &str) -> (r: (String, usize))
    ensures
        r.0@ == status_line_text(last_width, message@),
        r.1 == message@.len(),
{
    let width = message.unicode_len();
    let mut s = String::from_str("\r");
    s.append(message);
    if last_width > width {
        push_spaces(&mut s, last_width - width);
    } else {
        push_spaces(&mut s, 0);
    }
    (s, width)
}

/// The text that blanks the status line, if anything was drawn.
pub open spec fn clear_line_text(last_width: usize) -> Option<Seq<char>> {
    if last_width == 0 { None } else { Some("\r"@ + spaces(last_width as nat) + "\r"@) }
}

pub fn clear_status_line(last_width: usize) -> (r: Option<String>)
    ensures
        match clear_line_text(last_width) {
            None => r is None,
            Some(t) => r matches Some(x) && x@ == t,
        },
{
    if last_width == 0 {
        return None;
    }
    let mut s = String::from_str("\r");
    push_spaces(&mut s, last_width);
    s.append("\r");
    Some(s)
}

} // verus!
