//! The `add` command: the per-group face limit, the label a new face gets,
//! and the capture loop's bookkeeping (attempts, keys, when to stop).
//!
//! The caller reads frames, runs the models and keeps the best embedding;
//! comparisons of detection scores reach this module as booleans.

use crate::commands::{is_message, CommandError, CommandKey};
use crate::selector::{invalid_name_text, empty_name_text, is_identifier, is_storage_error, validate_selector_name};
use crate::storage::{has_label, is_first_free_label, FaceRecordInfo, FaceStorage};
use crate::text::{decimal, push_decimal};
use vstd::prelude::*;
use vstd::string::StringExecFns;

verus! {

pub open spec fn face_limit_text(count: usize, max: u32) -> Seq<char> {
    "Maximum face limit reached ("@ + decimal(count as nat) + "/"@ + decimal(max as nat)
        + "). Remove some faces first."@
}

/// Refuses to add to a group that already holds the maximum number of faces.
pub fn check_face_limit(face_count: usize, max_faces_per_group: u32) -> (r: Result<(), CommandError>)
    ensures
        face_count >= max_faces_per_group ==> (r matches Err(e) && is_message(e, face_limit_text(face_count, max_faces_per_group))),
        face_count < max_faces_per_group ==> r is Ok,
{
    if face_count >= max_faces_per_group as usize {
        let mut m = String::from_str("Maximum face limit reached (");
        push_decimal(&mut m, face_count as u64);
        m.append("/");
        push_decimal(&mut m, max_faces_per_group as u64);
        m.append("). Remove some faces first.");
        return Err(CommandError::Message(m));
    }
    Ok(())
}

pub open spec fn label_in_use_text(label: Seq<char>, group: Seq<char>) -> Seq<char> {
    "Face label '"@ + label + "' already exists in group '"@ + group + "'"@
}

/// The label of the new face: the one given, when it is an identifier not yet
/// used in the group (`faces`); otherwise the first free `face_N`.
pub fn choose_face_label(
    storage: &FaceStorage,
    label: Option<&str>,
    group_name: &str,
    faces: &Vec<FaceRecordInfo>,
) -> (r: Result<String, CommandError>)
    requires
        faces@.len() < usize::MAX,
    ensures
        match label {
            Some(l) => if l@.len() == 0 {
                r matches Err(CommandError::Core(e)) && is_storage_error(e, empty_name_text("Face label"@))
            } else if !is_identifier(l@) {
                r matches Err(CommandError::Core(e)) && is_storage_error(e, invalid_name_text("Face label"@, l@))
            } else if has_label(faces@, l@) {
                r matches Err(e) && is_message(e, label_in_use_text(l@, group_name@))
            } else {
                r matches Ok(x) && x@ == l@
            },
            None => r matches Ok(x) && is_first_free_label(faces@, x@),
        },
{
    match label {
        Some(l) => {
            if let Err(e) = validate_selector_name(l, "Face label") {
                return Err(CommandError::Core(e));
            }
            if storage.face_label_exists(faces, l) {
                let mut m = String::from_str("Face label '");
                m.append(l);
                m.append("' already exists in group '");
                m.append(group_name);
                m.append("'");
                return Err(CommandError::Message(m));
            }
            Ok(String::from_str(l))
        },
        None => Ok(storage.next_available_face_label(faces)),
    }
}

/// How many frames the capture may take: unlimited (`u32::MAX`) in debug or
/// preview mode or without a frame budget, else the budget.
pub fn max_attempts(debug: bool, view: bool, max_frames: u32) -> (r: u32)
    ensures
        r == (if debug || view || max_frames == 0 { u32::MAX } else { max_frames }),
{
    if debug || view || max_frames == 0 {
        u32::MAX
    } else {
        max_frames
    }
}

/// How to steer the capture: in the preview window, in debug mode, or otherwise.
pub open spec fn add_controls_text(view: bool, debug: bool) -> Seq<char> {
    if view {
        "Press Enter/Esc in the window, or a/q in the terminal.\n"@
    } else if debug {
        "Press a to add, or q to cancel.\n"@
    } else {
        "Press Ctrl+C to cancel.\n"@
    }
}

pub fn add_controls_hint(view: bool, debug: bool) -> (r: &'static str)
    ensures
        r@ == add_controls_text(view, debug),
{
    if view {
        "Press Enter/Esc in the window, or a/q in the terminal.\n"
    } else if debug {
        "Press a to add, or q to cancel.\n"
    } else {
        "Press Ctrl+C to cancel.\n"
    }
}

/// Keys that cancel in the preview window: Esc, `q` and `Q`.
pub fn should_abort(key: i32) -> (r: bool)
    ensures
        r == (key == 27 || key == 113 || key == 81),
{
    key == 27 || key == 113 || key == 81
}

/// Keys that capture in the preview window: Enter, `a` and `A`.
pub fn should_capture(key: i32) -> (r: bool)
    ensures
        r == (key == 10 || key == 13 || key == 97 || key == 65),
{
    key == 10 || key == 13 || key == 97 || key == 65
}

/// Bookkeeping of the capture loop.
#[derive(Debug)]
pub struct AddSession {
    pub attempt: u32,
    pub max_attempts: u32,
    /// The user asked to capture as soon as a good face is on hand.
    pub capture_requested: bool,
    /// A good face is on hand.
    pub has_best: bool,
}

/// What a key does during the capture.
#[derive(Debug, PartialEq, Eq)]
pub enum KeyStep {
    /// Stop without adding.
    Cancel,
    /// Go on; `announce` asks to say that the capture waits for a valid face.
    Continue { announce: bool },
}

/// Why the capture ends.
#[derive(Debug, PartialEq, Eq)]
pub enum AddEnd {
    Cancelled,
    Finished,
}

impl AddSession {
    pub fn new(max_attempts: u32) -> (r: AddSession)
        ensures
            r.attempt == 0,
            r.max_attempts == max_attempts,
            !r.capture_requested,
            !r.has_best,
    {
        AddSession { attempt: 0, max_attempts, capture_requested: false, has_best: false }
    }

    /// Whether another frame may be read.
    pub fn may_continue(&self) -> (r: bool)
        ensures
            r == (self.attempt < self.max_attempts),
    {
        self.attempt < self.max_attempts
    }

    /// A key pressed in the terminal.
    pub fn on_key(&mut self, key: CommandKey) -> (r: KeyStep)
        ensures
            key == CommandKey::Quit ==> r == KeyStep::Cancel && *final(self) == *old(self),
            key == CommandKey::Action ==> r == (KeyStep::Continue {
                announce: !old(self).capture_requested && !old(self).has_best,
            }) && final(self).capture_requested && final(self).attempt == old(self).attempt
                && final(self).max_attempts == old(self).max_attempts && final(self).has_best == old(self).has_best,
    {
        match key {
            CommandKey::Quit => KeyStep::Cancel,
            CommandKey::Action => {
                let announce = !self.capture_requested && !self.has_best;
                self.capture_requested = true;
                KeyStep::Continue { announce }
            },
        }
    }

    /// Counts a new frame.
    pub fn start_frame(&mut self)
        requires
            old(self).attempt < old(self).max_attempts,
        ensures
            final(self).attempt == old(self).attempt + 1,
            final(self).max_attempts == old(self).max_attempts,
            final(self).capture_requested == old(self).capture_requested,
            final(self).has_best == old(self).has_best,
    {
        self.attempt = self.attempt + 1;
    }

    /// A good face is now on hand.
    pub fn record_best(&mut self)
        ensures
            final(self).has_best,
            final(self).attempt == old(self).attempt,
            final(self).max_attempts == old(self).max_attempts,
            final(self).capture_requested == old(self).capture_requested,
    {
        self.has_best = true;
    }

    /// Whether the capture ends after this frame: a very confident face in
    /// unattended mode (`confident_unattended`), or a capture that was asked
    /// for, once a good face is on hand.
    pub fn done_after_frame(&self, confident_unattended: bool) -> (r: bool)
        ensures
            r == (self.has_best && (confident_unattended || self.capture_requested)),
    {
        self.has_best && (confident_unattended || self.capture_requested)
    }
}

} // verus!
