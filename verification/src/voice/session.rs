//! The voice session: who is speaking, what is playing, and whether the next
//! utterance is a command, an answer, or drowned out by speech output.
use vstd::prelude::*;

verus! {

/// How the next transcript is treated.
#[derive(Debug, Clone, Copy, PartialEq, Eq, Structural)]
pub enum SessionMode {
    /// Transcripts are classified and dispatched as voice commands.
    Command,
    /// The next transcript is scored as an answer to the current question.
    Answer,
    /// Speech output is playing; captured audio is discarded.
    Tts,
}

/// The state shared by the capture loop and the command handlers.
#[derive(Debug, Clone)]
pub struct SessionContext {
    pub user_id: Option<i32>,
    pub user_name: Option<String>,
    pub role: Option<String>,
    pub current_video: Option<String>,
    pub current_segment: Option<i32>,
    pub expected_answer: Option<String>,
    pub last_transcript: Option<String>,
    pub mode: SessionMode,
}

/// The empty session: nobody identified, command mode.
pub open spec fn empty_session() -> SessionContext {
    SessionContext {
        user_id: None,
        user_name: None,
        role: None,
        current_video: None,
        current_segment: None,
        expected_answer: None,
        last_transcript: None,
        mode: SessionMode::Command,
    }
}

/// `s` with the speaker set.
pub open spec fn with_user(s: SessionContext, id: i32, name: String, role: String) -> SessionContext {
    SessionContext { user_id: Some(id), user_name: Some(name), role: Some(role), ..s }
}

/// `s` switched to answer mode for a question of `segment_id` in `video_id`.
pub open spec fn in_answer_mode(
    s: SessionContext,
    expected: String,
    video_id: String,
    segment_id: i32,
) -> SessionContext {
    SessionContext {
        mode: SessionMode::Answer,
        expected_answer: Some(expected),
        current_video: Some(video_id),
        current_segment: Some(segment_id),
        last_transcript: None,
        ..s
    }
}

/// `s` back in command mode, answer-specific fields cleared.
pub open spec fn in_command_mode(s: SessionContext) -> SessionContext {
    SessionContext {
        mode: SessionMode::Command,
        expected_answer: None,
        last_transcript: None,
        ..s
    }
}

impl Default for SessionContext {
    fn default() -> (r: Self)
        ensures
            r == empty_session(),
    {
        SessionContext {
            user_id: None,
            user_name: None,
            role: None,
            current_video: None,
            current_segment: None,
            expected_answer: None,
            last_transcript: None,
            mode: SessionMode::Command,
        }
    }
}

impl SessionContext {
    pub fn is_identified(&self) -> (r: bool)
        ensures
            r == self.user_id.is_some(),
    {
        self.user_id.is_some()
    }

    pub fn set_user(&mut self, id: i32, name: String, role: String)
        ensures
            *final(self) == with_user(*old(self), id, name, role),
    {
        self.user_id = Some(id);
        self.user_name = Some(name);
        self.role = Some(role);
    }

    /// Switch to answer mode. The next transcript will be scored
    /// as an answer rather than dispatched as a voice command.
    pub fn enter_answer_mode(&mut self, expected: String, video_id: String, segment_id: i32)
        ensures
            *final(self) == in_answer_mode(*old(self), expected, video_id, segment_id),
    {
        self.mode = SessionMode::Answer;
        self.expected_answer = Some(expected);
        self.current_video = Some(video_id);
        self.current_segment = Some(segment_id);
        self.last_transcript = None;
    }

    /// Return to command mode. Clears answer-specific fields but preserves
    /// current_video and current_segment; those belong to the broader session.
    pub fn exit_answer_mode(&mut self)
        ensures
            *final(self) == in_command_mode(*old(self)),
    {
        self.mode = SessionMode::Command;
        self.expected_answer = None;
        self.last_transcript = None;
    }
}

impl SessionContext {
    /// Speech output starts: captured audio is discarded until it ends.
    pub fn enter_tts_mode(&mut self)
        ensures
            *final(self) == (SessionContext { mode: SessionMode::Tts, ..*old(self) }),
    {
        self.mode = SessionMode::Tts;
    }

    /// Speech output ended or was stopped: back to command mode, all other
    /// fields as they were.
    pub fn leave_tts_mode(&mut self)
        ensures
            *final(self) == (SessionContext { mode: SessionMode::Command, ..*old(self) }),
    {
        self.mode = SessionMode::Command;
    }
}

/// A fresh session: nobody identified, command mode.
pub fn new_session() -> (r: SessionContext)
    ensures
        r == empty_session(),
{
    SessionContext::default()
}

/// Leaving answer mode after entering it returns to command mode with the
/// answer fields cleared, keeps the video and segment that answer mode set,
/// and leaves the speaker as it was.
pub proof fn lemma_answer_round_trip(
    s: SessionContext,
    expected: String,
    video_id: String,
    segment_id: i32,
)
    ensures
        ({
            let t = in_command_mode(in_answer_mode(s, expected, video_id, segment_id));
            &&& t.mode == SessionMode::Command
            &&& t.expected_answer is None
            &&& t.last_transcript is None
            &&& t.current_video == Some(video_id)
            &&& t.current_segment == Some(segment_id)
            &&& t.user_id == s.user_id
            &&& t.user_name == s.user_name
            &&& t.role == s.role
        }),
{
}

/// Setting the speaker identifies the session, whatever it held before.
pub proof fn lemma_set_user_identifies(s: SessionContext, id: i32, name: String, role: String)
    ensures
        with_user(s, id, name, role).user_id.is_some(),
        with_user(s, id, name, role).mode == s.mode,
{
}

} // verus!
