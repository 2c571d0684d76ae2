//! The decisions of the capture loop: what to do with a transcript, whether a
//! resolved command is dispatched, and which handler a command goes to.
use vstd::prelude::*;

use crate::text::chars::chars_of;
use crate::text::normalize::{is_noise, is_noise_transcript};
use crate::voice::intent::{intent_name, Intent};
use crate::voice::session::SessionMode;
use crate::voice::wake_word::{detect, wake_heard};

verus! {

/// Where a transcript goes.
#[derive(Debug, Clone, Copy, PartialEq, Eq, Structural)]
pub enum TranscriptRoute {
    /// Nothing was said, or speech output is playing: drop it.
    Discard,
    /// Enrollment is under way and takes the audio.
    Onboarding,
    /// The transcript answers the current question.
    Answer,
    /// A filler word or too short to be a command.
    Noise,
    /// The wake phrase: identify the speaker.
    Wake,
    /// Anything else: classify it as a command.
    Classify,
}

/// The routing rules, in order of priority.
pub open spec fn transcript_route(
    mode: SessionMode,
    onboarding_active: bool,
    transcript: Seq<char>,
) -> TranscriptRoute {
    if transcript.len() == 0 || mode == SessionMode::Tts {
        TranscriptRoute::Discard
    } else if onboarding_active {
        TranscriptRoute::Onboarding
    } else if mode == SessionMode::Answer {
        TranscriptRoute::Answer
    } else if is_noise(transcript) {
        TranscriptRoute::Noise
    } else if wake_heard(transcript) {
        TranscriptRoute::Wake
    } else {
        TranscriptRoute::Classify
    }
}

/// Decides where a fresh transcript goes, given the session mode at the time
/// and whether enrollment is active.
pub fn route_transcript(mode: SessionMode, onboarding_active: bool, transcript: &str) -> (r:
    TranscriptRoute)
    ensures
        r == transcript_route(mode, onboarding_active, transcript@),
{
    let cs = chars_of(transcript);
    if cs.len() == 0 || mode == SessionMode::Tts {
        TranscriptRoute::Discard
    } else if onboarding_active {
        TranscriptRoute::Onboarding
    } else if mode == SessionMode::Answer {
        TranscriptRoute::Answer
    } else if is_noise_transcript(transcript) {
        TranscriptRoute::Noise
    } else if detect(transcript).wake_detected {
        TranscriptRoute::Wake
    } else {
        TranscriptRoute::Classify
    }
}

/// Commands that were not understood, or were a bare wake, are only listened to.
pub fn should_dispatch(intent: Intent) -> (r: bool)
    ensures
        r == !(intent == Intent::Unhandled || intent == Intent::WakeOnly),
{
    !(intent == Intent::Unhandled || intent == Intent::WakeOnly)
}

/// The handler that serves a dispatched command.
#[derive(Debug, Clone, Copy, PartialEq, Eq, Structural)]
pub enum Handler {
    StartKidEnrollment,
    AddTags,
    VideoAssignments,
    AssignVideo,
    Recommendations,
    AnswersForSession,
    Search,
    WatchVideo,
    /// Downloads are started by the frontend.
    DownloadVideo,
    Unhandled,
}

pub open spec fn handler_for(intent: Intent) -> Handler {
    match intent {
        Intent::AddKid => Handler::StartKidEnrollment,
        Intent::AddTag => Handler::AddTags,
        Intent::MyVideos => Handler::VideoAssignments,
        Intent::AssignVideo => Handler::AssignVideo,
        Intent::Recommendations => Handler::Recommendations,
        Intent::MyAnswers => Handler::AnswersForSession,
        Intent::Search => Handler::Search,
        Intent::WatchVideo => Handler::WatchVideo,
        Intent::DownloadVideo => Handler::DownloadVideo,
        Intent::WakeOnly => Handler::Unhandled,
        Intent::Unhandled => Handler::Unhandled,
    }
}

/// Commands are served only for an identified speaker.
pub fn dispatch_target(identified: bool, intent: Intent) -> (r: Option<Handler>)
    ensures
        r == (if identified {
            Some(handler_for(intent))
        } else {
            None
        }),
{
    if !identified {
        return None;
    }
    let h = match intent {
        Intent::AddKid => Handler::StartKidEnrollment,
        Intent::AddTag => Handler::AddTags,
        Intent::MyVideos => Handler::VideoAssignments,
        Intent::AssignVideo => Handler::AssignVideo,
        Intent::Recommendations => Handler::Recommendations,
        Intent::MyAnswers => Handler::AnswersForSession,
        Intent::Search => Handler::Search,
        Intent::WatchVideo => Handler::WatchVideo,
        Intent::DownloadVideo => Handler::DownloadVideo,
        Intent::WakeOnly => Handler::Unhandled,
        Intent::Unhandled => Handler::Unhandled,
    };
    Some(h)
}

/// The wire name under which the dispatcher serves each handler; the
/// fallback handler serves no name.
pub open spec fn handler_wire_name(h: Handler) -> Seq<char> {
    match h {
        Handler::StartKidEnrollment => "add_kid"@,
        Handler::AddTags => "add_tag"@,
        Handler::VideoAssignments => "my_videos"@,
        Handler::AssignVideo => "assign_video"@,
        Handler::Recommendations => "recommendations"@,
        Handler::AnswersForSession => "my_answers"@,
        Handler::Search => "search"@,
        Handler::WatchVideo => "watch_video"@,
        Handler::DownloadVideo => "download_video"@,
        Handler::Unhandled => seq![],
    }
}

/// For an identified speaker every dispatched command goes to the handler
/// served under the command's own wire name (so "recommendations" reaches
/// the recommendations handler, not the assignments one), two different
/// dispatched commands never share a handler, and only commands that are
/// not dispatched fall to the fallback handler.
pub proof fn lemma_dispatch_by_wire_name(i: Intent, j: Intent)
    ensures
        !(i == Intent::Unhandled || i == Intent::WakeOnly) ==> handler_wire_name(handler_for(i))
            == intent_name(i),
        !(i == Intent::Unhandled || i == Intent::WakeOnly) && !(j == Intent::Unhandled || j
            == Intent::WakeOnly) && i != j ==> handler_for(i) != handler_for(j),
        handler_for(i) == Handler::Unhandled <==> (i == Intent::Unhandled || i == Intent::WakeOnly),
        handler_for(Intent::Recommendations) == Handler::Recommendations,
        handler_for(Intent::MyVideos) == Handler::VideoAssignments,
{
}

/// While speech output plays, no transcript reaches any handler.
pub proof fn lemma_tts_discards(onboarding_active: bool, transcript: Seq<char>)
    ensures
        transcript_route(SessionMode::Tts, onboarding_active, transcript)
            == TranscriptRoute::Discard,
{
}

/// Enrollment takes every non-empty transcript while it is active, unless
/// speech output is playing.
pub proof fn lemma_onboarding_first(mode: SessionMode, transcript: Seq<char>)
    requires
        transcript.len() > 0,
        mode != SessionMode::Tts,
    ensures
        transcript_route(mode, true, transcript) == TranscriptRoute::Onboarding,
{
}

} // verus!
