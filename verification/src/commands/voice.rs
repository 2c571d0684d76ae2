//! The outcome of one recorded utterance sent by the frontend: its
//! transcript, whether the wake phrase was heard, and the command after it.
use vstd::prelude::*;

use crate::voice::command::ResolvedCommand;
use crate::voice::wake_word::{detect, wake_heard};

verus! {

/// What the frontend gets back for one utterance.
#[derive(Debug)]
pub struct VoiceResult {
    /// Full transcript of the utterance.
    pub transcript: String,
    /// Whether the wake phrase was in the transcript.
    pub wake_detected: bool,
    /// The resolved command; `None` when the wake phrase was not heard.
    pub command: Option<ResolvedCommand>,
}

/// Where an utterance stands once its transcript is known.
#[derive(Debug)]
pub enum Screened {
    /// Nothing to resolve: the result is final.
    Finished(VoiceResult),
    /// The wake phrase was heard: the command in this transcript is resolved next.
    NeedsCommand(String),
}

/// Screens a transcript: an empty one, or one without the wake phrase, ends
/// here with no command; otherwise the transcript goes on to be resolved.
pub fn screen_transcript(transcript: String) -> (r: Screened)
    ensures
        match r {
            Screened::Finished(v) => {
                &&& (transcript@.len() == 0 || !wake_heard(transcript@))
                &&& v.transcript == transcript
                &&& !v.wake_detected
                &&& v.command.is_none()
            },
            Screened::NeedsCommand(t) => {
                &&& transcript@.len() > 0
                &&& wake_heard(transcript@)
                &&& t == transcript
            },
        },
{
    if transcript.as_str().unicode_len() == 0 {
        return Screened::Finished(VoiceResult { transcript, wake_detected: false, command: None });
    }
    let wake = detect(transcript.as_str());
    if !wake.wake_detected {
        return Screened::Finished(VoiceResult { transcript, wake_detected: false, command: None });
    }
    Screened::NeedsCommand(transcript)
}

} // verus!
