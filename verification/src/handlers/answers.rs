//! Scoring a kid's spoken answer: what the session must hold before an
//! answer is scored, which video the answer list is for, and the textual
//! part of the similarity check.
use vstd::prelude::*;

use crate::text::chars::{chars_eq, chars_of, contains, contains_seq};
use crate::text::normalize::{normalize_chars, normalized};
use crate::voice::session::SessionContext;

verus! {

/// What an answer is scored and stored against.
#[derive(Debug, Clone)]
pub struct AnswerContext {
    pub kid_id: i32,
    pub video_id: String,
    pub segment_id: i32,
    pub transcript: String,
    pub expected_answer: String,
}

/// The context taken from session `s`, when it holds a speaker, a video, a
/// segment and a transcript; the expected answer defaults to the empty text.
pub open spec fn context_of(s: SessionContext) -> Option<(i32, Seq<char>, i32, Seq<char>, Seq<char>)> {
    match (s.user_id, s.current_video, s.current_segment, s.last_transcript) {
        (Some(k), Some(v), Some(g), Some(t)) => Some(
            (
                k,
                v@,
                g,
                t@,
                match s.expected_answer {
                    Some(e) => e@,
                    None => Seq::<char>::empty(),
                },
            ),
        ),
        _ => None,
    }
}

/// The plain values of an answer context.
pub open spec fn context_view(c: AnswerContext) -> (i32, Seq<char>, i32, Seq<char>, Seq<char>) {
    (c.kid_id, c.video_id@, c.segment_id, c.transcript@, c.expected_answer@)
}

/// Reads what an answer is scored against from the session. `None` when
/// nobody is identified or no video, segment or transcript is known.
pub fn answer_context(s: &SessionContext) -> (r: Option<AnswerContext>)
    ensures
        match r {
            Some(c) => context_of(*s) == Some(context_view(c)),
            None => context_of(*s).is_none(),
        },
{
    let kid_id = match s.user_id {
        Some(id) => id,
        None => return None,
    };
    let video_id = match &s.current_video {
        Some(v) => v.clone(),
        None => return None,
    };
    let segment_id = match s.current_segment {
        Some(g) => g,
        None => return None,
    };
    let transcript = match &s.last_transcript {
        Some(t) => t.clone(),
        None => return None,
    };
    let expected_answer = match &s.expected_answer {
        Some(e) => e.clone(),
        None => String::new(),
    };
    Some(AnswerContext { kid_id, video_id, segment_id, transcript, expected_answer })
}

/// The kid and video whose answers are listed: the video named by the first
/// argument, else the one playing, else the empty name.
pub open spec fn answers_request_of(args: Seq<String>, s: SessionContext) -> Option<(i32, Seq<char>)> {
    match s.user_id {
        Some(k) => Some(
            (
                k,
                if args.len() > 0 {
                    args[0]@
                } else {
                    match s.current_video {
                        Some(v) => v@,
                        None => Seq::<char>::empty(),
                    }
                },
            ),
        ),
        None => None,
    }
}

/// The kid and video an answer list is fetched for; `None` when nobody is
/// identified.
pub fn answers_request(args: &[String], s: &SessionContext) -> (r: Option<(i32, String)>)
    ensures
        match r {
            Some((k, v)) => answers_request_of(args@, *s) == Some((k, v@)),
            None => answers_request_of(args@, *s).is_none(),
        },
{
    let kid_id = match s.user_id {
        Some(id) => id,
        None => return None,
    };
    let video_id = if args.len() > 0 {
        args[0].clone()
    } else {
        match &s.current_video {
            Some(v) => v.clone(),
            None => String::new(),
        }
    };
    Some((kid_id, video_id))
}

/// Lenient textual match of normalised texts: equal, or one holds the
/// other, where a transcript that normalises to nothing holds no answer.
pub open spec fn lenient_match(transcript: Seq<char>, expected: Seq<char>) -> bool {
    let t = normalized(transcript);
    let e = normalized(expected);
    t == e || contains_seq(t, e) || (t.len() > 0 && contains_seq(e, t))
}

/// Strict textual match of normalised texts: equal, or the transcript holds
/// the expected answer.
pub open spec fn strict_match(transcript: Seq<char>, expected: Seq<char>) -> bool {
    let t = normalized(transcript);
    let e = normalized(expected);
    t == e || contains_seq(t, e)
}

/// Whether the answer counts as correct on text alone (score 1.0): after
/// normalisation the texts are equal or one contains the other. Kids often
/// embed the answer in a longer phrase, which still counts; an answer that
/// is nothing but punctuation or silence does not.
pub fn text_match(transcript: &str, expected: &str) -> (r: bool)
    ensures
        r == lenient_match(transcript@, expected@),
{
    let tc = chars_of(transcript);
    let ec = chars_of(expected);
    let t = normalize_chars(tc.as_slice());
    let e = normalize_chars(ec.as_slice());
    chars_eq(t.as_slice(), e.as_slice()) || contains(t.as_slice(), e.as_slice()) || (t.len() > 0
        && contains(e.as_slice(), t.as_slice()))
}

/// The verdict when no embedding can be computed: the normalised transcript
/// equals or contains the normalised expected answer.
pub fn fallback_match(transcript: &str, expected: &str) -> (r: bool)
    ensures
        r == strict_match(transcript@, expected@),
{
    let tc = chars_of(transcript);
    let ec = chars_of(expected);
    let t = normalize_chars(tc.as_slice());
    let e = normalize_chars(ec.as_slice());
    chars_eq(t.as_slice(), e.as_slice()) || contains(t.as_slice(), e.as_slice())
}

/// What the fallback accepts, the text match accepts too: the fallback is
/// never more lenient.
pub proof fn lemma_fallback_within_text_match(transcript: Seq<char>, expected: Seq<char>)
    ensures
        strict_match(transcript, expected) ==> lenient_match(transcript, expected),
{
}

/// An answer equal to the expected one after normalisation is accepted by
/// both checks.
pub proof fn lemma_equal_answers_match(transcript: Seq<char>, expected: Seq<char>)
    requires
        normalized(transcript) == normalized(expected),
    ensures
        lenient_match(transcript, expected),
        strict_match(transcript, expected),
{
}

} // verus!
