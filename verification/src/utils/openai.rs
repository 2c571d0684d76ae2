//! The question-generation exchange with the vision model: the reply shapes,
//! the choice of frames to send, and the prompt.
use vstd::prelude::*;

use crate::text::chars::{append_chars, chars_of, string_of};
use crate::text::number::{signed_decimal, signed_decimal_chars};
use crate::text::words::{join, join_words, view_all};

verus! {

/// A generated question as the rest of the app sees it.
#[derive(Debug, Clone)]
pub struct QuestionItem {
    pub qtype: String,
    pub question: String,
    pub answer: String,
    pub rank: Option<i32>,
    pub followup_correct_question: Option<String>,
    pub followup_correct_answer: Option<String>,
    pub followup_wrong_question: Option<String>,
    pub followup_wrong_answer: Option<String>,
}

/// A stored segment.
#[derive(Debug)]
pub struct SegmentResponse {
    pub id: i64,
    pub video_id: String,
    pub start_seconds: i32,
    pub end_seconds: i32,
    pub best_question: Option<String>,
}

/// A segment with its generated questions.
#[derive(Debug)]
pub struct QuestionsResponse {
    pub segment: SegmentResponse,
    pub questions: Vec<QuestionItem>,
}

/// A follow-up question in the model's reply.
pub struct OpenAIFollowUp {
    pub q: String,
    pub a: String,
}

/// One question in the model's reply.
pub struct OpenAIQuestionItem {
    pub q: String,
    pub a: String,
    pub rank: Option<i32>,
    pub followup_for_correct_answer: Option<OpenAIFollowUp>,
    pub followup_for_wrong_answer: Option<OpenAIFollowUp>,
}

/// One question per type in the model's reply.
pub struct OpenAIQuestions {
    pub character: OpenAIQuestionItem,
    pub setting: OpenAIQuestionItem,
    pub feeling: OpenAIQuestionItem,
    pub action: OpenAIQuestionItem,
    pub causal: OpenAIQuestionItem,
    pub outcome: OpenAIQuestionItem,
    pub prediction: OpenAIQuestionItem,
}

/// The model's reply.
pub struct OpenAIResponse {
    pub questions: OpenAIQuestions,
    pub best_question: String,
}

/// The paths sampled from `paths`: all of them when there are at most `max`,
/// else `max` paths evenly spaced by `len / max`, starting with the first.
pub open spec fn sampled(paths: Seq<String>, max: nat) -> Seq<String> {
    if paths.len() <= max {
        paths
    } else {
        Seq::new(max, |i: int| paths[i * (paths.len() / max) as int])
    }
}

proof fn lemma_sample_index(i: int, max: int, len: int)
    requires
        0 <= i < max,
        0 < max < len,
    ensures
        0 <= i * (len / max) < len,
        len / max >= 1,
{
    assert(len / max >= 1) by (nonlinear_arith)
        requires
            0 < max < len,
    ;
    assert(0 <= i * (len / max) < len) by (nonlinear_arith)
        requires
            0 <= i < max,
            0 < max < len,
    ;
}

/// Sample up to `max` evenly-spaced paths from a frame list.
pub fn sample_frame_paths(paths: &[String], max: usize) -> (r: Vec<String>)
    requires
        max > 0 || paths@.len() == 0,
    ensures
        r@ == sampled(paths@, max as nat),
{
    let n = paths.len();
    let mut out: Vec<String> = Vec::new();
    if n <= max {
        let mut i: usize = 0;
        while i < n
            invariant
                n == paths@.len(),
                i <= n,
                out@ == paths@.take(i as int),
            decreases n - i,
        {
            out.push(paths[i].clone());
            assert(out@ =~= paths@.take(i + 1));
            i += 1;
        }
        assert(paths@.take(n as int) =~= paths@);
        return out;
    }
    let step = if n / max > 1 {
        n / max
    } else {
        1
    };
    proof {
        lemma_sample_index(0, max as int, n as int);
    }
    assert(step == n / max);
    let ghost target = sampled(paths@, max as nat);
    let mut i: usize = 0;
    while i < max
        invariant
            n == paths@.len(),
            n > max > 0,
            step == n / max,
            target == sampled(paths@, max as nat),
            i <= max,
            out@ == target.take(i as int),
        decreases max - i,
    {
        proof {
            lemma_sample_index(i as int, max as int, n as int);
        }
        let idx = i * step;
        out.push(paths[idx].clone());
        assert(out@ =~= target.take(i + 1));
        i += 1;
    }
    assert(target.take(max as int) =~= target);
    out
}

/// The opening of the question prompt, up to the segment start.
pub open spec fn prompt_opening() -> Seq<char> {
    "You are an early childhood educator designing visual comprehension questions for children ages 6–8.\n\nYou will be shown frames from a children's video between "@
}

/// The instructions and the JSON shape the model must answer with.
pub open spec fn prompt_instructions() -> Seq<char> {
    "Generate ONE question for EACH of these types:\n- Character (who is in the scene)\n- Setting (where does it take place)\n- Feeling (how does a character appear to feel)\n- Action (what is happening)\n- Causal Relationship (why did something happen)\n- Outcome (what was the result)\n- Prediction (what might happen next)\n\nRULES:\n- Every answer must be a SINGLE WORD only\n- No spaces, no punctuation in answers\n- Questions must be answerable from the frames alone\n- Use simple language a 6 year old can understand\n- For each question provide TWO follow-up questions:\n  1. followup_for_correct_answer: a slightly harder question on the same topic for when the child answers correctly\n  2. followup_for_wrong_answer: an easier guiding question to help the child reach the original answer when they answer incorrectly\n\nGood answers: \"happy\", \"forest\", \"running\", \"spider\", \"scared\"\nBad answers: \"in the park\", \"very happy\", \"spider-man\"\n\nReturn ONLY this JSON:\n{\n  \"questions\": {\n    \"character\":  { \"q\": \"...\", \"a\": \"ONE_WORD\", \"rank\": 1, \"followup_for_correct_answer\": { \"q\": \"...\", \"a\": \"ONE_WORD\" }, \"followup_for_wrong_answer\": { \"q\": \"...\", \"a\": \"ONE_WORD\" } },\n    \"setting\":    { \"q\": \"...\", \"a\": \"ONE_WORD\", \"rank\": 2, \"followup_for_correct_answer\": { \"q\": \"...\", \"a\": \"ONE_WORD\" }, \"followup_for_wrong_answer\": { \"q\": \"...\", \"a\": \"ONE_WORD\" } },\n    \"feeling\":    { \"q\": \"...\", \"a\": \"ONE_WORD\", \"rank\": 3, \"followup_for_correct_answer\": { \"q\": \"...\", \"a\": \"ONE_WORD\" }, \"followup_for_wrong_answer\": { \"q\": \"...\", \"a\": \"ONE_WORD\" } },\n    \"action\":     { \"q\": \"...\", \"a\": \"ONE_WORD\", \"rank\": 4, \"followup_for_correct_answer\": { \"q\": \"...\", \"a\": \"ONE_WORD\" }, \"followup_for_wrong_answer\": { \"q\": \"...\", \"a\": \"ONE_WORD\" } },\n    \"causal\":     { \"q\": \"...\", \"a\": \"ONE_WORD\", \"rank\": 5, \"followup_for_correct_answer\": { \"q\": \"...\", \"a\": \"ONE_WORD\" }, \"followup_for_wrong_answer\": { \"q\": \"...\", \"a\": \"ONE_WORD\" } },\n    \"outcome\":    { \"q\": \"...\", \"a\": \"ONE_WORD\", \"rank\": 6, \"followup_for_correct_answer\": { \"q\": \"...\", \"a\": \"ONE_WORD\" }, \"followup_for_wrong_answer\": { \"q\": \"...\", \"a\": \"ONE_WORD\" } },\n    \"prediction\": { \"q\": \"...\", \"a\": \"ONE_WORD\", \"rank\": 7, \"followup_for_correct_answer\": { \"q\": \"...\", \"a\": \"ONE_WORD\" }, \"followup_for_wrong_answer\": { \"q\": \"...\", \"a\": \"ONE_WORD\" } }\n  },\n  \"best_question\": \"the single most engaging question from above\"\n}"@
}

/// One earlier question as listed in the prompt.
pub open spec fn listed_question(q: Seq<char>) -> Seq<char> {
    "- \""@ + q + "\""@
}

/// The warning against repeating earlier questions; empty when there are none.
pub open spec fn repeat_warning(existing: Seq<Seq<char>>) -> Seq<char> {
    if existing.len() == 0 {
        Seq::<char>::empty()
    } else {
        "PREVIOUSLY ASKED QUESTIONS (do not repeat or closely resemble these):\n"@ + join(
            Seq::new(existing.len(), |i: int| listed_question(existing[i])),
            seq!['\n'],
        ) + "\n\n"@
    }
}

/// The prompt for the segment from `start` to `end` seconds.
pub open spec fn prompt_text(start: int, end: int, existing: Seq<Seq<char>>) -> Seq<char> {
    prompt_opening() + signed_decimal(start) + "s and "@ + signed_decimal(end) + "s.\nBase your questions ONLY on what is visually present in the frames.\nDo not assume any dialogue or narration.\n\n"@
        + repeat_warning(existing) + prompt_instructions()
}

/// The text of each string.
pub open spec fn texts(v: Seq<String>) -> Seq<Seq<char>> {
    Seq::new(v.len(), |i: int| v[i]@)
}

/// Build the GPT-4o prompt for a video segment.
/// `existing_questions` prevents the model from repeating questions
/// already generated for earlier segments of the same video.
pub fn build_prompt(start: i32, end: i32, existing_questions: &[String]) -> (r: String)
    ensures
        r@ == prompt_text(start as int, end as int, texts(existing_questions@)),
{
    let mut out: Vec<char> = chars_of("You are an early childhood educator designing visual comprehension questions for children ages 6–8.\n\nYou will be shown frames from a children's video between ");
    append_chars(&mut out, signed_decimal_chars(start).as_slice());
    append_chars(&mut out, chars_of("s and ").as_slice());
    append_chars(&mut out, signed_decimal_chars(end).as_slice());
    append_chars(&mut out, chars_of("s.\nBase your questions ONLY on what is visually present in the frames.\nDo not assume any dialogue or narration.\n\n").as_slice());
    if existing_questions.len() > 0 {
        let mut items: Vec<Vec<char>> = Vec::new();
        let mut i: usize = 0;
        while i < existing_questions.len()
            invariant
                i <= existing_questions@.len(),
                items@.len() == i,
                forall|k: int|
                    0 <= k < i ==> #[trigger] items@[k]@ == listed_question(
                        existing_questions@[k]@,
                    ),
            decreases existing_questions.len() - i,
        {
            let mut item = chars_of("- \"");
            append_chars(&mut item, chars_of(existing_questions[i].as_str()).as_slice());
            append_chars(&mut item, chars_of("\"").as_slice());
            items.push(item);
            i += 1;
        }
        assert(view_all(items@) =~= Seq::new(
            existing_questions@.len(),
            |i: int| listed_question(texts(existing_questions@)[i]),
        ));
        let sep: [char; 1] = ['\n'];
        assert(sep@ =~= seq!['\n']);
        append_chars(
            &mut out,
            chars_of("PREVIOUSLY ASKED QUESTIONS (do not repeat or closely resemble these):\n").as_slice(),
        );
        append_chars(&mut out, join_words(&items, sep.as_slice()).as_slice());
        append_chars(&mut out, chars_of("\n\n").as_slice());
    }
    append_chars(&mut out, chars_of("Generate ONE question for EACH of these types:\n- Character (who is in the scene)\n- Setting (where does it take place)\n- Feeling (how does a character appear to feel)\n- Action (what is happening)\n- Causal Relationship (why did something happen)\n- Outcome (what was the result)\n- Prediction (what might happen next)\n\nRULES:\n- Every answer must be a SINGLE WORD only\n- No spaces, no punctuation in answers\n- Questions must be answerable from the frames alone\n- Use simple language a 6 year old can understand\n- For each question provide TWO follow-up questions:\n  1. followup_for_correct_answer: a slightly harder question on the same topic for when the child answers correctly\n  2. followup_for_wrong_answer: an easier guiding question to help the child reach the original answer when they answer incorrectly\n\nGood answers: \"happy\", \"forest\", \"running\", \"spider\", \"scared\"\nBad answers: \"in the park\", \"very happy\", \"spider-man\"\n\nReturn ONLY this JSON:\n{\n  \"questions\": {\n    \"character\":  { \"q\": \"...\", \"a\": \"ONE_WORD\", \"rank\": 1, \"followup_for_correct_answer\": { \"q\": \"...\", \"a\": \"ONE_WORD\" }, \"followup_for_wrong_answer\": { \"q\": \"...\", \"a\": \"ONE_WORD\" } },\n    \"setting\":    { \"q\": \"...\", \"a\": \"ONE_WORD\", \"rank\": 2, \"followup_for_correct_answer\": { \"q\": \"...\", \"a\": \"ONE_WORD\" }, \"followup_for_wrong_answer\": { \"q\": \"...\", \"a\": \"ONE_WORD\" } },\n    \"feeling\":    { \"q\": \"...\", \"a\": \"ONE_WORD\", \"rank\": 3, \"followup_for_correct_answer\": { \"q\": \"...\", \"a\": \"ONE_WORD\" }, \"followup_for_wrong_answer\": { \"q\": \"...\", \"a\": \"ONE_WORD\" } },\n    \"action\":     { \"q\": \"...\", \"a\": \"ONE_WORD\", \"rank\": 4, \"followup_for_correct_answer\": { \"q\": \"...\", \"a\": \"ONE_WORD\" }, \"followup_for_wrong_answer\": { \"q\": \"...\", \"a\": \"ONE_WORD\" } },\n    \"causal\":     { \"q\": \"...\", \"a\": \"ONE_WORD\", \"rank\": 5, \"followup_for_correct_answer\": { \"q\": \"...\", \"a\": \"ONE_WORD\" }, \"followup_for_wrong_answer\": { \"q\": \"...\", \"a\": \"ONE_WORD\" } },\n    \"outcome\":    { \"q\": \"...\", \"a\": \"ONE_WORD\", \"rank\": 6, \"followup_for_correct_answer\": { \"q\": \"...\", \"a\": \"ONE_WORD\" }, \"followup_for_wrong_answer\": { \"q\": \"...\", \"a\": \"ONE_WORD\" } },\n    \"prediction\": { \"q\": \"...\", \"a\": \"ONE_WORD\", \"rank\": 7, \"followup_for_correct_answer\": { \"q\": \"...\", \"a\": \"ONE_WORD\" }, \"followup_for_wrong_answer\": { \"q\": \"...\", \"a\": \"ONE_WORD\" } }\n  },\n  \"best_question\": \"the single most engaging question from above\"\n}").as_slice());
    string_of(out.as_slice())
}

/// The base64 digit of a six-bit value (standard alphabet, RFC 4648).
pub open spec fn base64_digit(v: int) -> char {
    if v < 26 {
        (65 + v) as char
    } else if v < 52 {
        (97 + v - 26) as char
    } else if v < 62 {
        (48 + v - 52) as char
    } else if v == 62 {
        '+'
    } else {
        '/'
    }
}

/// Standard base64 with '=' padding: each group of three bytes becomes four
/// digits; a final group of one or two bytes is padded to four.
pub open spec fn base64_encoded(b: Seq<u8>) -> Seq<char>
    decreases b.len(),
{
    if b.len() == 0 {
        Seq::<char>::empty()
    } else if b.len() == 1 {
        seq![base64_digit(b[0] as int / 4), base64_digit((b[0] as int % 4) * 16), '=', '=']
    } else if b.len() == 2 {
        seq![
            base64_digit(b[0] as int / 4),
            base64_digit((b[0] % 4) * 16 + b[1] / 16),
            base64_digit((b[1] % 16) * 4),
            '=',
        ]
    } else {
        seq![
            base64_digit(b[0] as int / 4),
            base64_digit((b[0] % 4) * 16 + b[1] / 16),
            base64_digit((b[1] % 16) * 4 + b[2] / 64),
            base64_digit(b[2] as int % 64),
        ] + base64_encoded(b.skip(3))
    }
}

/// Calls `Engine::encode` of `base64::engine::general_purpose::STANDARD`:
/// standard alphabet with padding. It panics only when the encoded length
/// overflows `usize`.
#[verifier::external_body]
fn base64_standard(bytes: &[u8]) -> (r: String)
    requires
        4 * ((bytes@.len() + 2) / 3) <= usize::MAX,
    ensures
        r@ == base64_encoded(bytes@),
{
    base64::Engine::encode(&base64::engine::general_purpose::STANDARD, bytes)
}

/// The data URL under which a JPEG frame is sent to the model.
pub fn jpeg_data_url(jpeg: &[u8]) -> (r: String)
    requires
        4 * ((jpeg@.len() + 2) / 3) <= usize::MAX,
    ensures
        r@ == "data:image/jpeg;base64,"@ + base64_encoded(jpeg@),
{
    let mut url = "data:image/jpeg;base64,".to_owned();
    let encoded = base64_standard(jpeg);
    url.append(encoded.as_str());
    url
}

} // verus!
