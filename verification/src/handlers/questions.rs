//! Question generation logic: cutting a video into question segments at
//! keyframe boundaries, and turning the model's structured reply into
//! question rows.
use vstd::prelude::*;

use crate::utils::openai::{OpenAIFollowUp, OpenAIQuestionItem, OpenAIQuestions, QuestionItem, QuestionsResponse};

verus! {

/// Segments shorter than this are merged into the next one.
pub const MIN_SEGMENT: i32 = 30;

/// Segments longer than this are cut into pieces of this length.
pub const MAX_SEGMENT: i32 = 90;

/// An edited question, as the review screen sends it.
pub struct QuestionUpdate {
    pub _segment_id: i64,
    pub qtype: String,
    pub question: String,
    pub answer: String,
    pub followup_correct_question: Option<String>,
    pub followup_correct_answer: Option<String>,
    pub followup_wrong_question: Option<String>,
    pub followup_wrong_answer: Option<String>,
}

/// The edits to one segment.
pub struct SegmentUpdate {
    pub segment_id: i64,
    pub best_question: String,
    pub questions: Vec<QuestionUpdate>,
}

/// A stored question.
#[derive(Debug, Clone)]
pub struct QuestionRow {
    pub id: i64,
    pub segment_id: i64,
    pub qtype: String,
    pub question: String,
    pub answer: String,
    pub rank: Option<i32>,
    pub followup_correct_question: Option<String>,
    pub followup_correct_answer: Option<String>,
    pub followup_wrong_question: Option<String>,
    pub followup_wrong_answer: Option<String>,
}

/// A stored segment with its questions.
#[derive(Debug, Clone)]
pub struct SegmentWithQuestions {
    pub id: i64,
    pub video_id: String,
    pub local_video_path: Option<String>,
    pub start_seconds: i32,
    pub end_seconds: i32,
    pub best_question: Option<String>,
    pub questions: Vec<QuestionRow>,
}

// ---------------------------------------------------------------------------
// Keyframe boundaries and segments
// ---------------------------------------------------------------------------

/// The keyframe boundaries, starting at 0.
pub open spec fn from_zero(bs: Seq<i32>) -> Seq<i32> {
    if bs.len() > 0 && bs[0] == 0 {
        bs
    } else {
        seq![0i32] + bs
    }
}

/// Makes sure the boundaries start at 0.
pub fn with_leading_zero(boundaries: Vec<i32>) -> (r: Vec<i32>)
    ensures
        r@ == from_zero(boundaries@),
{
    let mut b = boundaries;
    if b.len() > 0 && b[0] == 0 {
        return b;
    }
    b.insert(0, 0);
    assert(b@ =~= seq![0i32] + boundaries@);
    b
}

/// Cuts `[cursor, b)` into whole pieces of `MAX_SEGMENT`, leaving the rest.
pub open spec fn cut_long(segs: Seq<(i32, i32)>, cursor: i32, b: i32) -> (Seq<(i32, i32)>, i32)
    decreases b - cursor,
{
    if cursor + MAX_SEGMENT < b {
        cut_long(segs.push((cursor, (cursor + MAX_SEGMENT) as i32)), (cursor + MAX_SEGMENT) as i32, b)
    } else {
        (segs, cursor)
    }
}

/// The segments cut by the boundaries `bs` (the leading 0 excluded) and where
/// the next segment starts.
pub open spec fn scan(bs: Seq<i32>) -> (Seq<(i32, i32)>, i32)
    decreases bs.len(),
{
    if bs.len() == 0 {
        (seq![], 0i32)
    } else {
        let (segs, start) = scan(bs.drop_last());
        let b = bs.last();
        let len = b - start;
        if len < MIN_SEGMENT {
            (segs, start)
        } else if len > MAX_SEGMENT {
            cut_long(segs, start, b)
        } else {
            (segs.push((start, b)), b)
        }
    }
}

/// The boundaries after the first (which is the start of the video).
pub open spec fn after_first(bs: Seq<i32>) -> Seq<i32> {
    if bs.len() == 0 {
        bs
    } else {
        bs.skip(1)
    }
}

/// The segments of a video of `duration` seconds cut at the keyframe
/// boundaries: pieces of 30 to 90 seconds, and the tail up to the end.
pub open spec fn segments_of(boundaries: Seq<i32>, duration: i32) -> Seq<(i32, i32)> {
    let (segs, start) = scan(after_first(boundaries));
    if start < duration {
        segs.push((start, duration))
    } else {
        segs
    }
}

/// Boundaries leave room for one more maximal segment.
pub open spec fn boundaries_in_range(bs: Seq<i32>) -> bool {
    forall|k: int| 0 <= k < bs.len() ==> #[trigger] bs[k] <= i32::MAX - MAX_SEGMENT
}

/// No boundary lies past `d`.
pub open spec fn boundaries_within(bs: Seq<i32>, d: i32) -> bool {
    forall|k: int| 0 <= k < bs.len() ==> #[trigger] bs[k] <= d
}

/// Segments follow each other without gaps, starting at 0, each at most
/// `MAX_SEGMENT` long and at least `MIN_SEGMENT` long.
pub open spec fn tiled(segs: Seq<(i32, i32)>, start: i32) -> bool {
    &&& segs.len() == 0 ==> start == 0
    &&& segs.len() > 0 ==> segs[0].0 == 0 && segs.last().1 == start
    &&& forall|k: int| 0 <= k < segs.len() - 1 ==> #[trigger] segs[k].1 == segs[k + 1].0
    &&& forall|k: int|
        0 <= k < segs.len() ==> MIN_SEGMENT <= #[trigger] segs[k].1 - segs[k].0 <= MAX_SEGMENT
}

proof fn lemma_cut_long(segs: Seq<(i32, i32)>, cursor: i32, b: i32)
    requires
        tiled(segs, cursor),
        0 <= cursor,
        b <= i32::MAX - MAX_SEGMENT,
    ensures
        tiled(cut_long(segs, cursor, b).0, cut_long(segs, cursor, b).1),
        cursor <= cut_long(segs, cursor, b).1,
        cut_long(segs, cursor, b).1 <= b || cut_long(segs, cursor, b).1 == cursor,
        cut_long(segs, cursor, b).1 + MAX_SEGMENT >= b,
    decreases b - cursor,
{
    if cursor + MAX_SEGMENT < b {
        let next = segs.push((cursor, (cursor + MAX_SEGMENT) as i32));
        assert(tiled(next, (cursor + MAX_SEGMENT) as i32)) by {
            if segs.len() > 0 {
                assert(next[segs.len() - 1] == segs.last());
            }
            assert forall|k: int| 0 <= k < next.len() - 1 implies #[trigger] next[k].1 == next[k
                + 1].0 by {
                if k < segs.len() - 1 {
                    assert(next[k] == segs[k] && next[k + 1] == segs[k + 1]);
                }
            }
            assert forall|k: int| 0 <= k < next.len() implies MIN_SEGMENT <= #[trigger] next[k].1
                - next[k].0 <= MAX_SEGMENT by {
                if k < segs.len() {
                    assert(next[k] == segs[k]);
                }
            }
        }
        lemma_cut_long(next, (cursor + MAX_SEGMENT) as i32, b);
    }
}

proof fn lemma_scan(bs: Seq<i32>)
    requires
        boundaries_in_range(bs),
    ensures
        tiled(scan(bs).0, scan(bs).1),
        0 <= scan(bs).1 <= i32::MAX - MAX_SEGMENT,
    decreases bs.len(),
{
    if bs.len() > 0 {
        let p = bs.drop_last();
        assert(boundaries_in_range(p)) by {
            assert forall|k: int| 0 <= k < p.len() implies #[trigger] p[k] <= i32::MAX
                - MAX_SEGMENT by {
                assert(p[k] == bs[k]);
            }
        }
        lemma_scan(p);
        let (segs, start) = scan(p);
        let b = bs.last();
        assert(b == bs[bs.len() - 1]);
        let len = b - start;
        if len < MIN_SEGMENT {
        } else if len > MAX_SEGMENT {
            lemma_cut_long(segs, start, b);
        } else {
            let next = segs.push((start, b));
            if segs.len() > 0 {
                assert(next[segs.len() - 1] == segs.last());
            }
            assert forall|k: int| 0 <= k < next.len() - 1 implies #[trigger] next[k].1 == next[k
                + 1].0 by {
                if k < segs.len() - 1 {
                    assert(next[k] == segs[k] && next[k + 1] == segs[k + 1]);
                }
            }
            assert forall|k: int| 0 <= k < next.len() implies MIN_SEGMENT <= #[trigger] next[k].1
                - next[k].0 <= MAX_SEGMENT by {
                if k < segs.len() {
                    assert(next[k] == segs[k]);
                }
            }
        }
    }
}

/// Where the next segment starts never lies past the last boundary bound.
proof fn lemma_scan_start_within(bs: Seq<i32>, d: i32)
    requires
        boundaries_in_range(bs),
        boundaries_within(bs, d),
        0 <= d,
    ensures
        scan(bs).1 <= d,
    decreases bs.len(),
{
    if bs.len() > 0 {
        let p = bs.drop_last();
        assert(boundaries_in_range(p) && boundaries_within(p, d)) by {
            assert forall|k: int| 0 <= k < p.len() implies #[trigger] p[k] <= i32::MAX
                - MAX_SEGMENT && p[k] <= d by {
                assert(p[k] == bs[k]);
            }
        }
        lemma_scan(p);
        lemma_scan_start_within(p, d);
        let (segs, start) = scan(p);
        let b = bs.last();
        assert(b == bs[bs.len() - 1]);
        if b - start > MAX_SEGMENT {
            lemma_cut_long(segs, start, b);
        }
    }
}

/// The segments tile the video from 0 without gaps: each follows the
/// previous one, all but the tail are 30 to 90 seconds long, and the tail,
/// when there is one, runs to the end of the video.
pub proof fn lemma_segments_tile(boundaries: Seq<i32>, duration: i32)
    requires
        boundaries_in_range(boundaries),
    ensures
        ({
            let segs = segments_of(boundaries, duration);
            let (body, start) = scan(after_first(boundaries));
            &&& segs.len() > 0 ==> segs[0].0 == 0
            &&& forall|k: int| 0 <= k < segs.len() - 1 ==> #[trigger] segs[k].1 == segs[k + 1].0
            &&& forall|k: int|
                0 <= k < body.len() ==> MIN_SEGMENT <= #[trigger] segs[k].1 - segs[k].0
                    <= MAX_SEGMENT
            &&& forall|k: int| 0 <= k < segs.len() ==> #[trigger] segs[k].0 < segs[k].1
            &&& start < duration ==> segs.last() == (start, duration)
            &&& 0 < duration && boundaries_within(boundaries, duration) ==> segs.len() > 0
                && segs.last().1 == duration
        }),
{
    let bs = after_first(boundaries);
    assert(boundaries_in_range(bs)) by {
        assert forall|k: int| 0 <= k < bs.len() implies #[trigger] bs[k] <= i32::MAX
            - MAX_SEGMENT by {
            if boundaries.len() > 0 {
                assert(bs[k] == boundaries[k + 1]);
            }
        }
    }
    lemma_scan(bs);
    let (body, start) = scan(bs);
    let segs = segments_of(boundaries, duration);
    if 0 < duration && boundaries_within(boundaries, duration) {
        assert(boundaries_within(bs, duration)) by {
            assert forall|k: int| 0 <= k < bs.len() implies #[trigger] bs[k] <= duration by {
                if boundaries.len() > 0 {
                    assert(bs[k] == boundaries[k + 1]);
                }
            }
        }
        lemma_scan_start_within(bs, duration);
        if start == duration {
            assert(body.len() > 0);
            assert(segs == body);
        }
    }
    if start < duration {
        assert(segs == body.push((start, duration)));
        if body.len() > 0 {
            assert(segs[body.len() - 1] == body.last());
        }
        assert forall|k: int| 0 <= k < segs.len() - 1 implies #[trigger] segs[k].1 == segs[k
            + 1].0 by {
            if k < body.len() - 1 {
                assert(segs[k] == body[k] && segs[k + 1] == body[k + 1]);
            }
        }
        assert forall|k: int| 0 <= k < body.len() implies MIN_SEGMENT <= #[trigger] segs[k].1
            - segs[k].0 <= MAX_SEGMENT by {
            assert(segs[k] == body[k]);
        }
        assert forall|k: int| 0 <= k < segs.len() implies #[trigger] segs[k].0 < segs[k].1 by {
            if k < body.len() {
                assert(segs[k] == body[k]);
            }
        }
    }
}

/// Cuts a video of `duration` seconds into question segments at its keyframe
/// boundaries; a boundary less than 30 seconds after the current segment's
/// start (a negative one among them) is passed over. A video of unknown
/// (zero) duration is an error.
pub fn build_segments(boundaries: &[i32], duration: i32) -> (r: Result<Vec<(i32, i32)>, String>)
    requires
        boundaries_in_range(boundaries@),
    ensures
        duration == 0 ==> (r matches Err(e) && e@ == "[questions] video duration unknown"@),
        duration != 0 ==> (r matches Ok(segs) && segs@ == segments_of(boundaries@, duration)),
{
    if duration == 0 {
        return Err("[questions] video duration unknown".to_owned());
    }
    let mut segments: Vec<(i32, i32)> = Vec::new();
    let mut seg_start: i32 = 0;
    let ghost bs = after_first(boundaries@);
    let mut i: usize = 1;
    proof {
        if boundaries@.len() == 0 {
            assert(bs =~= Seq::<i32>::empty());
        }
        assert(boundaries@.len() >= 1 ==> bs.take(0) =~= Seq::<i32>::empty());
        assert(scan(Seq::<i32>::empty()) == (Seq::<(i32, i32)>::empty(), 0i32));
    }
    if boundaries.len() == 0 {
        assert(bs.take(0) =~= bs);
    }
    while i < boundaries.len()
        invariant
            1 <= i,
            boundaries@.len() >= 1 ==> i <= boundaries@.len(),
            boundaries_in_range(boundaries@),
            bs == after_first(boundaries@),
            boundaries@.len() >= 1 ==> (segments@, seg_start) == scan(bs.take(i - 1)),
            boundaries@.len() == 0 ==> (segments@, seg_start) == scan(bs),
            0 <= seg_start <= i32::MAX - MAX_SEGMENT,
        decreases boundaries.len() - i,
    {
        let boundary = boundaries[i];
        proof {
            assert(bs.take(i as int).drop_last() =~= bs.take(i - 1));
            assert(bs.take(i as int).last() == boundary);
            lemma_scan(bs.take(i - 1));
        }
        let len: i64 = boundary as i64 - seg_start as i64;
        if len < MIN_SEGMENT as i64 {
        } else if len > MAX_SEGMENT as i64 {
            let mut cursor = seg_start;
            while cursor + MAX_SEGMENT < boundary
                invariant
                    0 <= seg_start <= cursor,
                    cursor <= i32::MAX - MAX_SEGMENT,
                    boundary <= i32::MAX - MAX_SEGMENT,
                    cut_long(segments@, cursor, boundary) == cut_long(
                        scan(bs.take(i - 1)).0,
                        seg_start,
                        boundary,
                    ),
                decreases boundary - cursor,
            {
                segments.push((cursor, cursor + MAX_SEGMENT));
                cursor = cursor + MAX_SEGMENT;
            }
            seg_start = cursor;
        } else {
            segments.push((seg_start, boundary));
            seg_start = boundary;
        }
        i += 1;
    }
    proof {
        if boundaries@.len() >= 1 {
            assert(bs.take(i - 1) =~= bs);
        }
    }
    if seg_start < duration {
        segments.push((seg_start, duration));
    }
    Ok(segments)
}

// ---------------------------------------------------------------------------
// Parsing the model's reply
// ---------------------------------------------------------------------------

/// The question types, in the order questions are stored and shown.
pub open spec fn question_types() -> Seq<Seq<char>> {
    seq![
        "character"@,
        "setting"@,
        "feeling"@,
        "action"@,
        "causal"@,
        "outcome"@,
        "prediction"@,
    ]
}

/// The model's items in type order.
pub open spec fn items_in_order(q: OpenAIQuestions) -> Seq<OpenAIQuestionItem> {
    seq![q.character, q.setting, q.feeling, q.action, q.causal, q.outcome, q.prediction]
}

pub open spec fn follow_q(f: Option<OpenAIFollowUp>) -> Option<String> {
    match f {
        Some(x) => Some(x.q),
        None => None,
    }
}

pub open spec fn follow_a(f: Option<OpenAIFollowUp>) -> Option<String> {
    match f {
        Some(x) => Some(x.a),
        None => None,
    }
}

/// `row` holds the model's `item` under type `qtype`.
pub open spec fn row_of(row: QuestionItem, qtype: Seq<char>, item: OpenAIQuestionItem) -> bool {
    &&& row.qtype@ == qtype
    &&& row.question == item.q
    &&& row.answer == item.a
    &&& row.rank == item.rank
    &&& row.followup_correct_question == follow_q(item.followup_for_correct_answer)
    &&& row.followup_correct_answer == follow_a(item.followup_for_correct_answer)
    &&& row.followup_wrong_question == follow_q(item.followup_for_wrong_answer)
    &&& row.followup_wrong_answer == follow_a(item.followup_for_wrong_answer)
}

fn opt_q(f: &Option<OpenAIFollowUp>) -> (r: Option<String>)
    ensures
        r == follow_q(*f),
{
    match f {
        Some(x) => Some(x.q.clone()),
        None => None,
    }
}

fn opt_a(f: &Option<OpenAIFollowUp>) -> (r: Option<String>)
    ensures
        r == follow_a(*f),
{
    match f {
        Some(x) => Some(x.a.clone()),
        None => None,
    }
}

fn question_row(qtype: &str, item: &OpenAIQuestionItem) -> (r: QuestionItem)
    ensures
        row_of(r, qtype@, *item),
{
    QuestionItem {
        qtype: qtype.to_owned(),
        question: item.q.clone(),
        answer: item.a.clone(),
        rank: item.rank,
        followup_correct_question: opt_q(&item.followup_for_correct_answer),
        followup_correct_answer: opt_a(&item.followup_for_correct_answer),
        followup_wrong_question: opt_q(&item.followup_for_wrong_answer),
        followup_wrong_answer: opt_a(&item.followup_for_wrong_answer),
    }
}

/// One question row per question type, in type order.
pub fn question_items(parsed: &OpenAIQuestions) -> (r: Vec<QuestionItem>)
    ensures
        r@.len() == 7,
        forall|k: int|
            0 <= k < 7 ==> row_of(#[trigger] r@[k], question_types()[k], items_in_order(*parsed)[k]),
{
    let mut out: Vec<QuestionItem> = Vec::new();
    out.push(question_row("character", &parsed.character));
    out.push(question_row("setting", &parsed.setting));
    out.push(question_row("feeling", &parsed.feeling));
    out.push(question_row("action", &parsed.action));
    out.push(question_row("causal", &parsed.causal));
    out.push(question_row("outcome", &parsed.outcome));
    out.push(question_row("prediction", &parsed.prediction));
    out
}

/// The questions already asked in `rs`, in order: each question followed by
/// its follow-ups for a correct and for a wrong answer, where present.
pub open spec fn asked_in_items(qs: Seq<QuestionItem>) -> Seq<String>
    decreases qs.len(),
{
    if qs.len() == 0 {
        seq![]
    } else {
        let q = qs.last();
        let a = asked_in_items(qs.drop_last()).push(q.question);
        let b = match q.followup_correct_question {
            Some(f) => a.push(f),
            None => a,
        };
        match q.followup_wrong_question {
            Some(f) => b.push(f),
            None => b,
        }
    }
}

/// Appends the questions of one segment to the list already asked, so later
/// segments do not repeat them.
pub fn note_asked_questions(asked: &mut Vec<String>, response: &QuestionsResponse)
    ensures
        final(asked)@ == old(asked)@ + asked_in_items(response.questions@),
{
    let qs = &response.questions;
    let ghost start = asked@;
    let mut i: usize = 0;
    assert(qs@.take(0) =~= Seq::<QuestionItem>::empty());
    assert(start + Seq::<String>::empty() =~= start);
    while i < qs.len()
        invariant
            i <= qs@.len(),
            asked@ == start + asked_in_items(qs@.take(i as int)),
        decreases qs.len() - i,
    {
        let q = &qs[i];
        assert(qs@.take(i + 1).drop_last() =~= qs@.take(i as int));
        assert(qs@.take(i + 1).last() == qs@[i as int]);
        let ghost a0 = asked@;
        asked.push(q.question.clone());
        match &q.followup_correct_question {
            Some(f) => asked.push(f.clone()),
            None => {},
        }
        match &q.followup_wrong_question {
            Some(f) => asked.push(f.clone()),
            None => {},
        }
        proof {
            let tail = asked_in_items(qs@.take(i + 1));
            let prev = asked_in_items(qs@.take(i as int));
            let qq = qs@[i as int];
            let x = prev.push(qq.question);
            let y = match qq.followup_correct_question {
                Some(f) => x.push(f),
                None => x,
            };
            let z = match qq.followup_wrong_question {
                Some(f) => y.push(f),
                None => y,
            };
            assert(tail == z);
            assert(asked@ =~= start + z);
        }
        i += 1;
    }
    assert(qs@.take(qs@.len() as int) =~= qs@);
}

} // verus!
