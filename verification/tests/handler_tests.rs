use piggyback::handlers::kids::topics_in_lowered;
use piggyback::handlers::videos::tag_sample;
use piggyback::handlers::answers::{answer_context, answers_request, fallback_match, text_match};
use piggyback::handlers::frames::{frame_timestamp, keyframe_flag, pts_time_text};
use piggyback::handlers::kids::{extract_topics, kid_session_id, may_enroll_kid, resolve_kid_id};
use piggyback::handlers::questions::{build_segments, note_asked_questions, question_items, with_leading_zero};
use piggyback::handlers::tags::tag_name;
use piggyback::handlers::videos::{
    keep_hit, search_fields, search_query, select_hits, strip_vtt_tags, thumbnail_url,
    vtt_to_plain_text, SearchCandidate,
};
use piggyback::utils::openai::{
    OpenAIFollowUp, OpenAIQuestionItem, OpenAIQuestions, QuestionItem, QuestionsResponse,
    SegmentResponse,
};
use piggyback::voice::session::new_session;

fn strings(v: &[&str]) -> Vec<String> {
    v.iter().map(|s| s.to_string()).collect()
}

#[test]
fn extract_topics_from_interest_phrase() {
    assert_eq!(extract_topics("my kid likes dinosaurs and space"), strings(&["dinosaurs", "space"]));
}

#[test]
fn extract_topics_trigger_order_and_or() {
    assert_eq!(extract_topics("She really loves Cats or dogs"), strings(&["cats", "dogs"]));
    assert_eq!(
        extract_topics("he likes to play soccer and reading books about big ships"),
        strings(&["to play soccer"])
    );
    assert_eq!(extract_topics("Tom is really into trains, planes"), strings(&["trains", "planes"]));
}

#[test]
fn extract_topics_without_trigger() {
    assert!(extract_topics("show me a video").is_empty());
    assert!(extract_topics("").is_empty());
}

#[test]
fn kid_resolution_by_name_speaker_or_single() {
    let kids = vec![(1i64, "Alice".to_string()), (2i64, "Bob".to_string())];
    let s = new_session();
    assert_eq!(resolve_kid_id(&kids, &strings(&["assign", "to", "BOB!"]), &s), Some(2));
    assert_eq!(resolve_kid_id(&kids, &strings(&["assign", "it"]), &s), None);

    let mut kid = new_session();
    kid.set_user(9, "Carl".to_string(), "kid".to_string());
    assert_eq!(resolve_kid_id(&kids, &strings(&["assign", "it"]), &kid), Some(9));
    assert_eq!(resolve_kid_id(&kids, &strings(&["for", "alice"]), &kid), Some(1));

    let one = vec![(5i64, "Zed".to_string())];
    assert_eq!(resolve_kid_id(&one, &strings(&["assign"]), &s), Some(5));
    assert_eq!(resolve_kid_id(&[], &strings(&["assign"]), &kid), None);
}

#[test]
fn session_roles_for_kid_commands() {
    let mut s = new_session();
    assert_eq!(kid_session_id(&s), None);
    assert!(!may_enroll_kid(&s));
    s.set_user(3, "Pat".to_string(), "parent".to_string());
    assert_eq!(kid_session_id(&s), None);
    assert!(may_enroll_kid(&s));
    s.set_user(4, "Kim".to_string(), "kid".to_string());
    assert_eq!(kid_session_id(&s), Some(4));
    assert!(!may_enroll_kid(&s));
}

#[test]
fn segments_at_keyframes() {
    let segs = build_segments(&[0, 10, 45, 200], 250).unwrap();
    assert_eq!(segs, vec![(0, 45), (45, 135), (135, 250)]);
}

#[test]
fn segments_without_keyframes() {
    assert_eq!(build_segments(&[0], 70).unwrap(), vec![(0, 70)]);
    assert_eq!(build_segments(&[], 70).unwrap(), vec![(0, 70)]);
    assert_eq!(build_segments(&[0, 60], 60).unwrap(), vec![(0, 60)]);
}

#[test]
fn segments_need_known_duration() {
    assert_eq!(build_segments(&[0, 40], 0), Err("[questions] video duration unknown".to_string()));
}

#[test]
fn segments_tile_the_video() {
    let bounds = [0, 5, 31, 40, 100, 300, 301, 390];
    let segs = build_segments(&bounds, 400).unwrap();
    let mut at = 0;
    for (a, b) in &segs {
        assert_eq!(*a, at);
        assert!(b > a);
        assert!(b - a <= 90 || *b == 400);
        at = *b;
    }
    assert_eq!(at, 400);
}

#[test]
fn keyframe_boundaries_start_at_zero() {
    assert_eq!(with_leading_zero(vec![12, 40]), vec![0, 12, 40]);
    assert_eq!(with_leading_zero(vec![0, 40]), vec![0, 40]);
    assert_eq!(with_leading_zero(vec![]), vec![0]);
}

fn item(q: &str, a: &str, rank: i32, follow: bool) -> OpenAIQuestionItem {
    OpenAIQuestionItem {
        q: q.to_string(),
        a: a.to_string(),
        rank: Some(rank),
        followup_for_correct_answer: if follow {
            Some(OpenAIFollowUp { q: format!("{q} harder"), a: "x".to_string() })
        } else {
            None
        },
        followup_for_wrong_answer: None,
    }
}

#[test]
fn question_rows_in_type_order() {
    let parsed = OpenAIQuestions {
        character: item("Who?", "pig", 1, true),
        setting: item("Where?", "farm", 2, false),
        feeling: item("Feel?", "happy", 3, false),
        action: item("Doing?", "jumping", 4, false),
        causal: item("Why?", "rain", 5, false),
        outcome: item("Then?", "mud", 6, false),
        prediction: item("Next?", "bath", 7, false),
    };
    let rows = question_items(&parsed);
    let types: Vec<&str> = rows.iter().map(|r| r.qtype.as_str()).collect();
    assert_eq!(types, vec!["character", "setting", "feeling", "action", "causal", "outcome", "prediction"]);
    assert_eq!(rows[0].question, "Who?");
    assert_eq!(rows[0].followup_correct_question.as_deref(), Some("Who? harder"));
    assert_eq!(rows[0].followup_correct_answer.as_deref(), Some("x"));
    assert_eq!(rows[1].followup_correct_question, None);
    assert_eq!(rows[6].answer, "bath");
    assert_eq!(rows[6].rank, Some(7));
}

fn qi(q: &str, fc: Option<&str>, fw: Option<&str>) -> QuestionItem {
    QuestionItem {
        qtype: "character".to_string(),
        question: q.to_string(),
        answer: "a".to_string(),
        rank: None,
        followup_correct_question: fc.map(|s| s.to_string()),
        followup_correct_answer: None,
        followup_wrong_question: fw.map(|s| s.to_string()),
        followup_wrong_answer: None,
    }
}

#[test]
fn asked_questions_accumulate() {
    let response = QuestionsResponse {
        segment: SegmentResponse {
            id: 1,
            video_id: "v".to_string(),
            start_seconds: 0,
            end_seconds: 30,
            best_question: None,
        },
        questions: vec![qi("Q1", Some("F1"), None), qi("Q2", Some("F2"), Some("W2"))],
    };
    let mut asked = strings(&["earlier"]);
    note_asked_questions(&mut asked, &response);
    assert_eq!(asked, strings(&["earlier", "Q1", "F1", "Q2", "F2", "W2"]));
}

#[test]
fn search_query_drops_filler() {
    assert_eq!(search_query(&strings(&["search", "for", "funny", "cats"])), "funny cats");
    assert_eq!(search_query(&strings(&["show", "me", "videos", "about"])), "");
    assert_eq!(search_query(&strings(&["Search", "dogs"])), "Search dogs");
}

#[test]
fn vtt_tags_stripped() {
    assert_eq!(strip_vtt_tags("<c>hello</c> <00:00:01.000>world "), "hello world");
    assert_eq!(strip_vtt_tags("a < b > c"), "a  c");
    assert_eq!(strip_vtt_tags("<unclosed text"), "");
}

#[test]
fn vtt_plain_text() {
    let vtt = "WEBVTT\nKind: captions\n\n1\n00:00:00.000 --> 00:00:02.000\n<c>Hello</c> there\n\n00:00:02.000 --> 00:00:03.000\nHello there\nNOTE skip\nGeneral Kenobi\n";
    assert_eq!(vtt_to_plain_text(vtt), "Kind: captions Hello there General Kenobi");
    assert_eq!(vtt_to_plain_text(""), "");
}

#[test]
fn search_result_lines() {
    let f = search_fields("abc\tA title\t123.0\tNA").unwrap();
    assert_eq!(f, strings(&["abc", "A title", "123.0", "NA"]));
    let f = search_fields("abc\tT\t1\tNA\textra").unwrap();
    assert_eq!(f[3], "NA\textra");
    assert!(search_fields("abc\tT\t1").is_none());
}

#[test]
fn search_hits_filter_and_limit() {
    assert!(keep_hit(" NA ", 120));
    assert!(!keep_hit("is_live", 120));
    assert!(!keep_hit("NA", 0));
    assert!(!keep_hit("NA", 301));
    assert!(keep_hit("NA", 300));
    assert_eq!(thumbnail_url("abc"), "https://i.ytimg.com/vi/abc/hqdefault.jpg");

    let mut cands = Vec::new();
    for k in 0..15 {
        cands.push(SearchCandidate {
            video_id: format!("v{k}"),
            title: format!("t{k}"),
            live_status: if k == 1 { "is_live".to_string() } else { "NA".to_string() },
            duration: if k == 2 { 999 } else { 60 },
        });
    }
    let hits = select_hits(&cands);
    assert_eq!(hits.len(), 10);
    let ids: Vec<&str> = hits.iter().map(|h| h.video_id.as_str()).collect();
    assert_eq!(ids, vec!["v0", "v3", "v4", "v5", "v6", "v7", "v8", "v9", "v10", "v11"]);
    assert_eq!(hits[1].thumbnail, "https://i.ytimg.com/vi/v3/hqdefault.jpg");
    assert_eq!(hits[1].duration, 60);
}

#[test]
fn frame_timestamps() {
    let (ts, text) = frame_timestamp(0);
    assert_eq!((ts, text.as_str()), (0, "00:00"));
    let (ts, text) = frame_timestamp(75);
    assert_eq!((ts, text.as_str()), (75, "01:15"));
    let (_, text) = frame_timestamp(6000);
    assert_eq!(text, "100:00");
}

#[test]
fn scene_change_times() {
    let line = "[Parsed_showinfo_1 @ 0x1] n:   3 pts:  12345 pts_time:12.345 duration:1";
    assert_eq!(pts_time_text(line).as_deref(), Some("12.345"));
    assert_eq!(pts_time_text("pts_time:").as_deref(), Some(""));
    assert_eq!(pts_time_text("no time here"), None);
    assert_eq!(keyframe_flag(&[3, 12], 12), 1);
    assert_eq!(keyframe_flag(&[3, 12], 4), 0);
    assert_eq!(keyframe_flag(&[], 0), 0);
}

#[test]
fn answer_text_matching() {
    assert!(text_match("Spider.", "spider"));
    assert!(text_match("I think it was a spider", "spider"));
    assert!(text_match("spider", "a big spider"));
    assert!(!text_match("a cat", "dog"));
    assert!(fallback_match("I think it was a spider", "Spider!"));
    assert!(!fallback_match("spider", "a big spider"));
}

#[test]
fn answer_context_needs_full_session() {
    let mut s = new_session();
    assert!(answer_context(&s).is_none());
    s.set_user(2, "Kim".to_string(), "kid".to_string());
    s.enter_answer_mode("spider".to_string(), "vid".to_string(), 5);
    assert!(answer_context(&s).is_none());
    s.last_transcript = Some("a spider".to_string());
    let c = answer_context(&s).unwrap();
    assert_eq!(c.kid_id, 2);
    assert_eq!(c.video_id, "vid");
    assert_eq!(c.segment_id, 5);
    assert_eq!(c.transcript, "a spider");
    assert_eq!(c.expected_answer, "spider");
    s.expected_answer = None;
    assert_eq!(answer_context(&s).unwrap().expected_answer, "");
}

#[test]
fn answers_listing_request() {
    let mut s = new_session();
    assert_eq!(answers_request(&strings(&["vid9"]), &s), None);
    s.set_user(4, "Kim".to_string(), "kid".to_string());
    assert_eq!(answers_request(&[], &s), Some((4, String::new())));
    s.current_video = Some("playing".to_string());
    assert_eq!(answers_request(&[], &s), Some((4, "playing".to_string())));
    assert_eq!(answers_request(&strings(&["vid9"]), &s), Some((4, "vid9".to_string())));
}

#[test]
fn tag_names_are_trimmed_lowercase() {
    assert_eq!(tag_name("  Space Rockets "), "space rockets");
    assert_eq!(tag_name("DINOSAURS"), "dinosaurs");
}

#[test]
fn tag_sample_takes_first_characters() {
    assert_eq!(tag_sample("short text"), "short text");
    let long: String = std::iter::repeat('é').take(2500).collect();
    let s = tag_sample(&long);
    assert_eq!(s.chars().count(), 2000);
}

#[test]
fn segments_skip_negative_boundaries() {
    assert_eq!(build_segments(&[0, -40, i32::MIN, 45], 100).unwrap(), vec![(0, 45), (45, 100)]);
}

#[test]
fn segments_end_at_duration() {
    let segs = build_segments(&[0, 30, 60, 90], 90).unwrap();
    assert_eq!(segs, vec![(0, 30), (30, 60), (60, 90)]);
    assert_eq!(segs.last().unwrap().1, 90);
}

#[test]
fn empty_answer_is_not_correct() {
    assert!(!text_match("...", "spider"));
    assert!(!text_match("", "spider"));
    assert!(text_match("...", "!"));
}

#[test]
fn topics_from_lowered_text() {
    let cs: Vec<char> = "she loves cats or dogs".chars().collect();
    assert_eq!(topics_in_lowered(&cs), strings(&["cats", "dogs"]));
    let cs: Vec<char> = "She LOVES cats".chars().collect();
    assert!(topics_in_lowered(&cs).is_empty());
}
