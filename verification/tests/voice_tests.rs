use piggyback::voice::intent::keyword_intent_in;
use piggyback::voice::onboarding::{enrolled_name, identifies_speaker};
use piggyback::commands::voice::{screen_transcript, Screened};
use piggyback::voice::command::{prepare_command, resolve};
use piggyback::voice::intent::{keyword_fallback, Intent};
use piggyback::voice::moonshine::{
    cached_output_names, token_ids, transcript_text, uncached_output_names, EOT, SOT,
};
use piggyback::voice::onboarding::{
    accept_name, begin_voice_collection, completion_event, failure_event, new_onboarding,
    record_embedding, start, OnboardingFlow, OnboardingStage, OnboardingState, PROMPT_COUNT,
};
use piggyback::voice::pipeline::{dispatch_target, route_transcript, should_dispatch, Handler, TranscriptRoute};
use piggyback::voice::session::{new_session, SessionContext, SessionMode};
use piggyback::voice::vad::{VadChunker, FRAME_SIZE, MAX_SAMPLES, MIN_SPEECH_SAMPLES};
use piggyback::voice::wake_word::detect;

const ALL_INTENTS: [Intent; 11] = [
    Intent::Search,
    Intent::AddKid,
    Intent::MyAnswers,
    Intent::AddTag,
    Intent::MyVideos,
    Intent::AssignVideo,
    Intent::WatchVideo,
    Intent::Recommendations,
    Intent::DownloadVideo,
    Intent::WakeOnly,
    Intent::Unhandled,
];

#[test]
fn intent_from_label() {
    assert_eq!(Intent::from_str("search"), Intent::Search);
    assert_eq!(Intent::from_str("add_kid"), Intent::AddKid);
    assert_eq!(Intent::from_str("download_video"), Intent::DownloadVideo);
    assert_eq!(Intent::from_str("Search"), Intent::Unhandled);
    assert_eq!(Intent::from_str("nonsense"), Intent::Unhandled);
    assert_eq!(Intent::from_str(""), Intent::Unhandled);
}

#[test]
fn intent_name_round_trip() {
    for i in ALL_INTENTS {
        let back = Intent::from_str(i.as_str());
        if i == Intent::WakeOnly {
            assert_eq!(back, Intent::Unhandled);
        } else {
            assert_eq!(back, i);
        }
    }
    assert_eq!(Intent::MyAnswers.as_str(), "my_answers");
    assert_eq!(Intent::WakeOnly.as_str(), "wake_only");
}

#[test]
fn keyword_rules_in_priority_order() {
    assert_eq!(keyword_fallback("Show me MY VIDEOS"), Intent::MyVideos);
    assert_eq!(keyword_fallback("what was assigned"), Intent::MyVideos);
    assert_eq!(keyword_fallback("can you recommend something"), Intent::Recommendations);
    assert_eq!(keyword_fallback("suggest a show"), Intent::Recommendations);
    assert_eq!(keyword_fallback("download this"), Intent::DownloadVideo);
    assert_eq!(keyword_fallback("how did I do"), Intent::MyAnswers);
    assert_eq!(keyword_fallback("my kid likes dinosaurs"), Intent::AddTag);
    assert_eq!(keyword_fallback("she is interested in space"), Intent::AddTag);
    assert_eq!(keyword_fallback("what is the weather"), Intent::Unhandled);
    assert_eq!(keyword_fallback("recommend my videos"), Intent::MyVideos);
}

#[test]
fn wake_phrases_and_tokens() {
    assert!(detect("Hey Jarvis, play something").wake_detected);
    assert!(detect("  OK Jarvis ").wake_detected);
    assert!(detect("jarvas open the video").wake_detected);
    assert!(detect("Jarvis.").wake_detected);
    assert!(!detect("hello there").wake_detected);
    assert!(!detect("jar vis").wake_detected);
    assert!(!detect("").wake_detected);
}

#[test]
fn prepared_command_resolves_with_intent() {
    let p = prepare_command("  Search for DINOSAURS!  ");
    assert_eq!(p.raw, "Search for DINOSAURS!");
    assert_eq!(p.clean, "search for dinosaurs");
    assert!(p.needs_intent());
    let c = resolve(p, Intent::Search);
    assert_eq!(c.intent, Intent::Search);
    assert_eq!(c.args, vec!["search".to_string(), "for".to_string(), "dinosaurs".to_string()]);
    assert_eq!(c.raw, "Search for DINOSAURS!");
}

#[test]
fn blank_command_is_wake_only() {
    let p = prepare_command("  ?!  ");
    assert!(!p.needs_intent());
    let c = resolve(p, Intent::Search);
    assert_eq!(c.intent, Intent::WakeOnly);
    assert!(c.args.is_empty());
    assert_eq!(c.raw, "?!");
}

#[test]
fn screening_transcripts() {
    match screen_transcript(String::new()) {
        Screened::Finished(v) => {
            assert_eq!(v.transcript, "");
            assert!(!v.wake_detected);
            assert!(v.command.is_none());
        }
        Screened::NeedsCommand(_) => panic!("empty transcript needs no command"),
    }
    match screen_transcript("play a video".to_string()) {
        Screened::Finished(v) => {
            assert_eq!(v.transcript, "play a video");
            assert!(!v.wake_detected);
        }
        Screened::NeedsCommand(_) => panic!("no wake phrase"),
    }
    match screen_transcript("hey jarvis search cats".to_string()) {
        Screened::NeedsCommand(t) => assert_eq!(t, "hey jarvis search cats"),
        Screened::Finished(_) => panic!("wake phrase was said"),
    }
}

#[test]
fn session_starts_empty() {
    let s = new_session();
    assert!(!s.is_identified());
    assert_eq!(s.mode, SessionMode::Command);
    assert!(s.user_id.is_none() && s.role.is_none() && s.current_video.is_none());
    let d = SessionContext::default();
    assert_eq!(d.mode, SessionMode::Command);
}

#[test]
fn session_answer_mode_round_trip() {
    let mut s = new_session();
    s.set_user(7, "Ada".to_string(), "kid".to_string());
    assert!(s.is_identified());
    s.last_transcript = Some("old".to_string());
    s.enter_answer_mode("spider".to_string(), "vid1".to_string(), 3);
    assert_eq!(s.mode, SessionMode::Answer);
    assert_eq!(s.expected_answer.as_deref(), Some("spider"));
    assert_eq!(s.current_video.as_deref(), Some("vid1"));
    assert_eq!(s.current_segment, Some(3));
    assert!(s.last_transcript.is_none());
    s.exit_answer_mode();
    assert_eq!(s.mode, SessionMode::Command);
    assert!(s.expected_answer.is_none());
    assert_eq!(s.current_video.as_deref(), Some("vid1"));
    assert_eq!(s.current_segment, Some(3));
    assert_eq!(s.user_id, Some(7));
    assert_eq!(s.user_name.as_deref(), Some("Ada"));
}

#[test]
fn routing_priorities() {
    assert_eq!(route_transcript(SessionMode::Command, false, ""), TranscriptRoute::Discard);
    assert_eq!(route_transcript(SessionMode::Tts, true, "hey jarvis"), TranscriptRoute::Discard);
    assert_eq!(route_transcript(SessionMode::Answer, true, "my name is Ada"), TranscriptRoute::Onboarding);
    assert_eq!(route_transcript(SessionMode::Answer, false, "um"), TranscriptRoute::Answer);
    assert_eq!(route_transcript(SessionMode::Command, false, "um"), TranscriptRoute::Noise);
    assert_eq!(route_transcript(SessionMode::Command, false, "hey jarvis"), TranscriptRoute::Wake);
    assert_eq!(route_transcript(SessionMode::Command, false, "show my videos"), TranscriptRoute::Classify);
}

#[test]
fn dispatch_rules() {
    assert!(!should_dispatch(Intent::Unhandled));
    assert!(!should_dispatch(Intent::WakeOnly));
    assert!(should_dispatch(Intent::Search));
    assert_eq!(dispatch_target(false, Intent::Search), None);
    assert_eq!(dispatch_target(true, Intent::AddKid), Some(Handler::StartKidEnrollment));
    assert_eq!(dispatch_target(true, Intent::MyAnswers), Some(Handler::AnswersForSession));
    assert_eq!(dispatch_target(true, Intent::MyVideos), Some(Handler::VideoAssignments));
    assert_eq!(dispatch_target(true, Intent::Unhandled), Some(Handler::Unhandled));
}

fn frame(v: i16) -> Vec<i16> {
    vec![v; FRAME_SIZE]
}

#[test]
fn vad_ignores_leading_silence() {
    let mut c: VadChunker<i16> = VadChunker::new();
    for _ in 0..20 {
        assert!(c.push_frame(&frame(0), false).is_none());
    }
    assert!(c.flush().is_none());
}

#[test]
fn vad_flushes_after_eight_silent_frames() {
    let mut c: VadChunker<i16> = VadChunker::new();
    for _ in 0..20 {
        assert!(c.push_frame(&frame(1), true).is_none());
    }
    for _ in 0..7 {
        assert!(c.push_frame(&frame(0), false).is_none());
    }
    let chunk = c.push_frame(&frame(0), false).expect("eighth silent frame ends the utterance");
    assert_eq!(chunk.len(), 28 * FRAME_SIZE);
    assert!(chunk[..20 * FRAME_SIZE].iter().all(|&x| x == 1));
    assert!(chunk[20 * FRAME_SIZE..].iter().all(|&x| x == 0));
    assert!(c.flush().is_none());
}

#[test]
fn vad_discards_short_utterances() {
    let mut c: VadChunker<i16> = VadChunker::new();
    assert!(c.push_frame(&frame(1), true).is_none());
    let mut out = None;
    for _ in 0..8 {
        out = c.push_frame(&frame(0), false);
    }
    // 9 frames of 512 samples is below the half-second minimum.
    assert!(9 * FRAME_SIZE < MIN_SPEECH_SAMPLES);
    assert!(out.is_none());
}

#[test]
fn vad_forces_flush_at_maximum_length() {
    let mut c: VadChunker<i16> = VadChunker::new();
    let frames_to_max = (MAX_SAMPLES + FRAME_SIZE - 1) / FRAME_SIZE;
    let mut out = None;
    for k in 0..frames_to_max {
        out = c.push_frame(&frame(2), true);
        if k + 1 < frames_to_max {
            assert!(out.is_none());
        }
    }
    let chunk = out.expect("maximum length reached");
    assert_eq!(chunk.len(), frames_to_max * FRAME_SIZE);
    assert!(chunk.len() >= MAX_SAMPLES);
}

#[test]
fn vad_reset_drops_buffer() {
    let mut c: VadChunker<i16> = VadChunker::new();
    for _ in 0..30 {
        c.push_frame(&frame(1), true);
    }
    c.reset();
    assert!(c.flush().is_none());
}

#[test]
fn vad_explicit_flush_returns_long_enough_speech() {
    let mut c: VadChunker<i16> = VadChunker::new();
    for _ in 0..16 {
        c.push_frame(&frame(3), true);
    }
    let chunk = c.flush().expect("16 frames are enough");
    assert_eq!(chunk.len(), 16 * FRAME_SIZE);
    assert!(c.flush().is_none());
}

#[test]
fn onboarding_parent_flow() {
    let mut o: OnboardingState<u32> = new_onboarding();
    assert!(!o.is_active());
    let ev = start(&mut o, OnboardingFlow::Parent);
    assert_eq!(ev.stage, "greet");
    assert_eq!(ev.flow, "parent");
    assert_eq!(ev.total_prompts, PROMPT_COUNT);
    assert_eq!(ev.prompts.len(), 5);
    assert_eq!(ev.prompts[0], "The quick brown fox jumps over the lazy dog.");
    assert_eq!(
        ev.message,
        "Hi there! I'm Jarvis, your learning buddy. Let's get started — what's your name?"
    );
    assert!(o.is_active());
    assert_eq!(o.stage, OnboardingStage::WaitingForName);

    let ev = accept_name(&mut o, "Ada".to_string());
    assert_eq!(ev.stage, "name_confirmed");
    assert_eq!(
        ev.message,
        "Nice to meet you, Ada! Now I need to learn your voice. Read each sentence below out loud clearly."
    );
    assert_eq!(o.name.as_deref(), Some("Ada"));

    let ev = begin_voice_collection(&mut o);
    assert_eq!(ev.stage, "prompt");
    assert_eq!(ev.prompt_index, 0);
    assert_eq!(ev.message, "Read this sentence: \"The quick brown fox jumps over the lazy dog.\"");

    for k in 0..4u32 {
        let (done, ev) = record_embedding(&mut o, k);
        assert!(!done);
        let ev = ev.expect("next prompt");
        assert_eq!(ev.prompt_index, (k + 1) as usize);
    }
    let (done, ev) = record_embedding(&mut o, 4);
    assert!(done);
    assert!(ev.is_none());
    assert_eq!(o.stage, OnboardingStage::Done);
    assert_eq!(o.embeddings, vec![0, 1, 2, 3, 4]);
    assert!(!o.is_active());

    // Outside collection nothing is stored.
    let (done, ev) = record_embedding(&mut o, 9);
    assert!(!done && ev.is_none());
    assert_eq!(o.embeddings.len(), 5);
}

#[test]
fn onboarding_kid_flow_prefixes_stages() {
    let mut o: OnboardingState<u8> = new_onboarding();
    let ev = start(&mut o, OnboardingFlow::Kid);
    assert_eq!(ev.stage, "kid_greet");
    assert_eq!(ev.flow, "kid");
    assert_eq!(ev.message, "Hi! Let's set up a new kid account. What's your name?");
    let ev = accept_name(&mut o, "Max".to_string());
    assert_eq!(ev.stage, "kid_name_confirmed");
    assert!(ev.message.starts_with("Great, Max!"));
    assert_eq!(OnboardingFlow::Kid.role(), "kid");
    assert_eq!(OnboardingFlow::Kid.stage("done"), "kid_done");
    assert_eq!(OnboardingFlow::Parent.stage("done"), "done");
    assert_eq!(OnboardingFlow::Parent.role(), "parent");
}

#[test]
fn onboarding_restart_clears_state() {
    let mut o: OnboardingState<u8> = new_onboarding();
    start(&mut o, OnboardingFlow::Parent);
    accept_name(&mut o, "Ada".to_string());
    begin_voice_collection(&mut o);
    record_embedding(&mut o, 1);
    start(&mut o, OnboardingFlow::Kid);
    assert!(o.name.is_none());
    assert!(o.embeddings.is_empty());
    assert_eq!(o.flow, OnboardingFlow::Kid);
}

#[test]
fn onboarding_final_events() {
    let e = completion_event(OnboardingFlow::Parent, "Ada");
    assert_eq!(e.stage, "done");
    assert_eq!(e.message, "You're all set, Ada! Say 'Hey Jarvis' whenever you need me!");
    assert_eq!(e.total_prompts, 0);
    let e = completion_event(OnboardingFlow::Kid, "Max");
    assert_eq!(e.stage, "kid_done");
    assert_eq!(e.message, "You're all set, Max! Say 'Hey Jarvis' whenever you want to learn something!");
    let e = failure_event(OnboardingFlow::Kid);
    assert_eq!(e.stage, "error");
    assert_eq!(e.message, "Something went wrong. Please restart.");
    assert_eq!(e.flow, "kid");
}

#[test]
fn moonshine_cache_names() {
    let u = uncached_output_names();
    assert_eq!(u.len(), 24);
    assert_eq!(u[0], "functional_22");
    assert_eq!(u[1], "functional_22_1");
    assert_eq!(u[3], "functional_22_3");
    assert_eq!(u[23], "functional_37_3");
    let c = cached_output_names();
    assert_eq!(c.len(), 24);
    assert_eq!(c[0], "functional_23");
    assert_eq!(c[1], "functional_23_1");
    assert_eq!(c[2], "input_layer_102");
    assert_eq!(c[3], "input_layer_103");
    assert_eq!(c[22], "input_layer_122");
    assert_eq!(c[23], "input_layer_123");
}

#[test]
fn moonshine_token_ids_drop_markers() {
    assert_eq!(token_ids(&[SOT, 10, 20, -1, EOT]), vec![10u32, 20u32]);
    assert_eq!(token_ids(&[]), Vec::<u32>::new());
    assert_eq!(token_ids(&[0, 3]), vec![0u32, 3u32]);
}

#[test]
fn moonshine_transcript_text() {
    assert_eq!(transcript_text(Some("  Hello World ")), "hello world");
    assert_eq!(transcript_text(None), "");
}

#[test]
fn enrolled_user_name_and_speaker() {
    let mut o: OnboardingState<u8> = new_onboarding();
    assert_eq!(enrolled_name(&o), "User");
    accept_name(&mut o, "Ada".to_string());
    assert_eq!(enrolled_name(&o), "Ada");
    assert!(identifies_speaker(OnboardingFlow::Parent));
    assert!(!identifies_speaker(OnboardingFlow::Kid));
}

#[test]
fn speech_output_mode() {
    let mut s = new_session();
    s.set_user(1, "Ada".to_string(), "parent".to_string());
    s.enter_tts_mode();
    assert_eq!(s.mode, SessionMode::Tts);
    assert_eq!(route_transcript(s.mode, false, "hey jarvis"), TranscriptRoute::Discard);
    s.leave_tts_mode();
    assert_eq!(s.mode, SessionMode::Command);
    assert_eq!(s.user_id, Some(1));
    assert_eq!(route_transcript(s.mode, false, "hey jarvis"), TranscriptRoute::Wake);
}

#[test]
fn vad_reports_utterance_in_progress() {
    let mut c: VadChunker<i16> = VadChunker::new();
    assert!(!c.has_speech());
    c.push_frame(&frame(0), false);
    assert!(!c.has_speech());
    c.push_frame(&frame(1), true);
    assert!(c.has_speech());
    c.push_frame(&frame(0), false);
    assert!(c.has_speech());
    c.flush();
    assert!(!c.has_speech());
}

#[test]
fn onboarding_default_is_idle() {
    let o: OnboardingState<u8> = OnboardingState::default();
    assert_eq!(o.stage, OnboardingStage::Idle);
    assert_eq!(o.flow, OnboardingFlow::Parent);
    assert!(o.name.is_none() && o.embeddings.is_empty());
    assert!(!o.is_active());
}

#[test]
fn keyword_rules_on_lowered_text() {
    let cs: Vec<char> = "show my videos".chars().collect();
    assert_eq!(keyword_intent_in(&cs), Intent::MyVideos);
    let cs: Vec<char> = "SHOW MY VIDEOS".chars().collect();
    assert_eq!(keyword_intent_in(&cs), Intent::Unhandled);
}
