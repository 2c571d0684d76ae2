use piggyback::utils::crypto::seal;
use piggyback::utils::crypto::{
    decrypt, encrypt, get_voice_key, init_voice_key, key_from_hex, key_to_hex, load_or_generate_key,
};
use piggyback::utils::download::{downloaded_video, transcript_file_name, video_file_name, watch_url};
use piggyback::utils::gaze::{GazeEvent, GazeTracker};
use piggyback::utils::openai::{build_prompt, jpeg_data_url, sample_frame_paths};
use piggyback::utils::yt_server::{
    embed_html, embed_response, get_port, port_to_start, video_id_from_url, DEFAULT_PORT,
};

fn paths(n: usize) -> Vec<String> {
    (0..n).map(|i| format!("frame_{i:04}.jpg")).collect()
}

#[test]
fn encrypt_then_decrypt_gives_plaintext() {
    let key = [7u8; 32];
    let data = b"voice embedding bytes".to_vec();
    let sealed = encrypt(&key, &data).unwrap();
    assert_eq!(sealed.len(), 12 + data.len() + 16);
    assert_eq!(decrypt(&key, &sealed).unwrap(), data);
    let empty = encrypt(&key, &[]).unwrap();
    assert_eq!(decrypt(&key, &empty).unwrap(), Vec::<u8>::new());
}

#[test]
fn encryption_uses_fresh_nonces() {
    let key = [1u8; 32];
    let a = encrypt(&key, b"same").unwrap();
    let b = encrypt(&key, b"same").unwrap();
    assert_ne!(a[..12], b[..12]);
}

#[test]
fn decrypt_rejects_short_data() {
    assert_eq!(
        decrypt(&[0u8; 32], &[1, 2, 3]),
        Err("[crypto] data too short to contain nonce".to_string())
    );
}

#[test]
fn decrypt_rejects_tampering_and_wrong_key() {
    let key = [3u8; 32];
    let mut sealed = encrypt(&key, b"secret").unwrap();
    assert_eq!(
        decrypt(&[4u8; 32], &sealed),
        Err("[crypto] decrypt failed: aead::Error".to_string())
    );
    let last = sealed.len() - 1;
    sealed[last] ^= 1;
    assert_eq!(decrypt(&key, &sealed), Err("[crypto] decrypt failed: aead::Error".to_string()));
    assert!(decrypt(&key, &[0u8; 12]).is_err());
}

#[test]
fn key_hex_round_trip() {
    let mut key = [0u8; 32];
    for (i, b) in key.iter_mut().enumerate() {
        *b = (i * 8 + 1) as u8;
    }
    let hex = key_to_hex(&key);
    assert_eq!(hex.len(), 64);
    assert!(hex.starts_with("0109111921"));
    assert_eq!(key_from_hex(&hex), Ok(key));
    assert_eq!(key_from_hex(&hex.to_uppercase()), Ok(key));
}

#[test]
fn key_hex_errors() {
    assert_eq!(key_from_hex("abcd"), Err("[crypto] key wrong length: 2 bytes".to_string()));
    assert_eq!(key_from_hex(""), Err("[crypto] key wrong length: 0 bytes".to_string()));
    let e = key_from_hex("zz").unwrap_err();
    assert!(e.starts_with("[crypto] key decode failed: "));
    let e = key_from_hex("abc").unwrap_err();
    assert!(e.starts_with("[crypto] key decode failed: "));
}

#[test]
fn stored_key_or_new_key() {
    let key = [9u8; 32];
    let hex = key_to_hex(&key);
    assert_eq!(load_or_generate_key(Some(&hex)), Ok((key, false)));
    assert!(load_or_generate_key(Some("00")).is_err());
    let (k1, fresh1) = load_or_generate_key(None).unwrap();
    let (k2, fresh2) = load_or_generate_key(None).unwrap();
    assert!(fresh1 && fresh2);
    assert_ne!(k1, k2);
}

#[test]
fn voice_key_initialised_once() {
    let mut slot: Option<[u8; 32]> = None;
    assert_eq!(init_voice_key(&mut slot, [1u8; 32]), Ok(()));
    assert_eq!(get_voice_key(&slot), [1u8; 32]);
    assert_eq!(init_voice_key(&mut slot, [2u8; 32]), Ok(()));
    assert_eq!(get_voice_key(&slot), [1u8; 32]);
}

#[test]
fn gaze_away_after_eight_missed_frames() {
    let mut g = GazeTracker::new();
    for _ in 0..7 {
        assert_eq!(g.observe(false), None);
    }
    assert_eq!(g.observe(false), Some(GazeEvent::Away));
    assert!(g.is_away);
    assert_eq!(g.observe(false), None);
}

#[test]
fn gaze_returns_after_five_present_frames() {
    let mut g = GazeTracker::new();
    for _ in 0..8 {
        g.observe(false);
    }
    for _ in 0..4 {
        assert_eq!(g.observe(true), None);
    }
    assert_eq!(g.observe(true), Some(GazeEvent::Present));
    assert!(!g.is_away);
}

#[test]
fn gaze_single_face_resets_miss_count() {
    let mut g = GazeTracker::new();
    for _ in 0..7 {
        g.observe(false);
    }
    assert_eq!(g.observe(true), None);
    for _ in 0..7 {
        assert_eq!(g.observe(false), None);
    }
    assert_eq!(g.observe(false), Some(GazeEvent::Away));
}

#[test]
fn gaze_pause_announces_return() {
    let mut g = GazeTracker::new();
    assert_eq!(g.pause_tick(), None);
    for _ in 0..8 {
        g.observe(false);
    }
    assert_eq!(g.pause_tick(), Some(GazeEvent::Present));
    assert_eq!(g, GazeTracker::new());
}

#[test]
fn sampling_frames() {
    assert_eq!(sample_frame_paths(&paths(3), 5), paths(3));
    assert_eq!(sample_frame_paths(&[], 0), Vec::<String>::new());
    let s = sample_frame_paths(&paths(10), 3);
    assert_eq!(s, vec!["frame_0000.jpg", "frame_0003.jpg", "frame_0006.jpg"]);
    let s = sample_frame_paths(&paths(7), 4);
    assert_eq!(s, vec!["frame_0000.jpg", "frame_0001.jpg", "frame_0002.jpg", "frame_0003.jpg"]);
}

#[test]
fn prompt_without_earlier_questions() {
    let p = build_prompt(30, 90, &[]);
    assert!(p.starts_with("You are an early childhood educator designing visual comprehension questions for children ages 6–8.\n\nYou will be shown frames from a children's video between 30s and 90s.\n"));
    assert!(!p.contains("PREVIOUSLY ASKED"));
    assert!(p.contains("Do not assume any dialogue or narration.\n\nGenerate ONE question"));
    assert!(p.contains("    \"character\":  { \"q\": \"...\", \"a\": \"ONE_WORD\", \"rank\": 1,"));
    assert!(p.ends_with("  \"best_question\": \"the single most engaging question from above\"\n}"));
}

#[test]
fn prompt_lists_earlier_questions() {
    let existing = vec!["Who is it?".to_string(), "Where?".to_string()];
    let p = build_prompt(-5, 12, &existing);
    assert!(p.contains("between -5s and 12s."));
    assert!(p.contains(
        "narration.\n\nPREVIOUSLY ASKED QUESTIONS (do not repeat or closely resemble these):\n- \"Who is it?\"\n- \"Where?\"\n\nGenerate ONE question"
    ));
}

#[test]
fn data_url_is_standard_base64() {
    assert_eq!(jpeg_data_url(b""), "data:image/jpeg;base64,");
    assert_eq!(jpeg_data_url(b"M"), "data:image/jpeg;base64,TQ==");
    assert_eq!(jpeg_data_url(b"Ma"), "data:image/jpeg;base64,TWE=");
    assert_eq!(jpeg_data_url(b"Man"), "data:image/jpeg;base64,TWFu");
    assert_eq!(jpeg_data_url(&[0xff, 0xfe, 0xfd, 0x00]), "data:image/jpeg;base64,//79AA==");
}

#[test]
fn video_id_from_request_url() {
    assert_eq!(video_id_from_url("/embed?v=abc123"), "abc123");
    assert_eq!(video_id_from_url("/embed?x=1&v=xyz&v=other"), "xyz");
    assert_eq!(video_id_from_url("/embed?v=v=dup"), "dup");
    assert_eq!(video_id_from_url("/embed"), "");
    assert_eq!(video_id_from_url("/embed?list=1"), "");
}

#[test]
fn embed_page_and_response() {
    let html = embed_html("abc", 9876);
    assert!(html.starts_with("<!DOCTYPE html>\n<html>\n<head>\n<meta charset=\"utf-8\">"));
    assert!(html.contains("src=\"https://www.youtube-nocookie.com/embed/abc?autoplay=1&enablejsapi=1"));
    assert!(html.contains("origin=http://127.0.0.1:9876&vq=medium\""));
    assert!(html.contains("  iframe { width: 100%; height: 100%; border: none; display: block; }"));
    assert!(html.ends_with("</iframe>\n</body>\n</html>"));
    assert_eq!(embed_response("/embed", 9876), (400, "missing video id".to_string()));
    let (status, body) = embed_response("/embed?v=abc", 9876);
    assert_eq!(status, 200);
    assert_eq!(body, html);
}

#[test]
fn server_port() {
    assert_eq!(get_port(None), 9876);
    assert_eq!(get_port(Some(1234)), 1234);
    assert_eq!(port_to_start(None), Some(DEFAULT_PORT));
    assert_eq!(port_to_start(Some(9876)), None);
}

#[test]
fn downloaded_video_record() {
    let v = downloaded_video(
        Some("id1".to_string()),
        None,
        Some("http://t".to_string()),
        Some(125),
        "/d/id1.mp4".to_string(),
        String::new(),
    );
    assert_eq!(v.id, "id1");
    assert_eq!(v.title, "");
    assert_eq!(v.thumbnail, "http://t");
    assert_eq!(v.duration, 125);
    assert_eq!(v.video_path, "/d/id1.mp4");
    assert_eq!(v.transcript_path, "");
    let v = downloaded_video(None, None, None, None, String::new(), String::new());
    assert_eq!(v.duration, 0);
    let v = downloaded_video(None, None, None, Some(4_294_967_296 + 7), String::new(), String::new());
    assert_eq!(v.duration, 7);
}

#[test]
fn download_locations() {
    assert_eq!(watch_url("abc"), "https://www.youtube.com/watch?v=abc");
    assert_eq!(video_file_name("abc"), "abc.mp4");
    assert_eq!(transcript_file_name("abc"), "abc.en.vtt");
}

#[test]
fn seal_with_given_nonce() {
    let key = [0u8; 32];
    let nonce = [0u8; 12];
    let out = seal(&key, &nonce, &[]).unwrap();
    assert_eq!(out.len(), 28);
    assert_eq!(&out[..12], &nonce);
    let tag: Vec<u8> = vec![
        0x53, 0x0f, 0x8a, 0xfb, 0xc7, 0x45, 0x36, 0xb9, 0xa9, 0x63, 0xb4, 0xf1, 0xc4, 0xcb, 0x73, 0x8b,
    ];
    assert_eq!(&out[12..], &tag[..]);
    let again = seal(&key, &nonce, b"data").unwrap();
    assert_eq!(again, seal(&key, &nonce, b"data").unwrap());
    assert_eq!(decrypt(&key, &again).unwrap(), b"data".to_vec());
}
