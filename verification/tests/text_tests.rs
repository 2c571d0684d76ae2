use piggyback::text::names::name_from_transcript;
use piggyback::text::normalize::{is_noise_lowered, normalize_lowered};
use piggyback::text::names::{capitalise_words, clean_transcript, is_valid_name};
use piggyback::text::chars::{chars_of, contains, find, string_of};
use piggyback::text::normalize::{is_noise_transcript, normalize};
use piggyback::text::number::{decimal_chars, signed_decimal_chars, zero_padded_chars};
use piggyback::text::replace::{replace, split_char};
use piggyback::text::words::{collapse_chars, split_words, trim_chars};

fn s(cs: &[char]) -> String {
    cs.iter().collect()
}

#[test]
fn normalize_strips_punctuation_and_case() {
    assert_eq!(normalize("Hello, World!  "), "hello world");
    assert_eq!(normalize("  Spider.  "), "spider");
    assert_eq!(normalize("a--b"), "ab");
}

#[test]
fn normalize_collapses_whitespace() {
    assert_eq!(normalize("  hey \t  Jarvis\n\nplay  "), "hey jarvis play");
    assert_eq!(normalize(""), "");
    assert_eq!(normalize(" ... "), "");
}

#[test]
fn normalize_keeps_unicode_letters_and_digits() {
    assert_eq!(normalize("Ünïcode Test 42!"), "ünïcode test 42");
}

#[test]
fn normalize_is_idempotent_on_examples() {
    for t in ["Hello, World!", "  a  b  c ", "I think it was a Spider.", "x"] {
        let once = normalize(t);
        assert_eq!(normalize(&once), once);
        assert!(!once.contains("  "));
        assert!(!once.starts_with(' ') && !once.ends_with(' '));
    }
}

#[test]
fn noise_single_filler_words() {
    assert!(is_noise_transcript("you"));
    assert!(is_noise_transcript("  Bye "));
    assert!(is_noise_transcript("okay"));
    assert!(is_noise_transcript("hmm"));
    assert!(is_noise_transcript("thanks"));
}

#[test]
fn noise_too_few_letters() {
    assert!(is_noise_transcript(""));
    assert!(is_noise_transcript("12"));
    assert!(is_noise_transcript("a b"));
    assert!(is_noise_transcript("ok!"));
}

#[test]
fn noise_listed_filler_phrase() {
    assert!(is_noise_transcript("thank you"));
    assert!(is_noise_transcript("  Thank You "));
    assert!(!is_noise_transcript("thank you jarvis"));
}

#[test]
fn noise_real_utterances_pass() {
    assert!(!is_noise_transcript("play the video"));
    assert!(!is_noise_transcript("Hey Jarvis"));
    assert!(!is_noise_transcript("cat"));
}

#[test]
fn trim_and_split_words() {
    let cs = chars_of("  two  words ");
    assert_eq!(s(&trim_chars(&cs)), "two  words");
    let ws = split_words(&cs);
    let ws: Vec<String> = ws.iter().map(|w| s(w)).collect();
    assert_eq!(ws, vec!["two".to_string(), "words".to_string()]);
    assert_eq!(s(&collapse_chars(&cs)), "two words");
}

#[test]
fn find_first_occurrence() {
    let hay = chars_of("abcabc");
    assert_eq!(find(&hay, &chars_of("bc")), Some(1));
    assert_eq!(find(&hay, &chars_of("")), Some(0));
    assert_eq!(find(&hay, &chars_of("cb")), None);
    assert!(contains(&hay, &chars_of("cab")));
    assert!(!contains(&hay, &chars_of("abcabcd")));
}

#[test]
fn replace_all_occurrences() {
    let out = replace(&chars_of("cats and dogs and birds"), &chars_of(" and "), &chars_of(","));
    assert_eq!(s(&out), "cats,dogs,birds");
    let out = replace(&chars_of("aaa"), &chars_of("aa"), &chars_of("b"));
    assert_eq!(s(&out), "ba");
}

#[test]
fn split_on_separator() {
    let parts = split_char(&chars_of("a?b&&c"), '&');
    let parts: Vec<String> = parts.iter().map(|p| s(p)).collect();
    assert_eq!(parts, vec!["a?b".to_string(), "".to_string(), "c".to_string()]);
    let parts = split_char(&chars_of(""), '&');
    assert_eq!(parts.len(), 1);
}

#[test]
fn decimal_forms() {
    assert_eq!(s(&decimal_chars(0)), "0");
    assert_eq!(s(&decimal_chars(1234567890)), "1234567890");
    assert_eq!(s(&zero_padded_chars(7, 2)), "07");
    assert_eq!(s(&zero_padded_chars(123, 2)), "123");
    assert_eq!(s(&signed_decimal_chars(-45)), "-45");
    assert_eq!(s(&signed_decimal_chars(i32::MIN)), "-2147483648");
    assert_eq!(s(&signed_decimal_chars(30)), "30");
}

#[test]
fn string_round_trip() {
    let t = "héllo wörld";
    assert_eq!(string_of(&chars_of(t)), t);
}

#[test]
fn spoken_names() {
    let c = clean_transcript("  ada   LOVELACE. ");
    assert_eq!(c, "ada lovelace");
    assert!(is_valid_name(&c));
    assert_eq!(capitalise_words(&c), "Ada Lovelace");
    assert!(!is_valid_name(""));
    assert!(!is_valid_name("my name is ada"));
    assert!(is_valid_name("mary ann smith"));
    assert_eq!(capitalise_words("élodie"), "Élodie");
    assert_eq!(capitalise_words(""), "");
}

#[test]
fn name_from_spoken_transcript() {
    assert_eq!(name_from_transcript(" ada   LOVELACE. "), Some("Ada Lovelace".to_string()));
    assert_eq!(name_from_transcript("..."), None);
    assert_eq!(name_from_transcript("my name is ada"), None);
}

#[test]
fn steps_after_lowercasing() {
    let out = normalize_lowered(&chars_of("hello,  World!"));
    assert_eq!(s(&out), "hello World");
    assert!(is_noise_lowered(&chars_of("thank you")));
    assert!(!is_noise_lowered(&chars_of("Thank you")));
    assert!(is_noise_lowered(&chars_of("ok")));
    assert!(!is_noise_lowered(&chars_of("play it")));
}
