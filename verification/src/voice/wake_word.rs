//! Wake word detection ("Hey Jarvis") over normalised transcripts.
use vstd::prelude::*;

use crate::text::chars::{chars_eq, chars_of, contains, contains_seq, lemma_occurs_within, occurs_at};
use crate::text::normalize::{normalize_chars, normalized};
use crate::text::words::{split_words, trim, trim_chars, view_all, words};

verus! {

/// Whether a wake event was heard.
pub struct WakeWordResult {
    pub wake_detected: bool,
}

/// All phrases that count as a wake event, longest first, so "hey jarvis"
/// is tried before "jarvis" alone.
pub open spec fn wake_phrases() -> Seq<Seq<char>> {
    seq![
        "hello jarvis"@,
        "okay jarvis"@,
        "hey jarvis"@,
        "hi jarvis"@,
        "ok jarvis"@,
        "jarvis"@,
    ]
}

/// Single-token fallbacks for when the greeting word is dropped, including
/// common mishearings of "Jarvis".
pub open spec fn wake_tokens() -> Seq<Seq<char>> {
    seq!["jarvis"@, "jarvas"@, "jarves"@, "jarvi"@, "jarviz"@]
}

/// The normalised, trimmed transcript contains a wake phrase, or one of its
/// words is a wake token.
pub open spec fn wake_heard(transcript: Seq<char>) -> bool {
    let n = normalized(trim(transcript));
    ||| exists|k: int| 0 <= k < wake_phrases().len() && contains_seq(n, #[trigger] wake_phrases()[k])
    ||| exists|k: int| 0 <= k < words(n).len() && wake_tokens().contains(#[trigger] words(n)[k])
}

fn wake_phrase_list() -> (r: [&'static str; 6])
    ensures
        forall|k: int| 0 <= k < 6 ==> #[trigger] r@[k]@ == wake_phrases()[k],
{
    ["hello jarvis", "okay jarvis", "hey jarvis", "hi jarvis", "ok jarvis", "jarvis"]
}

fn is_wake_token(w: &[char]) -> (r: bool)
    ensures
        r == wake_tokens().contains(w@),
{
    let list: [&str; 5] = ["jarvis", "jarvas", "jarves", "jarvi", "jarviz"];
    assert(forall|k: int| 0 <= k < 5 ==> #[trigger] list@[k]@ == wake_tokens()[k]);
    let mut k: usize = 0;
    while k < 5
        invariant
            k <= 5,
            forall|j: int| 0 <= j < 5 ==> #[trigger] list@[j]@ == wake_tokens()[j],
            forall|j: int| 0 <= j < k ==> wake_tokens()[j] != w@,
        decreases 5 - k,
    {
        let t = chars_of(list[k]);
        if chars_eq(t.as_slice(), w) {
            assert(wake_tokens()[k as int] == w@);
            return true;
        }
        k += 1;
    }
    assert(!wake_tokens().contains(w@)) by {
        if wake_tokens().contains(w@) {
            let j = choose|j: int| 0 <= j < wake_tokens().len() && wake_tokens()[j] == w@;
        }
    }
    false
}

/// Detects a wake phrase or wake token in the transcript.
pub fn detect(transcript: &str) -> (r: WakeWordResult)
    ensures
        r.wake_detected == wake_heard(transcript@),
{
    let cs = chars_of(transcript);
    let trimmed = trim_chars(cs.as_slice());
    let n = normalize_chars(trimmed.as_slice());
    let phrases = wake_phrase_list();
    let mut k: usize = 0;
    while k < 6
        invariant
            k <= 6,
            n@ == normalized(trim(transcript@)),
            forall|j: int| 0 <= j < 6 ==> #[trigger] phrases@[j]@ == wake_phrases()[j],
            forall|j: int| 0 <= j < k ==> !contains_seq(n@, #[trigger] wake_phrases()[j]),
        decreases 6 - k,
    {
        let p = chars_of(phrases[k]);
        if contains(n.as_slice(), p.as_slice()) {
            assert(contains_seq(n@, wake_phrases()[k as int]));
            return WakeWordResult { wake_detected: true };
        }
        k += 1;
    }
    let ws = split_words(n.as_slice());
    let mut i: usize = 0;
    while i < ws.len()
        invariant
            i <= ws.len(),
            n@ == normalized(trim(transcript@)),
            view_all(ws@) == words(n@),
            forall|j: int| 0 <= j < 6 ==> !contains_seq(n@, #[trigger] wake_phrases()[j]),
            forall|j: int| 0 <= j < i ==> !wake_tokens().contains(#[trigger] words(n@)[j]),
        decreases ws.len() - i,
    {
        assert(view_all(ws@)[i as int] == ws@[i as int]@);
        if is_wake_token(ws[i].as_slice()) {
            assert(wake_tokens().contains(words(n@)[i as int]));
            return WakeWordResult { wake_detected: true };
        }
        i += 1;
    }
    WakeWordResult { wake_detected: false }
}

/// A wake event is heard when "jarvis" occurs anywhere in the normalised,
/// trimmed transcript, and when any of its words, at any position, is
/// "jarvis" or one of its common mishearings.
pub proof fn lemma_wake_anywhere(transcript: Seq<char>, k: int)
    ensures
        contains_seq(normalized(trim(transcript)), "jarvis"@) ==> wake_heard(transcript),
        0 <= k < words(normalized(trim(transcript))).len() && ({
            let w = words(normalized(trim(transcript)))[k];
            w == "jarvis"@ || w == "jarvas"@ || w == "jarves"@ || w == "jarvi"@ || w == "jarviz"@
        }) ==> wake_heard(transcript),
{
    let n = normalized(trim(transcript));
    assert(wake_phrases()[5] == "jarvis"@);
    assert(wake_tokens()[0] == "jarvis"@);
    assert(wake_tokens()[1] == "jarvas"@);
    assert(wake_tokens()[2] == "jarves"@);
    assert(wake_tokens()[3] == "jarvi"@);
    assert(wake_tokens()[4] == "jarviz"@);
    if 0 <= k < words(n).len() {
        let w = words(n)[k];
        if w == "jarvis"@ || w == "jarvas"@ || w == "jarves"@ || w == "jarvi"@ || w == "jarviz"@ {
            assert(wake_tokens().contains(w));
        }
    }
}

/// Conversely, a wake event is heard only when "jarvis" occurs in the
/// normalised, trimmed transcript or one of its words is "jarvis" or a
/// common mishearing of it.
pub proof fn lemma_wake_needs_jarvis(transcript: Seq<char>)
    ensures
        wake_heard(transcript) ==> contains_seq(normalized(trim(transcript)), "jarvis"@) || exists|
            k: int,
        |
            #![trigger words(normalized(trim(transcript)))[k]]
            0 <= k < words(normalized(trim(transcript))).len() && ({
                let w = words(normalized(trim(transcript)))[k];
                w == "jarvis"@ || w == "jarvas"@ || w == "jarves"@ || w == "jarvi"@ || w
                    == "jarviz"@
            }),
{
    let n = normalized(trim(transcript));
    let q = "jarvis"@;
    reveal_strlit("jarvis");
    reveal_strlit("hello jarvis");
    reveal_strlit("okay jarvis");
    reveal_strlit("hey jarvis");
    reveal_strlit("hi jarvis");
    reveal_strlit("ok jarvis");
    assert(occurs_at("hello jarvis"@, q, 6)) by {
        assert("hello jarvis"@.subrange(6, 12) =~= q);
    }
    assert(occurs_at("okay jarvis"@, q, 5)) by {
        assert("okay jarvis"@.subrange(5, 11) =~= q);
    }
    assert(occurs_at("hey jarvis"@, q, 4)) by {
        assert("hey jarvis"@.subrange(4, 10) =~= q);
    }
    assert(occurs_at("hi jarvis"@, q, 3)) by {
        assert("hi jarvis"@.subrange(3, 9) =~= q);
    }
    assert(occurs_at("ok jarvis"@, q, 3)) by {
        assert("ok jarvis"@.subrange(3, 9) =~= q);
    }
    assert(occurs_at(q, q, 0)) by {
        assert(q.subrange(0, 6) =~= q);
    }
    if exists|k: int| 0 <= k < wake_phrases().len() && contains_seq(n, #[trigger] wake_phrases()[k]) {
        let k = choose|k: int|
            0 <= k < wake_phrases().len() && contains_seq(n, #[trigger] wake_phrases()[k]);
        let p = wake_phrases()[k];
        let i = choose|i: int| occurs_at(n, p, i);
        let j: int = if k == 0 {
            6
        } else if k == 1 {
            5
        } else if k == 2 {
            4
        } else if k == 3 || k == 4 {
            3
        } else {
            0
        };
        lemma_occurs_within(n, p, q, i, j);
    } else if wake_heard(transcript) {
        let k = choose|k: int|
            0 <= k < words(n).len() && wake_tokens().contains(#[trigger] words(n)[k]);
        let w = words(n)[k];
        let m = choose|m: int| 0 <= m < wake_tokens().len() && wake_tokens()[m] == w;
        assert(w == wake_tokens()[m]);
    }
}

} // verus!
