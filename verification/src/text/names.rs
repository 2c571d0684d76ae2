//! Names spoken during enrollment: the cleaned transcript, whether it can
//! be a name, and its capitalised form.
use vstd::prelude::*;

use crate::text::chars::{ascii_only, chars_of, string_of};
use crate::text::normalize::{normalize, normalized};
use crate::text::words::{join, join_words, split_words, view_all, words};

verus! {

/// The uppercase mapping of a string with a non-ASCII character, as
/// `str::to_uppercase` computes it.
pub uninterp spec fn unicode_uppercase(s: Seq<char>) -> Seq<char>;

/// The ASCII uppercase of a character: 'a'..='z' become 'A'..='Z', others stay.
pub open spec fn ascii_upper_char(c: char) -> char {
    if 'a' <= c && c <= 'z' {
        ((c as u32) - 32) as char
    } else {
        c
    }
}

/// The uppercase mapping of a string, as `str::to_uppercase` computes it:
/// on ASCII text, the ASCII uppercase.
pub open spec fn uppercase(s: Seq<char>) -> Seq<char> {
    if ascii_only(s) {
        Seq::new(s.len(), |i: int| ascii_upper_char(s[i]))
    } else {
        unicode_uppercase(s)
    }
}

/// Calls `str::to_uppercase` on the string made of `s`. ASCII text comes
/// back with 'a'..='z' raised and all else unchanged; for text with other
/// characters the result is named by `unicode_uppercase`.
#[verifier::external_body]
pub(crate) fn to_uppercase(s: &[char]) -> (r: Vec<char>)
    ensures
        r@ == uppercase(s@),
        !ascii_only(s@) ==> r@ == unicode_uppercase(s@),
{
    let text: String = s.iter().collect();
    text.to_uppercase().chars().collect()
}

/// Most words a spoken name may have.
pub const MAX_NAME_WORDS: usize = 3;

/// A word with its first character in uppercase.
pub open spec fn capitalised(w: Seq<char>) -> Seq<char> {
    if w.len() == 0 {
        w
    } else {
        uppercase(w.take(1)) + w.skip(1)
    }
}

/// The words of `s`, each capitalised, separated by single spaces.
pub open spec fn capitalised_words(s: Seq<char>) -> Seq<char> {
    join(Seq::new(words(s).len(), |i: int| capitalised(words(s)[i])), seq![' '])
}

/// The transcript of a spoken name, cleaned: lower-cased, punctuation
/// dropped, single spaces.
pub fn clean_transcript(transcript: &str) -> (r: String)
    ensures
        r@ == normalized(transcript@),
{
    normalize(transcript)
}

/// A cleaned transcript is taken as a name when it has one to three words.
pub fn is_valid_name(cleaned: &str) -> (r: bool)
    ensures
        r == (1 <= words(cleaned@).len() <= MAX_NAME_WORDS),
{
    let cs = chars_of(cleaned);
    let ws = split_words(cs.as_slice());
    1 <= ws.len() && ws.len() <= MAX_NAME_WORDS
}

fn capitalise(w: &[char]) -> (r: Vec<char>)
    ensures
        r@ == capitalised(w@),
{
    if w.len() == 0 {
        return Vec::new();
    }
    let first: [char; 1] = [w[0]];
    assert(first@ =~= w@.take(1));
    let mut out = to_uppercase(first.as_slice());
    let ghost head = out@;
    let mut i: usize = 1;
    while i < w.len()
        invariant
            1 <= i <= w@.len(),
            out@ == head + w@.subrange(1, i as int),
        decreases w.len() - i,
    {
        out.push(w[i]);
        assert(w@.subrange(1, i + 1) =~= w@.subrange(1, i as int).push(w@[i as int]));
        i += 1;
    }
    assert(w@.subrange(1, w@.len() as int) =~= w@.skip(1));
    out
}

/// The name with each word capitalised, words separated by single spaces.
pub fn capitalise_words(name: &str) -> (r: String)
    ensures
        r@ == capitalised_words(name@),
{
    let cs = chars_of(name);
    let ws = split_words(cs.as_slice());
    let ghost wv = words(name@);
    let mut caps: Vec<Vec<char>> = Vec::new();
    let mut i: usize = 0;
    while i < ws.len()
        invariant
            i <= ws@.len(),
            view_all(ws@) == wv,
            wv == words(name@),
            view_all(caps@) == Seq::new(i as nat, |k: int| capitalised(wv[k])),
        decreases ws.len() - i,
    {
        let c = capitalise(ws[i].as_slice());
        assert(c@ == capitalised(wv[i as int]));
        let ghost before = caps@;
        assert(view_all(before).len() == before.len());
        assert(before.len() == i);
        caps.push(c);
        assert(view_all(caps@) =~= Seq::new((i + 1) as nat, |k: int| capitalised(wv[k]))) by {
            assert forall|k: int| 0 <= k < i + 1 implies #[trigger] view_all(caps@)[k] == capitalised(
                wv[k],
            ) by {
                if k < i {
                    assert(caps@[k] == before[k]);
                    assert(view_all(before)[k] == capitalised(wv[k]));
                } else {
                    assert(caps@[k] == c);
                }
            }
        }
        i += 1;
    }
    let sep: [char; 1] = [' '];
    assert(sep@ =~= seq![' ']);
    let joined = join_words(&caps, sep.as_slice());
    string_of(joined.as_slice())
}

/// A cleaned transcript can be a name when it has one to three words.
pub open spec fn valid_name(cleaned: Seq<char>) -> bool {
    1 <= words(cleaned).len() <= MAX_NAME_WORDS
}

/// The name spoken in a transcript: cleaned, and capitalised word by word;
/// `None` when the cleaned transcript cannot be a name.
pub fn name_from_transcript(transcript: &str) -> (r: Option<String>)
    ensures
        match r {
            Some(n) => valid_name(normalized(transcript@)) && n@ == capitalised_words(
                normalized(transcript@),
            ),
            None => !valid_name(normalized(transcript@)),
        },
{
    let cleaned = clean_transcript(transcript);
    if !is_valid_name(cleaned.as_str()) {
        return None;
    }
    Some(capitalise_words(cleaned.as_str()))
}

} // verus!
