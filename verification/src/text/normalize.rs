//! Transcript normalisation and the noise filter that gates the voice pipeline.
use vstd::prelude::*;

use crate::text::chars::{
    ascii_lower_char, ascii_lowered, ascii_only, is_ascii, char_is_alphabetic, char_is_alphanumeric, char_is_whitespace, chars_eq, chars_of,
    is_alphabetic, is_alphanumeric, is_whitespace, lowercase, string_of, to_lowercase,
};
use crate::text::words::{
    collapse_chars, collapse_whitespace, join, lemma_join_chars, lemma_join_ends, lemma_words_nonempty,
    lemma_words_well_split, trim, trim_chars, view_all, well_split, words,
};

verus! {

// ---------------------------------------------------------------------------
// Specifications
// ---------------------------------------------------------------------------

/// The characters of `s` that are alphanumeric or whitespace, in order.
pub open spec fn keep_word_chars(s: Seq<char>) -> Seq<char>
    decreases s.len(),
{
    if s.len() == 0 {
        seq![]
    } else {
        let p = keep_word_chars(s.drop_last());
        let c = s.last();
        if char_is_alphanumeric(c) || char_is_whitespace(c) {
            p.push(c)
        } else {
            p
        }
    }
}

/// Lowercase, strip everything but alphanumerics and whitespace, collapse whitespace.
pub open spec fn normalized(s: Seq<char>) -> Seq<char> {
    collapse_whitespace(keep_word_chars(lowercase(s)))
}

/// `t` holds only single spaces between runs of non-whitespace characters.
pub open spec fn single_spaced(t: Seq<char>) -> bool {
    &&& forall|i: int| 0 <= i < t.len() ==> (t[i] == ' ' || !char_is_whitespace(#[trigger] t[i]))
    &&& t.len() > 0 ==> t[0] != ' ' && t.last() != ' '
    &&& forall|i: int| 0 <= i < t.len() - 1 ==> !(#[trigger] t[i] == ' ' && t[i + 1] == ' ')
}

/// The number of alphabetic characters of `s`.
pub open spec fn count_alphabetic(s: Seq<char>) -> nat
    decreases s.len(),
{
    if s.len() == 0 {
        0
    } else {
        count_alphabetic(s.drop_last()) + if char_is_alphabetic(s.last()) {
            1nat
        } else {
            0nat
        }
    }
}

/// Filler words and phrases that carry no command.
pub open spec fn noise_words() -> Seq<Seq<char>> {
    seq![
        seq!['y', 'o', 'u'],
        seq!['t', 'h', 'e'],
        seq!['a'],
        seq!['u', 'h'],
        seq!['u', 'm'],
        seq!['o', 'h'],
        seq!['a', 'h'],
        seq!['h', 'm'],
        seq!['h', 'm', 'm'],
        seq!['t', 'h', 'a', 'n', 'k', ' ', 'y', 'o', 'u'],
        seq!['t', 'h', 'a', 'n', 'k', 's'],
        seq!['b', 'y', 'e'],
        seq!['o', 'k', 'a', 'y'],
        seq!['o', 'k'],
    ]
}

/// A transcript is noise when, trimmed and lowercased, it is one of the
/// listed filler words or phrases, or it holds fewer than three alphabetic
/// characters.
pub open spec fn is_noise(s: Seq<char>) -> bool {
    let t = lowercase(trim(s));
    noise_words().contains(t) || count_alphabetic(t) < 3
}

// ---------------------------------------------------------------------------
// Lemmas
// ---------------------------------------------------------------------------

proof fn lemma_keep_chars(s: Seq<char>)
    ensures
        forall|i: int|
            0 <= i < keep_word_chars(s).len() ==> char_is_alphanumeric(
                #[trigger] keep_word_chars(s)[i],
            ) || char_is_whitespace(keep_word_chars(s)[i]),
    decreases s.len(),
{
    if s.len() > 0 {
        lemma_keep_chars(s.drop_last());
        let p = keep_word_chars(s.drop_last());
        let k = keep_word_chars(s);
        assert forall|i: int| 0 <= i < k.len() implies char_is_alphanumeric(#[trigger] k[i])
            || char_is_whitespace(k[i]) by {
            if i < p.len() {
                assert(k[i] == p[i]);
            }
        }
    }
}

/// A join of well-split words with a single space is single-spaced.
proof fn lemma_join_single_spaced(s: Seq<char>, ws: Seq<Seq<char>>)
    requires
        well_split(s, ws),
    ensures
        single_spaced(join(ws, seq![' '])),
    decreases ws.len(),
{
    let sep = seq![' '];
    let j = join(ws, sep);
    assert(char_is_whitespace(' '));
    if ws.len() == 0 {
    } else if ws.len() == 1 {
        assert(j == ws[0]);
        assert(ws[0].len() > 0);
        assert(!char_is_whitespace(ws[0][0]));
        assert(!char_is_whitespace(ws[0][ws[0].len() - 1]));
    } else {
        let p = ws.drop_last();
        assert forall|k: int| 0 <= k < p.len() implies #[trigger] p[k] == ws[k] by {}
        assert(well_split(s, p)) by {
            assert forall|k: int| 0 <= k < p.len() implies {
                &&& #[trigger] p[k].len() > 0
                &&& forall|m: int|
                    0 <= m < p[k].len() ==> !char_is_whitespace(#[trigger] p[k][m]) && s.contains(
                        p[k][m],
                    )
            } by {
                assert(p[k] == ws[k]);
            }
        }
        lemma_join_single_spaced(s, p);
        let pj = join(p, sep);
        let last = ws.last();
        assert(last == ws[ws.len() - 1]);
        assert(last.len() > 0);
        lemma_join_ends(p, sep);
        assert(p[p.len() - 1] == ws[ws.len() - 2]);
        assert(!char_is_whitespace(pj.last())) by {
            assert(pj.last() == p.last().last());
            assert(p.last() == ws[ws.len() - 2]);
            assert(ws[ws.len() - 2][ws[ws.len() - 2].len() - 1] == pj.last());
        }
        assert(j == pj + sep + last);
        let n = pj.len();
        assert forall|i: int| 0 <= i < j.len() implies (j[i] == ' ' || !char_is_whitespace(
            #[trigger] j[i],
        )) by {
            if i < n {
                assert(j[i] == pj[i]);
            } else if i == n {
            } else {
                assert(j[i] == last[i - n - 1]);
                assert(ws[ws.len() - 1][i - n - 1] == j[i]);
            }
        }
        assert(j[0] == pj[0]);
        assert(j.last() == last.last());
        assert(!char_is_whitespace(last[last.len() - 1])) by {
            assert(ws[ws.len() - 1][last.len() - 1] == last[last.len() - 1]);
        }
        assert forall|i: int| 0 <= i < j.len() - 1 implies !(#[trigger] j[i] == ' ' && j[i + 1]
            == ' ') by {
            if i < n - 1 {
                assert(j[i] == pj[i] && j[i + 1] == pj[i + 1]);
            } else if i == n - 1 {
                assert(j[i] == pj.last());
            } else if i == n {
                assert(j[i + 1] == last[0]);
                assert(ws[ws.len() - 1][0] == last[0]);
            } else {
                assert(j[i] == last[i - n - 1]);
                assert(ws[ws.len() - 1][i - n - 1] == j[i]);
            }
        }
    }
}

/// Collapsing whitespace yields a single-spaced text whose other characters come from the input.
pub proof fn lemma_collapse_shape(s: Seq<char>)
    ensures
        single_spaced(collapse_whitespace(s)),
        forall|i: int|
            0 <= i < collapse_whitespace(s).len() && #[trigger] collapse_whitespace(s)[i] != ' '
                ==> s.contains(collapse_whitespace(s)[i]),
{
    lemma_words_well_split(s);
    lemma_join_single_spaced(s, words(s));
    let c = collapse_whitespace(s);
    assert forall|i: int| 0 <= i < c.len() && #[trigger] c[i] != ' ' implies s.contains(c[i]) by {
        lemma_join_chars(words(s), seq![' '], i);
        if !seq![' '].contains(c[i]) {
            let (k, m) = choose|k: int, m: int|
                0 <= k < words(s).len() && 0 <= m < words(s)[k].len() && #[trigger] words(s)[k][m]
                    == c[i];
        } else {
            let x = choose|x: int| 0 <= x < 1 && seq![' '][x] == c[i];
            assert(c[i] == ' ');
        }
    }
}

/// The characters kept are characters of the input.
proof fn lemma_keep_subset(s: Seq<char>)
    ensures
        forall|i: int| 0 <= i < keep_word_chars(s).len() ==> s.contains(#[trigger] keep_word_chars(s)[i]),
    decreases s.len(),
{
    if s.len() > 0 {
        let p = s.drop_last();
        lemma_keep_subset(p);
        let k = keep_word_chars(s);
        assert forall|i: int| 0 <= i < k.len() implies s.contains(#[trigger] k[i]) by {
            if i < keep_word_chars(p).len() {
                assert(k[i] == keep_word_chars(p)[i]);
                let j = choose|j: int| 0 <= j < p.len() && p[j] == k[i];
                assert(s[j] == p[j]);
            } else {
                assert(k[i] == s[s.len() - 1]);
            }
        }
    }
}

/// Text of alphanumerics and whitespace only is kept whole.
proof fn lemma_keep_identity(s: Seq<char>)
    requires
        forall|i: int| 0 <= i < s.len() ==> char_is_alphanumeric(#[trigger] s[i]) || char_is_whitespace(s[i]),
    ensures
        keep_word_chars(s) == s,
    decreases s.len(),
{
    if s.len() > 0 {
        let p = s.drop_last();
        assert forall|i: int| 0 <= i < p.len() implies char_is_alphanumeric(#[trigger] p[i]) || char_is_whitespace(p[i]) by {
            assert(p[i] == s[i]);
        }
        lemma_keep_identity(p);
        assert(s.last() == s[s.len() - 1]);
        assert(p.push(s.last()) =~= s);
    }
}

/// Spaces are the only whitespace, none leads, and none follows another.
spec fn space_separated(t: Seq<char>) -> bool {
    &&& forall|i: int| 0 <= i < t.len() ==> (t[i] == ' ' || !char_is_whitespace(#[trigger] t[i]))
    &&& t.len() > 0 ==> t[0] != ' '
    &&& forall|i: int| 0 <= i < t.len() - 1 ==> !(#[trigger] t[i] == ' ' && t[i + 1] == ' ')
}

proof fn lemma_join_grow_last(ws: Seq<Seq<char>>, c: char, sep: Seq<char>)
    requires
        ws.len() > 0,
    ensures
        join(ws.update(ws.len() - 1, ws.last().push(c)), sep) == join(ws, sep).push(c),
{
    let u = ws.update(ws.len() - 1, ws.last().push(c));
    if ws.len() == 1 {
        assert(u[0] == ws[0].push(c));
    } else {
        assert(u.drop_last() =~= ws.drop_last());
        assert(u.last() == ws.last().push(c));
        assert(join(u, sep) =~= join(ws, sep).push(c));
    }
}

proof fn lemma_join_new_word(ws: Seq<Seq<char>>, w: Seq<char>, sep: Seq<char>)
    ensures
        join(ws.push(w), sep) == (if ws.len() == 0 {
            w
        } else {
            join(ws, sep) + sep + w
        }),
{
    assert(ws.push(w).drop_last() =~= ws);
    if ws.len() == 0 {
        assert(ws.push(w)[0] == w);
    }
}

/// Collapsing text whose words are already separated by single spaces gives
/// the text back, less a trailing space.
proof fn lemma_collapse_prefix(t: Seq<char>)
    requires
        space_separated(t),
    ensures
        join(words(t), seq![' ']) == (if t.len() > 0 && t.last() == ' ' {
            t.drop_last()
        } else {
            t
        }),
    decreases t.len(),
{
    if t.len() > 0 {
        let sep = seq![' '];
        let p = t.drop_last();
        let c = t.last();
        assert(c == t[t.len() - 1]);
        assert(space_separated(p)) by {
            assert forall|i: int| 0 <= i < p.len() implies (p[i] == ' ' || !char_is_whitespace(#[trigger] p[i])) by {
                assert(p[i] == t[i]);
            }
            if p.len() > 0 {
                assert(p[0] == t[0]);
            }
            assert forall|i: int| 0 <= i < p.len() - 1 implies !(#[trigger] p[i] == ' ' && p[i + 1] == ' ') by {
                assert(p[i] == t[i] && p[i + 1] == t[i + 1]);
            }
        }
        lemma_collapse_prefix(p);
        if char_is_whitespace(c) {
            assert(c == ' ');
            assert(t.len() >= 2);
            assert(p.last() == t[t.len() - 2]);
            assert(p.last() != ' ');
        } else if t.len() >= 2 && !char_is_whitespace(t[t.len() - 2]) {
            assert(p.last() == t[t.len() - 2]);
            lemma_words_nonempty(p);
            lemma_join_grow_last(words(p), c, sep);
            assert(p.push(c) =~= t);
        } else {
            lemma_join_new_word(words(p), seq![c], sep);
            if p.len() == 0 {
                assert(seq![c] =~= t);
            } else {
                assert(p.last() == t[t.len() - 2]);
                assert(p.last() == ' ');
                assert(p.len() >= 2);
                let q = p.drop_last();
                assert(q.last() == t[t.len() - 3]);
                assert(q.last() != ' ');
                lemma_words_nonempty(q);
                assert(words(p) == words(q));
                assert(p.drop_last() + sep + seq![c] =~= t);
            }
        }
    }
}

/// On ASCII text normalising twice is normalising once: the normalised text
/// is already lowercase, holds only alphanumerics and single spaces, and so
/// comes back unchanged.
pub proof fn lemma_normalize_idempotent_ascii(s: Seq<char>)
    requires
        ascii_only(s),
    ensures
        normalized(normalized(s)) == normalized(s),
{
    let l = lowercase(s);
    assert(l == ascii_lowered(s));
    let k = keep_word_chars(l);
    let n = collapse_whitespace(k);
    lemma_collapse_shape(k);
    lemma_keep_chars(l);
    lemma_keep_subset(l);
    assert forall|i: int| 0 <= i < n.len() implies #[trigger] n[i] == ' ' || (
    is_ascii(n[i]) && !('A' <= n[i] && n[i] <= 'Z') && char_is_alphanumeric(n[i])) by {
        if n[i] != ' ' {
            assert(k.contains(n[i]));
            let a = choose|a: int| 0 <= a < k.len() && k[a] == n[i];
            assert(l.contains(k[a]));
            let b = choose|b: int| 0 <= b < l.len() && l[b] == k[a];
            assert(is_ascii(s[b]));
            assert(l[b] == ascii_lower_char(s[b]));
            assert(char_is_alphanumeric(k[a]) || char_is_whitespace(k[a]));
            assert(!char_is_whitespace(n[i]));
        }
    }
    assert(ascii_only(n));
    assert(lowercase(n) =~= n);
    assert forall|i: int| 0 <= i < n.len() implies char_is_alphanumeric(#[trigger] n[i]) || char_is_whitespace(n[i]) by {
        if n[i] == ' ' {
            assert(char_is_whitespace(' '));
        }
    }
    lemma_keep_identity(n);
    assert(space_separated(n));
    lemma_collapse_prefix(n);
}

// ---------------------------------------------------------------------------
// Executable functions
// ---------------------------------------------------------------------------

fn keep_word_chars_exec(cs: &[char]) -> (out: Vec<char>)
    ensures
        out@ == keep_word_chars(cs@),
{
    let mut out: Vec<char> = Vec::new();
    let mut i: usize = 0;
    while i < cs.len()
        invariant
            i <= cs.len(),
            out@ == keep_word_chars(cs@.take(i as int)),
        decreases cs.len() - i,
    {
        assert(cs@.take(i + 1).drop_last() =~= cs@.take(i as int));
        let c = cs[i];
        if is_alphanumeric(c) || is_whitespace(c) {
            out.push(c);
        }
        i += 1;
    }
    assert(cs@.take(cs.len() as int) =~= cs@);
    out
}

/// The normalised characters of `s` (see `normalize`).
pub fn normalize_chars(cs: &[char]) -> (out: Vec<char>)
    ensures
        out@ == normalized(cs@),
        single_spaced(out@),
        forall|i: int|
            0 <= i < out@.len() && #[trigger] out@[i] != ' ' ==> char_is_alphanumeric(out@[i]),
{
    let lower = to_lowercase(cs);
    normalize_lowered(lower.as_slice())
}

/// The normalised form of already lowercased characters: everything but
/// alphanumerics and whitespace dropped, whitespace collapsed to single spaces.
pub fn normalize_lowered(lower: &[char]) -> (out: Vec<char>)
    ensures
        out@ == collapse_whitespace(keep_word_chars(lower@)),
        single_spaced(out@),
        forall|i: int|
            0 <= i < out@.len() && #[trigger] out@[i] != ' ' ==> char_is_alphanumeric(out@[i]),
{
    let kept = keep_word_chars_exec(lower);
    let out = collapse_chars(kept.as_slice());
    proof {
        lemma_collapse_shape(kept@);
        lemma_keep_chars(lower@);
        assert forall|i: int| 0 <= i < out@.len() && #[trigger] out@[i] != ' ' implies char_is_alphanumeric(
            out@[i],
        ) by {
            assert(kept@.contains(out@[i]));
            let k = choose|k: int| 0 <= k < kept@.len() && kept@[k] == out@[i];
            assert(char_is_alphanumeric(kept@[k]) || char_is_whitespace(kept@[k]));
        }
    }
    out
}

/// Strip non-alphanumeric characters, collapse whitespace, lowercase.
/// Used by the wake word detector, answer similarity scorer, and tag inference.
///
/// The result holds alphanumeric characters and single spaces between them,
/// with no space at either end.
pub fn normalize(s: &str) -> (out: String)
    ensures
        out@ == normalized(s@),
        single_spaced(out@),
        forall|i: int|
            0 <= i < out@.len() && #[trigger] out@[i] != ' ' ==> char_is_alphanumeric(out@[i]),
{
    let cs = chars_of(s);
    let n = normalize_chars(cs.as_slice());
    string_of(n.as_slice())
}

fn count_alphabetic_exec(cs: &[char]) -> (n: usize)
    ensures
        n == count_alphabetic(cs@),
{
    let mut n: usize = 0;
    let mut i: usize = 0;
    while i < cs.len()
        invariant
            i <= cs.len(),
            n == count_alphabetic(cs@.take(i as int)),
            n <= i,
        decreases cs.len() - i,
    {
        assert(cs@.take(i + 1).drop_last() =~= cs@.take(i as int));
        if is_alphabetic(cs[i]) {
            n += 1;
        }
        i += 1;
    }
    assert(cs@.take(cs.len() as int) =~= cs@);
    n
}

fn is_noise_word(t: &[char]) -> (r: bool)
    ensures
        r == noise_words().contains(t@),
{
    let list: [&str; 14] = [
        "you",
        "the",
        "a",
        "uh",
        "um",
        "oh",
        "ah",
        "hm",
        "hmm",
        "thank you",
        "thanks",
        "bye",
        "okay",
        "ok",
    ];
    proof {
        reveal_strlit("you");
        reveal_strlit("the");
        reveal_strlit("a");
        reveal_strlit("uh");
        reveal_strlit("um");
        reveal_strlit("oh");
        reveal_strlit("ah");
        reveal_strlit("hm");
        reveal_strlit("hmm");
        reveal_strlit("thank you");
        reveal_strlit("thanks");
        reveal_strlit("bye");
        reveal_strlit("okay");
        reveal_strlit("ok");
    }
    let ghost lits = noise_words();
    assert(list@.len() == 14);
    assert(forall|k: int| 0 <= k < 14 ==> #[trigger] list@[k]@ == lits[k]) by {
        assert(list@[0]@ =~= lits[0]);
        assert(list@[1]@ =~= lits[1]);
        assert(list@[2]@ =~= lits[2]);
        assert(list@[3]@ =~= lits[3]);
        assert(list@[4]@ =~= lits[4]);
        assert(list@[5]@ =~= lits[5]);
        assert(list@[6]@ =~= lits[6]);
        assert(list@[7]@ =~= lits[7]);
        assert(list@[8]@ =~= lits[8]);
        assert(list@[9]@ =~= lits[9]);
        assert(list@[10]@ =~= lits[10]);
        assert(list@[11]@ =~= lits[11]);
        assert(list@[12]@ =~= lits[12]);
        assert(list@[13]@ =~= lits[13]);
    }
    let mut k: usize = 0;
    while k < 14
        invariant
            k <= 14,
            list@.len() == 14,
            lits == noise_words(),
            forall|j: int| 0 <= j < 14 ==> #[trigger] list@[j]@ == lits[j],
            forall|j: int| 0 <= j < k ==> lits[j] != t@,
        decreases 14 - k,
    {
        let w = chars_of(list[k]);
        if chars_eq(w.as_slice(), t) {
            assert(lits[k as int] == t@);
            return true;
        }
        k += 1;
    }
    assert(!lits.contains(t@)) by {
        if lits.contains(t@) {
            let j = choose|j: int| 0 <= j < lits.len() && lits[j] == t@;
        }
    }
    false
}

/// Returns true if the transcript is likely noise, a filler word, or too short
/// to contain a real utterance. Used to gate the voice pipeline before classification.
pub fn is_noise_transcript(transcript: &str) -> (r: bool)
    ensures
        r == is_noise(transcript@),
{
    let cs = chars_of(transcript);
    let trimmed = trim_chars(cs.as_slice());
    let t = to_lowercase(trimmed.as_slice());
    is_noise_lowered(t.as_slice())
}

/// Whether trimmed, lowercased text is noise: a listed filler, or fewer
/// than three alphabetic characters.
pub fn is_noise_lowered(t: &[char]) -> (r: bool)
    ensures
        r == (noise_words().contains(t@) || count_alphabetic(t@) < 3),
{
    if is_noise_word(t) {
        return true;
    }
    count_alphabetic_exec(t) < 3
}

} // verus!
