//! Whitespace handling: trimming, splitting into words (the meaning of
//! `str::split_whitespace`) and joining words with a separator.
use vstd::prelude::*;

use crate::text::chars::{char_is_whitespace, is_whitespace};

verus! {

// ---------------------------------------------------------------------------
// Specifications
// ---------------------------------------------------------------------------

/// `s` without its leading whitespace.
pub open spec fn trim_start(s: Seq<char>) -> Seq<char>
    decreases s.len(),
{
    if s.len() > 0 && char_is_whitespace(s[0]) {
        trim_start(s.drop_first())
    } else {
        s
    }
}

/// `s` without its trailing whitespace.
pub open spec fn trim_end(s: Seq<char>) -> Seq<char>
    decreases s.len(),
{
    if s.len() > 0 && char_is_whitespace(s.last()) {
        trim_end(s.drop_last())
    } else {
        s
    }
}

/// `s` without leading and trailing whitespace (the meaning of `str::trim`).
pub open spec fn trim(s: Seq<char>) -> Seq<char> {
    trim_end(trim_start(s))
}

/// The maximal runs of non-whitespace characters of `s`, in order
/// (the meaning of `str::split_whitespace`).
pub open spec fn words(s: Seq<char>) -> Seq<Seq<char>>
    decreases s.len(),
{
    if s.len() == 0 {
        seq![]
    } else {
        let prev = words(s.drop_last());
        let c = s.last();
        if char_is_whitespace(c) {
            prev
        } else if s.len() >= 2 && !char_is_whitespace(s[s.len() - 2]) {
            prev.update(prev.len() - 1, prev.last().push(c))
        } else {
            prev.push(seq![c])
        }
    }
}

/// The words of `ws` with `sep` between consecutive ones.
pub open spec fn join(ws: Seq<Seq<char>>, sep: Seq<char>) -> Seq<char>
    decreases ws.len(),
{
    if ws.len() == 0 {
        seq![]
    } else if ws.len() == 1 {
        ws[0]
    } else {
        join(ws.drop_last(), sep) + sep + ws.last()
    }
}

/// The words of `s` separated by single spaces: whitespace collapsed and trimmed.
pub open spec fn collapse_whitespace(s: Seq<char>) -> Seq<char> {
    join(words(s), seq![' '])
}

/// The character sequences held by a vector of character vectors.
pub open spec fn view_all(v: Seq<Vec<char>>) -> Seq<Seq<char>> {
    Seq::new(v.len(), |k: int| v[k]@)
}

/// Every word is non-empty, free of whitespace, and made of characters of `s`.
pub open spec fn well_split(s: Seq<char>, ws: Seq<Seq<char>>) -> bool {
    forall|k: int|
        #![trigger ws[k]]
        0 <= k < ws.len() ==> {
            &&& ws[k].len() > 0
            &&& forall|m: int|
                0 <= m < ws[k].len() ==> !char_is_whitespace(#[trigger] ws[k][m]) && s.contains(
                    ws[k][m],
                )
        }
}

// ---------------------------------------------------------------------------
// Lemmas
// ---------------------------------------------------------------------------

pub proof fn lemma_words_nonempty(s: Seq<char>)
    requires
        s.len() > 0,
        !char_is_whitespace(s.last()),
    ensures
        words(s).len() > 0,
    decreases s.len(),
{
    if s.len() >= 2 && !char_is_whitespace(s[s.len() - 2]) {
        assert(s.drop_last().last() == s[s.len() - 2]);
        lemma_words_nonempty(s.drop_last());
    }
}

/// Words are non-empty, contain no whitespace, and consist of characters of the input.
pub proof fn lemma_words_well_split(s: Seq<char>)
    ensures
        well_split(s, words(s)),
    decreases s.len(),
{
    if s.len() > 0 {
        let p = s.drop_last();
        lemma_words_well_split(p);
        let prev = words(p);
        let c = s.last();
        assert forall|x: char| p.contains(x) implies s.contains(x) by {
            let i = choose|i: int| 0 <= i < p.len() && p[i] == x;
            assert(s[i] == x);
        }
        assert(s[s.len() - 1] == c);
        assert(s.contains(c));
        if char_is_whitespace(c) {
        } else if s.len() >= 2 && !char_is_whitespace(s[s.len() - 2]) {
            assert(p.last() == s[s.len() - 2]);
            lemma_words_nonempty(p);
            let w = words(s);
            assert forall|k: int| 0 <= k < w.len() implies {
                &&& #[trigger] w[k].len() > 0
                &&& forall|m: int|
                    0 <= m < w[k].len() ==> !char_is_whitespace(#[trigger] w[k][m]) && s.contains(
                        w[k][m],
                    )
            } by {
                if k == w.len() - 1 {
                    assert(w[k] == prev.last().push(c));
                    assert forall|m: int| 0 <= m < w[k].len() implies !char_is_whitespace(
                        #[trigger] w[k][m],
                    ) && s.contains(w[k][m]) by {
                        if m < w[k].len() - 1 {
                            assert(w[k][m] == prev[prev.len() - 1][m]);
                        }
                    }
                } else {
                    assert(w[k] == prev[k]);
                }
            }
        } else {
            let w = words(s);
            assert forall|k: int| 0 <= k < w.len() implies {
                &&& #[trigger] w[k].len() > 0
                &&& forall|m: int|
                    0 <= m < w[k].len() ==> !char_is_whitespace(#[trigger] w[k][m]) && s.contains(
                        w[k][m],
                    )
            } by {
                if k == w.len() - 1 {
                    assert(w[k] == seq![c]);
                } else {
                    assert(w[k] == prev[k]);
                }
            }
        }
    }
}

/// Every character of a join is a character of some word or of the separator.
pub proof fn lemma_join_chars(ws: Seq<Seq<char>>, sep: Seq<char>, i: int)
    requires
        0 <= i < join(ws, sep).len(),
    ensures
        sep.contains(join(ws, sep)[i]) || exists|k: int, m: int|
            0 <= k < ws.len() && 0 <= m < ws[k].len() && #[trigger] ws[k][m] == join(ws, sep)[i],
    decreases ws.len(),
{
    let j = join(ws, sep);
    if ws.len() == 1 {
        assert(ws[0][i] == j[i]);
    } else if ws.len() > 1 {
        let pj = join(ws.drop_last(), sep);
        if i < pj.len() {
            lemma_join_chars(ws.drop_last(), sep, i);
            assert(j[i] == pj[i]);
            if !sep.contains(j[i]) {
                let (k, m) = choose|k: int, m: int|
                    0 <= k < ws.drop_last().len() && 0 <= m < ws.drop_last()[k].len()
                        && #[trigger] ws.drop_last()[k][m] == pj[i];
                assert(ws[k][m] == j[i]);
            }
        } else if i < pj.len() + sep.len() {
            assert(j[i] == sep[i - pj.len()]);
        } else {
            let m = i - pj.len() - sep.len();
            assert(j[i] == ws.last()[m]);
            assert(ws[ws.len() - 1][m] == j[i]);
        }
    }
}

/// A join of non-empty words does not start with the separator's position:
/// its first character is the first character of the first word, and its
/// last character is the last character of the last word.
pub proof fn lemma_join_ends(ws: Seq<Seq<char>>, sep: Seq<char>)
    requires
        ws.len() > 0,
        forall|k: int| 0 <= k < ws.len() ==> #[trigger] ws[k].len() > 0,
    ensures
        join(ws, sep).len() > 0,
        join(ws, sep)[0] == ws[0][0],
        join(ws, sep).last() == ws.last().last(),
    decreases ws.len(),
{
    if ws.len() > 1 {
        lemma_join_ends(ws.drop_last(), sep);
        assert(ws.drop_last()[0] == ws[0]);
    }
}

proof fn lemma_trim_start_sub(s: Seq<char>)
    ensures
        forall|i: int| 0 <= i < trim_start(s).len() ==> s.contains(#[trigger] trim_start(s)[i]),
    decreases s.len(),
{
    if s.len() > 0 && char_is_whitespace(s[0]) {
        let d = s.drop_first();
        lemma_trim_start_sub(d);
        assert forall|i: int| 0 <= i < trim_start(s).len() implies s.contains(
            #[trigger] trim_start(s)[i],
        ) by {
            assert(trim_start(s) == trim_start(d));
            let x = trim_start(s)[i];
            assert(x == trim_start(d)[i]);
            assert(d.contains(x));
            let j = choose|j: int| 0 <= j < d.len() && d[j] == x;
            assert(s[j + 1] == x);
        }
    } else {
        assert forall|i: int| 0 <= i < trim_start(s).len() implies s.contains(
            #[trigger] trim_start(s)[i],
        ) by {
            assert(s[i] == trim_start(s)[i]);
        }
    }
}

proof fn lemma_trim_end_sub(s: Seq<char>)
    ensures
        forall|i: int| 0 <= i < trim_end(s).len() ==> s.contains(#[trigger] trim_end(s)[i]),
    decreases s.len(),
{
    if s.len() > 0 && char_is_whitespace(s.last()) {
        let d = s.drop_last();
        lemma_trim_end_sub(d);
        assert forall|i: int| 0 <= i < trim_end(s).len() implies s.contains(
            #[trigger] trim_end(s)[i],
        ) by {
            assert(trim_end(s) == trim_end(d));
            let x = trim_end(s)[i];
            assert(x == trim_end(d)[i]);
            assert(d.contains(x));
            let j = choose|j: int| 0 <= j < d.len() && d[j] == x;
            assert(s[j] == x);
        }
    } else {
        assert forall|i: int| 0 <= i < trim_end(s).len() implies s.contains(
            #[trigger] trim_end(s)[i],
        ) by {
            assert(s[i] == trim_end(s)[i]);
        }
    }
}

/// Every character of a trimmed text occurs in the text.
pub proof fn lemma_trim_is_subrange(s: Seq<char>)
    ensures
        forall|i: int| 0 <= i < trim(s).len() ==> s.contains(#[trigger] trim(s)[i]),
{
    lemma_trim_start_sub(s);
    let t = trim_start(s);
    lemma_trim_end_sub(t);
    assert forall|i: int| 0 <= i < trim(s).len() implies s.contains(#[trigger] trim(s)[i]) by {
        let x = trim(s)[i];
        assert(t.contains(x));
        let j = choose|j: int| 0 <= j < t.len() && t[j] == x;
    }
}

proof fn lemma_trim_start_edge(s: Seq<char>)
    ensures
        trim_start(s).len() > 0 ==> !char_is_whitespace(trim_start(s)[0]),
    decreases s.len(),
{
    if s.len() > 0 && char_is_whitespace(s[0]) {
        lemma_trim_start_edge(s.drop_first());
    }
}

proof fn lemma_trim_end_edge(s: Seq<char>)
    ensures
        trim_end(s).len() <= s.len(),
        trim_end(s) == s.take(trim_end(s).len() as int),
        trim_end(s).len() > 0 ==> !char_is_whitespace(trim_end(s).last()),
    decreases s.len(),
{
    if s.len() > 0 && char_is_whitespace(s.last()) {
        let d = s.drop_last();
        lemma_trim_end_edge(d);
        let m = trim_end(d).len() as int;
        assert(d.take(m) =~= s.take(m));
    } else {
        assert(s.take(s.len() as int) =~= s);
    }
}

/// A trimmed text neither begins nor ends with whitespace.
pub proof fn lemma_trim_edges(s: Seq<char>)
    ensures
        trim(s).len() > 0 ==> !char_is_whitespace(trim(s)[0]) && !char_is_whitespace(
            trim(s).last(),
        ),
{
    lemma_trim_start_edge(s);
    lemma_trim_end_edge(trim_start(s));
    let t = trim_start(s);
    if trim(s).len() > 0 {
        assert(trim(s) == t.take(trim(s).len() as int));
        assert(trim(s)[0] == t[0]);
    }
}

/// Lemma: taking one more character extends the prefix.
pub proof fn lemma_take_push(s: Seq<char>, i: int)
    requires
        0 <= i < s.len(),
    ensures
        s.take(i + 1).drop_last() == s.take(i),
        s.take(i + 1).last() == s[i],
        s.take(i + 1).len() == i + 1,
{
    assert(s.take(i + 1).drop_last() =~= s.take(i));
}

// ---------------------------------------------------------------------------
// Executable functions
// ---------------------------------------------------------------------------

/// Removes leading and trailing whitespace.
pub fn trim_chars(cs: &[char]) -> (out: Vec<char>)
    ensures
        out@ == trim(cs@),
{
    let n = cs.len();
    let mut a: usize = 0;
    assert(cs@.skip(0) =~= cs@);
    while a < n && is_whitespace(cs[a])
        invariant
            a <= n == cs.len(),
            trim_start(cs@) == trim_start(cs@.skip(a as int)),
        decreases n - a,
    {
        assert(cs@.skip(a as int).drop_first() =~= cs@.skip(a + 1));
        a += 1;
    }
    assert(trim_start(cs@) == cs@.skip(a as int));
    let mut b: usize = n;
    while b > a && is_whitespace(cs[b - 1])
        invariant
            a <= b <= n == cs.len(),
            trim_end(cs@.skip(a as int)) == trim_end(cs@.subrange(a as int, b as int)),
        decreases b,
    {
        assert(cs@.subrange(a as int, b as int).drop_last() =~= cs@.subrange(a as int, b - 1));
        b -= 1;
    }
    assert(cs@.skip(a as int) =~= cs@.subrange(a as int, n as int));
    let out = crate::text::chars::sub_chars(cs, a, b);
    out
}

/// Splits into the maximal runs of non-whitespace characters.
pub fn split_words(cs: &[char]) -> (out: Vec<Vec<char>>)
    ensures
        view_all(out@) == words(cs@),
{
    let mut out: Vec<Vec<char>> = Vec::new();
    let mut i: usize = 0;
    while i < cs.len()
        invariant
            i <= cs.len(),
            view_all(out@) == words(cs@.take(i as int)),
        decreases cs.len() - i,
    {
        let c = cs[i];
        proof {
            lemma_take_push(cs@, i as int);
        }
        let ghost prev = view_all(out@);
        if is_whitespace(c) {
        } else if i > 0 && !is_whitespace(cs[i - 1]) {
            proof {
                assert(cs@.take(i as int).last() == cs@[i - 1]);
                lemma_words_nonempty(cs@.take(i as int));
                assert(cs@.take(i + 1)[i - 1] == cs@[i - 1]);
            }
            let mut w = out.pop().unwrap();
            w.push(c);
            out.push(w);
            assert(view_all(out@) =~= prev.update(prev.len() - 1, prev.last().push(c)));
        } else {
            proof {
                if i > 0 {
                    assert(cs@.take(i + 1)[i - 1] == cs@[i - 1]);
                }
            }
            let mut w: Vec<char> = Vec::new();
            w.push(c);
            out.push(w);
            assert(view_all(out@) =~= prev.push(seq![c]));
        }
        i += 1;
    }
    assert(cs@.take(cs.len() as int) =~= cs@);
    out
}

/// Joins words with `sep` between consecutive ones.
pub fn join_words(ws: &Vec<Vec<char>>, sep: &[char]) -> (out: Vec<char>)
    ensures
        out@ == join(view_all(ws@), sep@),
{
    let mut out: Vec<char> = Vec::new();
    let mut i: usize = 0;
    while i < ws.len()
        invariant
            i <= ws.len(),
            out@ == join(view_all(ws@).take(i as int), sep@),
        decreases ws.len() - i,
    {
        let ghost before = out@;
        if i > 0 {
            let mut k: usize = 0;
            while k < sep.len()
                invariant
                    k <= sep.len(),
                    out@ == before + sep@.take(k as int),
                decreases sep.len() - k,
            {
                out.push(sep[k]);
                assert(sep@.take(k + 1) =~= sep@.take(k as int).push(sep@[k as int]));
                k += 1;
            }
            assert(sep@.take(sep.len() as int) =~= sep@);
        }
        let ghost mid = out@;
        let w = &ws[i];
        let mut k: usize = 0;
        while k < w.len()
            invariant
                k <= w.len(),
                out@ == mid + w@.take(k as int),
            decreases w.len() - k,
        {
            out.push(w[k]);
            assert(w@.take(k + 1) =~= w@.take(k as int).push(w@[k as int]));
            k += 1;
        }
        assert(w@.take(w.len() as int) =~= w@);
        proof {
            let d = view_all(ws@);
            assert(d.take(i + 1).drop_last() =~= d.take(i as int));
            assert(d.take(i + 1).last() == w@);
            if i == 0 {
                assert(d.take(1)[0] == w@);
                assert(out@ =~= w@);
            } else {
                assert(out@ =~= before + sep@ + w@);
            }
        }
        i += 1;
    }
    assert(view_all(ws@).take(ws.len() as int) =~= view_all(ws@));
    out
}

/// Collapses runs of whitespace to single spaces and trims the ends.
pub fn collapse_chars(cs: &[char]) -> (out: Vec<char>)
    ensures
        out@ == collapse_whitespace(cs@),
{
    let ws = split_words(cs);
    let sep = vec![' '];
    assert(sep@ =~= seq![' ']);
    join_words(&ws, sep.as_slice())
}

} // verus!
