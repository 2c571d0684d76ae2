//! Substring replacement (the meaning of `str::replace`) and splitting on a
//! separator character (the meaning of `str::split` with a `char`).
use vstd::prelude::*;

use crate::text::chars::occurs_at;

verus! {

/// `s` with every non-overlapping occurrence of `pat`, found left to right,
/// replaced by `rep`.
pub open spec fn replace_all(s: Seq<char>, pat: Seq<char>, rep: Seq<char>) -> Seq<char>
    decreases s.len(),
{
    if pat.len() == 0 || s.len() == 0 {
        s
    } else if s.len() >= pat.len() && s.take(pat.len() as int) == pat {
        rep + replace_all(s.skip(pat.len() as int), pat, rep)
    } else {
        seq![s[0]] + replace_all(s.skip(1), pat, rep)
    }
}

/// The pieces of `s` between occurrences of `sep`, empty pieces included;
/// `s` without `sep` is a single piece.
pub open spec fn split_on(s: Seq<char>, sep: char) -> Seq<Seq<char>>
    decreases s.len(),
{
    if s.len() == 0 {
        seq![seq![]]
    } else {
        let p = split_on(s.drop_last(), sep);
        if s.last() == sep {
            p.push(seq![])
        } else {
            p.update(p.len() - 1, p.last().push(s.last()))
        }
    }
}

pub proof fn lemma_split_nonempty(s: Seq<char>, sep: char)
    ensures
        split_on(s, sep).len() >= 1,
    decreases s.len(),
{
    if s.len() > 0 {
        lemma_split_nonempty(s.drop_last(), sep);
    }
}

/// No piece contains the separator.
pub proof fn lemma_split_pieces_free_of_sep(s: Seq<char>, sep: char)
    ensures
        forall|j: int, m: int|
            0 <= j < split_on(s, sep).len() && 0 <= m < split_on(s, sep)[j].len()
                ==> #[trigger] split_on(s, sep)[j][m] != sep,
    decreases s.len(),
{
    if s.len() > 0 {
        let d = s.drop_last();
        lemma_split_pieces_free_of_sep(d, sep);
        lemma_split_nonempty(d, sep);
        let p = split_on(d, sep);
        if s.last() != sep {
            assert forall|j: int, m: int|
                0 <= j < split_on(s, sep).len() && 0 <= m < split_on(s, sep)[j].len()
                    implies #[trigger] split_on(s, sep)[j][m] != sep by {
                if j < p.len() - 1 {
                    assert(split_on(s, sep)[j] == p[j]);
                } else if m < p.last().len() {
                    assert(split_on(s, sep)[j][m] == p[p.len() - 1][m]);
                } else {
                    assert(split_on(s, sep)[j][m] == s.last());
                }
            }
        } else {
            assert forall|j: int, m: int|
                0 <= j < split_on(s, sep).len() && 0 <= m < split_on(s, sep)[j].len()
                    implies #[trigger] split_on(s, sep)[j][m] != sep by {
                if j < p.len() {
                    assert(split_on(s, sep)[j] == p[j]);
                }
            }
        }
    }
}

/// Every character of the result comes from `s` or from `rep`.
pub proof fn lemma_replace_all_chars(s: Seq<char>, pat: Seq<char>, rep: Seq<char>)
    ensures
        forall|i: int|
            0 <= i < replace_all(s, pat, rep).len() ==> s.contains(
                #[trigger] replace_all(s, pat, rep)[i],
            ) || rep.contains(replace_all(s, pat, rep)[i]),
    decreases s.len(),
{
    if pat.len() == 0 || s.len() == 0 {
        assert forall|i: int|
            0 <= i < replace_all(s, pat, rep).len() implies s.contains(
                #[trigger] replace_all(s, pat, rep)[i],
            ) || rep.contains(replace_all(s, pat, rep)[i]) by {
            assert(s[i] == replace_all(s, pat, rep)[i]);
        }
    } else {
        let n: int = if s.len() >= pat.len() && s.take(pat.len() as int) == pat {
            pat.len() as int
        } else {
            1
        };
        let d = s.skip(n);
        lemma_replace_all_chars(d, pat, rep);
        let rest = replace_all(d, pat, rep);
        let r = replace_all(s, pat, rep);
        assert forall|i: int| 0 <= i < r.len() implies s.contains(#[trigger] r[i]) || rep.contains(
            r[i],
        ) by {
            if n == pat.len() && s.len() >= pat.len() && s.take(pat.len() as int) == pat {
                assert(r == rep + rest);
                if i < rep.len() {
                    assert(r[i] == rep[i]);
                } else {
                    assert(r[i] == rest[i - rep.len()]);
                    if d.contains(r[i]) {
                        let m = choose|m: int| 0 <= m < d.len() && d[m] == r[i];
                        assert(s[m + n] == r[i]);
                    }
                }
            } else {
                assert(r == seq![s[0]] + rest);
                if i == 0 {
                    assert(r[0] == s[0]);
                } else {
                    assert(r[i] == rest[i - 1]);
                    if d.contains(r[i]) {
                        let m = choose|m: int| 0 <= m < d.len() && d[m] == r[i];
                        assert(s[m + 1] == r[i]);
                    }
                }
            }
        }
    }
}

/// Every character of every piece comes from `s`.
pub proof fn lemma_split_pieces_chars(s: Seq<char>, sep: char)
    ensures
        forall|j: int, m: int|
            0 <= j < split_on(s, sep).len() && 0 <= m < split_on(s, sep)[j].len() ==> s.contains(
                #[trigger] split_on(s, sep)[j][m],
            ),
    decreases s.len(),
{
    if s.len() > 0 {
        let d = s.drop_last();
        lemma_split_pieces_chars(d, sep);
        lemma_split_nonempty(d, sep);
        let p = split_on(d, sep);
        assert forall|j: int, m: int|
            0 <= j < split_on(s, sep).len() && 0 <= m < split_on(s, sep)[j].len()
                implies s.contains(#[trigger] split_on(s, sep)[j][m]) by {
            let x = split_on(s, sep)[j][m];
            if s.last() != sep && j == p.len() - 1 && m == p.last().len() {
                assert(x == s.last());
                assert(s[s.len() - 1] == x);
            } else {
                if s.last() != sep && j == p.len() - 1 {
                    assert(x == p[p.len() - 1][m]);
                } else {
                    assert(split_on(s, sep)[j] == p[j]);
                }
                assert(d.contains(x));
                let i = choose|i: int| 0 <= i < d.len() && d[i] == x;
                assert(s[i] == x);
            }
        }
    }
}

/// Replaces every occurrence of `pat` by `rep`.
pub fn replace(s: &[char], pat: &[char], rep: &[char]) -> (out: Vec<char>)
    requires
        pat@.len() > 0,
    ensures
        out@ == replace_all(s@, pat@, rep@),
{
    let n = s.len();
    let p = pat.len();
    let mut out: Vec<char> = Vec::new();
    let mut i: usize = 0;
    assert(s@.skip(0) =~= s@);
    while i < n
        invariant
            n == s@.len(),
            p == pat@.len(),
            p > 0,
            i <= n,
            replace_all(s@, pat@, rep@) == out@ + replace_all(s@.skip(i as int), pat@, rep@),
        decreases n - i,
    {
        let ghost rest = s@.skip(i as int);
        let ghost before = out@;
        if p <= n - i && crate::text::chars::occurs_at_exec(s, pat, i) {
            assert(rest.take(p as int) =~= s@.subrange(i as int, i + p));
            assert(rest.skip(p as int) =~= s@.skip(i + p));
            let mut k: usize = 0;
            while k < rep.len()
                invariant
                    k <= rep@.len(),
                    out@ == before + rep@.take(k as int),
                decreases rep.len() - k,
            {
                out.push(rep[k]);
                assert(rep@.take(k + 1) =~= rep@.take(k as int).push(rep@[k as int]));
                k += 1;
            }
            assert(rep@.take(rep@.len() as int) =~= rep@);
            assert(out@ + replace_all(s@.skip(i + p), pat@, rep@) =~= before + (rep@
                + replace_all(rest.skip(p as int), pat@, rep@)));
            i += p;
        } else {
            assert(rest.len() > 0);
            assert(!(rest.len() >= pat@.len() && rest.take(p as int) == pat@)) by {
                if rest.len() >= pat@.len() && rest.take(p as int) == pat@ {
                    assert(rest.take(p as int) =~= s@.subrange(i as int, i + p));
                }
            }
            assert(rest.skip(1) =~= s@.skip(i + 1));
            assert(rest[0] == s@[i as int]);
            out.push(s[i]);
            assert(out@ + replace_all(s@.skip(i + 1), pat@, rep@) =~= before + (seq![rest[0]]
                + replace_all(rest.skip(1), pat@, rep@)));
            i += 1;
        }
    }
    assert(s@.skip(n as int) =~= Seq::<char>::empty());
    assert(out@ + Seq::<char>::empty() =~= out@);
    out
}

/// Splits on every occurrence of `sep`.
pub fn split_char(s: &[char], sep: char) -> (out: Vec<Vec<char>>)
    ensures
        crate::text::words::view_all(out@) == split_on(s@, sep),
{
    let mut out: Vec<Vec<char>> = Vec::new();
    out.push(Vec::new());
    assert(crate::text::words::view_all(out@) =~= split_on(s@.take(0), sep));
    let mut i: usize = 0;
    while i < s.len()
        invariant
            i <= s.len(),
            out@.len() >= 1,
            crate::text::words::view_all(out@) == split_on(s@.take(i as int), sep),
        decreases s.len() - i,
    {
        assert(s@.take(i + 1).drop_last() =~= s@.take(i as int));
        assert(s@.take(i + 1).last() == s@[i as int]);
        let ghost prev = crate::text::words::view_all(out@);
        if s[i] == sep {
            out.push(Vec::new());
            assert(crate::text::words::view_all(out@) =~= prev.push(seq![]));
        } else {
            let mut w = out.pop().unwrap();
            w.push(s[i]);
            out.push(w);
            assert(crate::text::words::view_all(out@) =~= prev.update(
                prev.len() - 1,
                prev.last().push(s@[i as int]),
            ));
        }
        i += 1;
    }
    assert(s@.take(s.len() as int) =~= s@);
    out
}

} // verus!
