//! Kid-related command logic: which kid a command refers to, which interests
//! a sentence names, and the payloads shown for assignments and recommendations.
use vstd::prelude::*;

use crate::text::chars::{
    char_is_whitespace, chars_of, contains, contains_seq, find, first_occurrence, lowercase,
    lemma_occurs_within, occurs_at, str_is, string_of, sub_chars, to_lowercase,
};
use crate::text::normalize::{normalize_chars, normalized};
use crate::text::replace::{
    lemma_replace_all_chars, lemma_split_pieces_chars, lemma_split_pieces_free_of_sep, replace,
    replace_all, split_char, split_on,
};
use crate::text::words::{
    join, join_words, lemma_trim_edges, lemma_trim_is_subrange, split_words, trim, trim_chars,
    view_all, words,
};
use crate::voice::command::{string_views, strings_of};
use crate::voice::session::SessionContext;

verus! {

/// A video assigned to a kid.
#[derive(Debug, Clone)]
pub struct AssignedVideo {
    pub id: String,
    pub title: Option<String>,
    pub thumbnail_url: Option<String>,
    pub duration_seconds: Option<i32>,
}

/// A recommended video and how many of the kid's interests it matches.
#[derive(Debug, Clone)]
pub struct RecommendedVideo {
    pub id: String,
    pub title: Option<String>,
    pub thumbnail_url: Option<String>,
    pub duration_seconds: Option<i32>,
    pub score: i64,
}

/// Recommendations for one kid.
#[derive(Debug, Clone)]
pub struct RecommendationsPayload {
    pub kid_name: String,
    pub tags: Vec<String>,
    pub recommendations: Vec<RecommendedVideo>,
}

// ---------------------------------------------------------------------------
// Session roles
// ---------------------------------------------------------------------------

/// The session belongs to an identified kid.
pub open spec fn kid_speaker(s: SessionContext) -> Option<i32> {
    if s.role matches Some(r) && r@ == "kid"@ {
        s.user_id
    } else {
        None
    }
}

/// The session belongs to a parent.
pub open spec fn is_parent(s: SessionContext) -> bool {
    s.role matches Some(r) && r@ == "parent"@
}

/// The id of the speaking kid, if the session belongs to an identified kid.
pub fn kid_session_id(s: &SessionContext) -> (r: Option<i32>)
    ensures
        r == kid_speaker(*s),
{
    match &s.role {
        Some(r) => {
            if str_is(r.as_str(), "kid") {
                s.user_id
            } else {
                None
            }
        },
        None => None,
    }
}

/// Only a parent may enroll a kid.
pub fn may_enroll_kid(s: &SessionContext) -> (r: bool)
    ensures
        r == is_parent(*s),
{
    match &s.role {
        Some(r) => str_is(r.as_str(), "parent"),
        None => false,
    }
}

// ---------------------------------------------------------------------------
// Which kid
// ---------------------------------------------------------------------------

/// The first kid, in list order, whose normalised name occurs in `t`.
pub open spec fn first_named_kid(kids: Seq<(i64, String)>, t: Seq<char>) -> Option<i64>
    decreases kids.len(),
{
    if kids.len() == 0 {
        None
    } else if contains_seq(t, normalized(kids[0].1@)) {
        Some(kids[0].0)
    } else {
        first_named_kid(kids.drop_first(), t)
    }
}

/// Which kid a command refers to. Priority: a kid named in the command, then
/// the speaker if the speaker is a kid, then the only kid if there is one.
pub open spec fn kid_referred(
    kids: Seq<(i64, String)>,
    args: Seq<String>,
    s: SessionContext,
) -> Option<i64> {
    let t = normalized(join(string_views(args), " "@));
    if kids.len() == 0 {
        None
    } else if first_named_kid(kids, t) is Some {
        first_named_kid(kids, t)
    } else if kid_speaker(s) is Some {
        Some(kid_speaker(s)->0 as i64)
    } else if kids.len() == 1 {
        Some(kids[0].0)
    } else {
        None
    }
}

/// The kid found by name is the first listed kid whose normalised name
/// occurs in `t`; none is found only when no listed kid's name occurs.
proof fn lemma_first_named_kid(kids: Seq<(i64, String)>, t: Seq<char>)
    ensures
        first_named_kid(kids, t) matches Some(id) ==> exists|k: int|
            #![trigger kids[k]]
            0 <= k < kids.len() && kids[k].0 == id && contains_seq(t, normalized(kids[k].1@))
                && forall|e: int|
                #![trigger kids[e]]
                0 <= e < k ==> !contains_seq(t, normalized(kids[e].1@)),
        first_named_kid(kids, t) is None ==> forall|k: int|
            #![trigger kids[k]]
            0 <= k < kids.len() ==> !contains_seq(t, normalized(kids[k].1@)),
    decreases kids.len(),
{
    if kids.len() > 0 && !contains_seq(t, normalized(kids[0].1@)) {
        let d = kids.drop_first();
        lemma_first_named_kid(d, t);
        if let Some(id) = first_named_kid(kids, t) {
            let k = choose|k: int|
                #![trigger d[k]]
                0 <= k < d.len() && d[k].0 == id && contains_seq(t, normalized(d[k].1@)) && forall|
                    e: int,
                |
                    #![trigger d[e]]
                    0 <= e < k ==> !contains_seq(t, normalized(d[e].1@));
            assert(kids[k + 1] == d[k]);
            assert forall|e: int| #![trigger kids[e]] 0 <= e < k + 1 implies !contains_seq(
                t,
                normalized(kids[e].1@),
            ) by {
                if e > 0 {
                    assert(kids[e] == d[e - 1]);
                }
            }
        } else {
            assert forall|k: int| #![trigger kids[k]] 0 <= k < kids.len() implies !contains_seq(
                t,
                normalized(kids[k].1@),
            ) by {
                if k > 0 {
                    assert(kids[k] == d[k - 1]);
                }
            }
        }
    } else if kids.len() > 0 {
        assert(kids[0].0 == kids[0].0);
    }
}

/// The kid a command refers to is always one of the listed kids, or the
/// speaker when the session's role is "kid". With no kids listed there is
/// none. When the command says listed kids' names, the kid referred to is
/// the first of them in list order. When it says no listed name: a speaker who is a
/// kid is the kid referred to; otherwise the only kid, if exactly one is
/// listed; otherwise, with more than one kid, there is none.
pub proof fn lemma_kid_referred_is_listed_or_speaker(
    kids: Seq<(i64, String)>,
    args: Seq<String>,
    s: SessionContext,
)
    ensures
        kids.len() == 0 ==> kid_referred(kids, args, s) is None,
        kid_referred(kids, args, s) is Some ==> (exists|k: int|
            #![trigger kids[k]]
            0 <= k < kids.len() && kids[k].0 == kid_referred(kids, args, s)->0) || (s.role is Some
            && s.role->0@ == "kid"@ && s.user_id is Some && s.user_id->0 as i64 == kid_referred(
            kids,
            args,
            s,
        )->0),
        (exists|k: int|
            #![trigger kids[k]]
            0 <= k < kids.len() && contains_seq(
                normalized(join(string_views(args), " "@)),
                normalized(kids[k].1@),
            )) ==> kid_referred(kids, args, s) is Some && exists|k: int|
            #![trigger kids[k]]
            0 <= k < kids.len() && kids[k].0 == kid_referred(kids, args, s)->0 && contains_seq(
                normalized(join(string_views(args), " "@)),
                normalized(kids[k].1@),
            ) && forall|e: int|
                #![trigger kids[e]]
                0 <= e < k ==> !contains_seq(
                    normalized(join(string_views(args), " "@)),
                    normalized(kids[e].1@),
                ),
        (forall|k: int|
            #![trigger kids[k]]
            0 <= k < kids.len() ==> !contains_seq(
                normalized(join(string_views(args), " "@)),
                normalized(kids[k].1@),
            )) && kids.len() > 1 && !(s.role is Some && s.role->0@ == "kid"@) ==> kid_referred(
            kids,
            args,
            s,
        ) is None,
        (forall|k: int|
            #![trigger kids[k]]
            0 <= k < kids.len() ==> !contains_seq(
                normalized(join(string_views(args), " "@)),
                normalized(kids[k].1@),
            )) && kids.len() > 0 && s.role is Some && s.role->0@ == "kid"@ && s.user_id is Some
            ==> kid_referred(kids, args, s) == Some(s.user_id->0 as i64),
        (forall|k: int|
            #![trigger kids[k]]
            0 <= k < kids.len() ==> !contains_seq(
                normalized(join(string_views(args), " "@)),
                normalized(kids[k].1@),
            )) && kids.len() == 1 && !(s.role is Some && s.role->0@ == "kid"@ && s.user_id is Some)
            ==> kid_referred(kids, args, s) == Some(kids[0].0),
{
    let t = normalized(join(string_views(args), " "@));
    lemma_first_named_kid(kids, t);
}

fn char_vectors(args: &[String]) -> (out: Vec<Vec<char>>)
    ensures
        view_all(out@) == string_views(args@),
{
    let mut out: Vec<Vec<char>> = Vec::new();
    let mut i: usize = 0;
    while i < args.len()
        invariant
            i <= args.len(),
            out@.len() == i,
            view_all(out@) == string_views(args@).take(i as int),
        decreases args.len() - i,
    {
        let c = chars_of(args[i].as_str());
        let ghost before = out@;
        out.push(c);
        assert(out@ == before.push(c));
        assert forall|k: int| 0 <= k < i + 1 implies #[trigger] view_all(out@)[k] == string_views(
            args@,
        ).take(i + 1)[k] by {
            if k < i {
                assert(out@[k] == before[k]);
                assert(view_all(before)[k] == string_views(args@).take(i as int)[k]);
            }
        }
        assert(view_all(out@) =~= string_views(args@).take(i + 1));
        i += 1;
    }
    assert(string_views(args@).take(args.len() as int) =~= string_views(args@));
    out
}

/// The words of a command joined by single spaces.
pub fn joined_args(args: &[String]) -> (out: Vec<char>)
    ensures
        out@ == join(string_views(args@), " "@),
{
    let ws = char_vectors(args);
    let sep = chars_of(" ");
    join_words(&ws, sep.as_slice())
}

/// Resolve which kid a command refers to, among `kids` (id and name, in the
/// order the database lists them).
pub fn resolve_kid_id(kids: &[(i64, String)], args: &[String], session: &SessionContext) -> (r:
    Option<i64>)
    ensures
        r == kid_referred(kids@, args@, *session),
{
    if kids.len() == 0 {
        return None;
    }
    let joined = joined_args(args);
    let transcript = normalize_chars(joined.as_slice());
    let ghost t = transcript@;
    assert(kids@.skip(0) =~= kids@);
    let mut i: usize = 0;
    while i < kids.len()
        invariant
            i <= kids.len(),
            t == transcript@,
            t == normalized(join(string_views(args@), " "@)),
            kids@.len() > 0,
            first_named_kid(kids@, t) == first_named_kid(kids@.skip(i as int), t),
        decreases kids.len() - i,
    {
        let ghost rest = kids@.skip(i as int);
        assert(rest[0] == kids@[i as int]);
        assert(rest.drop_first() =~= kids@.skip(i + 1));
        let name = chars_of(kids[i].1.as_str());
        let n = normalize_chars(name.as_slice());
        if contains(transcript.as_slice(), n.as_slice()) {
            assert(name@ == kids@[i as int].1@);
            assert(rest.len() > 0);
            assert(contains_seq(t, normalized(rest[0].1@)));
            assert(first_named_kid(kids@.skip(i as int), t) == Some(kids@[i as int].0));
            return Some(kids[i].0);
        }
        i += 1;
    }
    assert(kids@.skip(kids.len() as int) =~= Seq::<(i64, String)>::empty());
    if let Some(uid) = kid_session_id(session) {
        return Some(uid as i64);
    }
    if kids.len() == 1 {
        return Some(kids[0].0);
    }
    None
}

// ---------------------------------------------------------------------------
// Interests
// ---------------------------------------------------------------------------

/// Phrases that introduce interests, tried in this order.
pub open spec fn topic_triggers() -> Seq<Seq<char>> {
    seq![
        "is really into "@,
        "is interested in "@,
        "really likes "@,
        "really loves "@,
        "really enjoys "@,
        "interested in "@,
        "really like "@,
        "really love "@,
        "really enjoy "@,
        "likes "@,
        "loves "@,
        "enjoys "@,
        "like "@,
        "love "@,
        "enjoy "@,
        "into "@,
    ]
}

fn topic_trigger_list() -> (r: [&'static str; 16])
    ensures
        forall|k: int| 0 <= k < 16 ==> #[trigger] r@[k]@ == topic_triggers()[k],
{
    [
        "is really into ",
        "is interested in ",
        "really likes ",
        "really loves ",
        "really enjoys ",
        "interested in ",
        "really like ",
        "really love ",
        "really enjoy ",
        "likes ",
        "loves ",
        "enjoys ",
        "like ",
        "love ",
        "enjoy ",
        "into ",
    ]
}

/// The position of the first occurrence of `t` in `l`.
pub open spec fn first_position(l: Seq<char>, t: Seq<char>) -> int {
    choose|i: int| first_occurrence(l, t, i)
}

/// The text after the first occurrence of the first trigger (in trigger
/// order) that occurs in `l`, trying triggers from index `k` on.
pub open spec fn remainder_from(l: Seq<char>, k: int) -> Option<Seq<char>>
    decreases 16 - k,
{
    if k < 0 || k >= 16 {
        None
    } else if contains_seq(l, topic_triggers()[k]) {
        Some(l.skip(first_position(l, topic_triggers()[k]) + topic_triggers()[k].len()))
    } else {
        remainder_from(l, k + 1)
    }
}

/// The trimmed pieces that are non-empty and at most three words long.
pub open spec fn select_topics(pieces: Seq<Seq<char>>) -> Seq<Seq<char>>
    decreases pieces.len(),
{
    if pieces.len() == 0 {
        seq![]
    } else {
        let p = select_topics(pieces.drop_last());
        let t = trim(pieces.last());
        if t.len() > 0 && words(t).len() <= 3 {
            p.push(t)
        } else {
            p
        }
    }
}

/// The interests named in `transcript`: the lowercased text after the first
/// trigger phrase, split on "and", "or" and commas, each piece trimmed,
/// keeping non-empty pieces of at most three words.
pub open spec fn topics_of(transcript: Seq<char>) -> Seq<Seq<char>> {
    topics_in(lowercase(transcript))
}

/// The interests named in lowercased text `l` (see `topics_of`).
pub open spec fn topics_in(l: Seq<char>) -> Seq<Seq<char>> {
    match remainder_from(l, 0) {
        None => seq![],
        Some(raw) => select_topics(
            split_on(replace_all(replace_all(raw, " and "@, ","@), " or "@, ","@), ','),
        ),
    }
}

proof fn lemma_first_position(l: Seq<char>, t: Seq<char>, i: int)
    requires
        first_occurrence(l, t, i),
    ensures
        first_position(l, t) == i,
{
    let j = first_position(l, t);
    assert(first_occurrence(l, t, j));
    if j < i {
        assert(!crate::text::chars::occurs_at(l, t, j));
    } else if i < j {
        assert(!crate::text::chars::occurs_at(l, t, i));
    }
}

proof fn lemma_first_occurrence_exists(l: Seq<char>, t: Seq<char>, i: int)
    requires
        occurs_at(l, t, i),
    ensures
        first_occurrence(l, t, first_position(l, t)),
    decreases i,
{
    if exists|j: int| 0 <= j < i && occurs_at(l, t, j) {
        let j = choose|j: int| 0 <= j < i && occurs_at(l, t, j);
        lemma_first_occurrence_exists(l, t, j);
    } else {
        assert(first_occurrence(l, t, i));
    }
}

/// The text after a trigger is a part of `l`.
proof fn lemma_remainder_within(l: Seq<char>, k: int)
    ensures
        remainder_from(l, k) matches Some(r) ==> forall|i: int|
            0 <= i < r.len() ==> l.contains(#[trigger] r[i]),
    decreases 16 - k,
{
    if 0 <= k < 16 {
        let t = topic_triggers()[k];
        if contains_seq(l, t) {
            let i = choose|i: int| occurs_at(l, t, i);
            lemma_first_occurrence_exists(l, t, i);
            let q = first_position(l, t) + t.len();
            let r = l.skip(q);
            assert forall|m: int| 0 <= m < r.len() implies l.contains(#[trigger] r[m]) by {
                assert(l[q + m] == r[m]);
            }
        } else {
            lemma_remainder_within(l, k + 1);
        }
    }
}

/// Every trimmed piece kept is non-empty, at most three words long, and
/// the trim of one of the pieces.
proof fn lemma_select_topics(pieces: Seq<Seq<char>>)
    ensures
        forall|k: int|
            #![trigger select_topics(pieces)[k]]
            0 <= k < select_topics(pieces).len() ==> {
                &&& select_topics(pieces)[k].len() > 0
                &&& words(select_topics(pieces)[k]).len() <= 3
                &&& exists|j: int|
                    #![trigger pieces[j]]
                    0 <= j < pieces.len() && select_topics(pieces)[k] == trim(pieces[j])
            },
    decreases pieces.len(),
{
    if pieces.len() > 0 {
        let d = pieces.drop_last();
        lemma_select_topics(d);
        let p = select_topics(d);
        assert forall|k: int|
            #![trigger select_topics(pieces)[k]]
            0 <= k < select_topics(pieces).len() implies {
                &&& select_topics(pieces)[k].len() > 0
                &&& words(select_topics(pieces)[k]).len() <= 3
                &&& exists|j: int|
                    #![trigger pieces[j]]
                    0 <= j < pieces.len() && select_topics(pieces)[k] == trim(pieces[j])
            } by {
            if k < p.len() {
                assert(select_topics(pieces)[k] == p[k]);
                let j = choose|j: int|
                    #![trigger d[j]]
                    0 <= j < d.len() && p[k] == trim(d[j]);
                assert(pieces[j] == d[j]);
            } else {
                assert(pieces[pieces.len() - 1] == pieces.last());
            }
        }
    }
}

/// Every interest extracted from lowercased text is a non-empty phrase of at
/// most three words, with no whitespace at either end and no comma in it,
/// made of characters of the text.
pub proof fn lemma_topics_well_formed(l: Seq<char>)
    ensures
        forall|k: int|
            #![trigger topics_in(l)[k]]
            0 <= k < topics_in(l).len() ==> {
                &&& topics_in(l)[k].len() > 0
                &&& !char_is_whitespace(topics_in(l)[k][0])
                &&& !char_is_whitespace(topics_in(l)[k].last())
                &&& words(topics_in(l)[k]).len() <= 3
                &&& !topics_in(l)[k].contains(',')
                &&& forall|i: int|
                    0 <= i < topics_in(l)[k].len() ==> l.contains(#[trigger] topics_in(l)[k][i])
            },
{
    if let Some(raw) = remainder_from(l, 0) {
        let s = replace_all(replace_all(raw, " and "@, ","@), " or "@, ","@);
        let pieces = split_on(s, ',');
        let s1 = replace_all(raw, " and "@, ","@);
        lemma_select_topics(pieces);
        lemma_split_pieces_free_of_sep(s, ',');
        lemma_split_pieces_chars(s, ',');
        lemma_replace_all_chars(raw, " and "@, ","@);
        lemma_replace_all_chars(s1, " or "@, ","@);
        lemma_remainder_within(l, 0);
        reveal_strlit(",");
        assert forall|k: int|
            #![trigger topics_in(l)[k]]
            0 <= k < topics_in(l).len() implies {
                &&& topics_in(l)[k].len() > 0
                &&& !char_is_whitespace(topics_in(l)[k][0])
                &&& !char_is_whitespace(topics_in(l)[k].last())
                &&& words(topics_in(l)[k]).len() <= 3
                &&& !topics_in(l)[k].contains(',')
                &&& forall|i: int|
                    0 <= i < topics_in(l)[k].len() ==> l.contains(#[trigger] topics_in(l)[k][i])
            } by {
            let x = topics_in(l)[k];
            assert(x == select_topics(pieces)[k]);
            let j = choose|j: int|
                #![trigger pieces[j]]
                0 <= j < pieces.len() && x == trim(pieces[j]);
            lemma_trim_edges(pieces[j]);
            lemma_trim_is_subrange(pieces[j]);
            if x.contains(',') {
                let i = choose|i: int| 0 <= i < x.len() && x[i] == ',';
                assert(pieces[j].contains(x[i]));
                let m = choose|m: int| 0 <= m < pieces[j].len() && pieces[j][m] == x[i];
                assert(split_on(s, ',')[j][m] != ',');
            }
            assert forall|i: int| 0 <= i < x.len() implies l.contains(#[trigger] x[i]) by {
                assert(pieces[j].contains(x[i]));
                let m = choose|m: int| 0 <= m < pieces[j].len() && pieces[j][m] == x[i];
                assert(s.contains(split_on(s, ',')[j][m]));
                assert(x[i] != ',');
                assert(!","@.contains(x[i]));
                let a = choose|a: int| 0 <= a < s.len() && s[a] == x[i];
                assert(s1.contains(replace_all(s1, " or "@, ","@)[a]));
                let b = choose|b: int| 0 <= b < s1.len() && s1[b] == x[i];
                assert(raw.contains(replace_all(raw, " and "@, ","@)[b]));
                let c = choose|c: int| 0 <= c < raw.len() && raw[c] == x[i];
                assert(l.contains(raw[c]));
            }
        }
    }
}

/// Every interest extracted from a sentence is a non-empty phrase of at most
/// three words, with no whitespace at either end and no comma in it, made of
/// characters of the lowercased sentence.
pub proof fn lemma_extracted_topics_well_formed(transcript: Seq<char>)
    ensures
        forall|k: int|
            #![trigger topics_of(transcript)[k]]
            0 <= k < topics_of(transcript).len() ==> {
                &&& topics_of(transcript)[k].len() > 0
                &&& !char_is_whitespace(topics_of(transcript)[k][0])
                &&& !char_is_whitespace(topics_of(transcript)[k].last())
                &&& words(topics_of(transcript)[k]).len() <= 3
                &&& !topics_of(transcript)[k].contains(',')
                &&& forall|i: int|
                    0 <= i < topics_of(transcript)[k].len() ==> lowercase(transcript).contains(
                        #[trigger] topics_of(transcript)[k][i],
                    )
            },
{
    lemma_topics_well_formed(lowercase(transcript));
}

proof fn lemma_remainder_none(l: Seq<char>, k: int)
    requires
        0 <= k <= 16,
        forall|j: int| k <= j < 16 ==> !contains_seq(l, #[trigger] topic_triggers()[j]),
    ensures
        remainder_from(l, k) is None,
    decreases 16 - k,
{
    if k < 16 {
        lemma_remainder_none(l, k + 1);
    }
}

proof fn lemma_trigger_says(l: Seq<char>, trigger: Seq<char>, key: Seq<char>, at: int)
    requires
        occurs_at(trigger, key, at),
        contains_seq(l, trigger),
    ensures
        contains_seq(l, key),
{
    let i = choose|i: int| occurs_at(l, trigger, i);
    lemma_occurs_within(l, trigger, key, i, at);
}

/// Every trigger phrase says "like", "love", "enjoy", "into " or
/// "interested in ", so a sentence that says none of them names no
/// interests.
pub proof fn lemma_no_trigger_no_topics(l: Seq<char>)
    ensures
        !contains_seq(l, "like"@) && !contains_seq(l, "love"@) && !contains_seq(l, "enjoy"@)
            && !contains_seq(l, "into "@) && !contains_seq(l, "interested in "@) ==> topics_in(
            l,
        ).len() == 0,
{
    reveal_strlit("enjoy");
    reveal_strlit("enjoy ");
    reveal_strlit("enjoys ");
    reveal_strlit("interested in ");
    reveal_strlit("into ");
    reveal_strlit("is interested in ");
    reveal_strlit("is really into ");
    reveal_strlit("like");
    reveal_strlit("like ");
    reveal_strlit("likes ");
    reveal_strlit("love");
    reveal_strlit("love ");
    reveal_strlit("loves ");
    reveal_strlit("really enjoy ");
    reveal_strlit("really enjoys ");
    reveal_strlit("really like ");
    reveal_strlit("really likes ");
    reveal_strlit("really love ");
    reveal_strlit("really loves ");
    if !contains_seq(l, "like"@) && !contains_seq(l, "love"@) && !contains_seq(l, "enjoy"@)
        && !contains_seq(l, "into "@) && !contains_seq(l, "interested in "@) {
        assert(occurs_at("is really into "@, "into "@, 10)) by {
            assert("is really into "@.subrange(10, 15) =~= "into "@);
        }
        if contains_seq(l, topic_triggers()[0]) {
            lemma_trigger_says(l, "is really into "@, "into "@, 10);
        }
        assert(occurs_at("is interested in "@, "interested in "@, 3)) by {
            assert("is interested in "@.subrange(3, 17) =~= "interested in "@);
        }
        if contains_seq(l, topic_triggers()[1]) {
            lemma_trigger_says(l, "is interested in "@, "interested in "@, 3);
        }
        assert(occurs_at("really likes "@, "like"@, 7)) by {
            assert("really likes "@.subrange(7, 11) =~= "like"@);
        }
        if contains_seq(l, topic_triggers()[2]) {
            lemma_trigger_says(l, "really likes "@, "like"@, 7);
        }
        assert(occurs_at("really loves "@, "love"@, 7)) by {
            assert("really loves "@.subrange(7, 11) =~= "love"@);
        }
        if contains_seq(l, topic_triggers()[3]) {
            lemma_trigger_says(l, "really loves "@, "love"@, 7);
        }
        assert(occurs_at("really enjoys "@, "enjoy"@, 7)) by {
            assert("really enjoys "@.subrange(7, 12) =~= "enjoy"@);
        }
        if contains_seq(l, topic_triggers()[4]) {
            lemma_trigger_says(l, "really enjoys "@, "enjoy"@, 7);
        }
        assert(occurs_at("interested in "@, "interested in "@, 0)) by {
            assert("interested in "@.subrange(0, 14) =~= "interested in "@);
        }
        if contains_seq(l, topic_triggers()[5]) {
            lemma_trigger_says(l, "interested in "@, "interested in "@, 0);
        }
        assert(occurs_at("really like "@, "like"@, 7)) by {
            assert("really like "@.subrange(7, 11) =~= "like"@);
        }
        if contains_seq(l, topic_triggers()[6]) {
            lemma_trigger_says(l, "really like "@, "like"@, 7);
        }
        assert(occurs_at("really love "@, "love"@, 7)) by {
            assert("really love "@.subrange(7, 11) =~= "love"@);
        }
        if contains_seq(l, topic_triggers()[7]) {
            lemma_trigger_says(l, "really love "@, "love"@, 7);
        }
        assert(occurs_at("really enjoy "@, "enjoy"@, 7)) by {
            assert("really enjoy "@.subrange(7, 12) =~= "enjoy"@);
        }
        if contains_seq(l, topic_triggers()[8]) {
            lemma_trigger_says(l, "really enjoy "@, "enjoy"@, 7);
        }
        assert(occurs_at("likes "@, "like"@, 0)) by {
            assert("likes "@.subrange(0, 4) =~= "like"@);
        }
        if contains_seq(l, topic_triggers()[9]) {
            lemma_trigger_says(l, "likes "@, "like"@, 0);
        }
        assert(occurs_at("loves "@, "love"@, 0)) by {
            assert("loves "@.subrange(0, 4) =~= "love"@);
        }
        if contains_seq(l, topic_triggers()[10]) {
            lemma_trigger_says(l, "loves "@, "love"@, 0);
        }
        assert(occurs_at("enjoys "@, "enjoy"@, 0)) by {
            assert("enjoys "@.subrange(0, 5) =~= "enjoy"@);
        }
        if contains_seq(l, topic_triggers()[11]) {
            lemma_trigger_says(l, "enjoys "@, "enjoy"@, 0);
        }
        assert(occurs_at("like "@, "like"@, 0)) by {
            assert("like "@.subrange(0, 4) =~= "like"@);
        }
        if contains_seq(l, topic_triggers()[12]) {
            lemma_trigger_says(l, "like "@, "like"@, 0);
        }
        assert(occurs_at("love "@, "love"@, 0)) by {
            assert("love "@.subrange(0, 4) =~= "love"@);
        }
        if contains_seq(l, topic_triggers()[13]) {
            lemma_trigger_says(l, "love "@, "love"@, 0);
        }
        assert(occurs_at("enjoy "@, "enjoy"@, 0)) by {
            assert("enjoy "@.subrange(0, 5) =~= "enjoy"@);
        }
        if contains_seq(l, topic_triggers()[14]) {
            lemma_trigger_says(l, "enjoy "@, "enjoy"@, 0);
        }
        assert(occurs_at("into "@, "into "@, 0)) by {
            assert("into "@.subrange(0, 5) =~= "into "@);
        }
        if contains_seq(l, topic_triggers()[15]) {
            lemma_trigger_says(l, "into "@, "into "@, 0);
        }
        lemma_remainder_none(l, 0);
    }
}

/// Extract topic words from natural-language interest phrases.
/// "my kid likes dinosaurs and space" -> ["dinosaurs", "space"]
pub fn extract_topics(transcript: &str) -> (out: Vec<String>)
    ensures
        string_views(out@) == topics_of(transcript@),
{
    let cs = chars_of(transcript);
    let lower = to_lowercase(cs.as_slice());
    topics_in_lowered(lower.as_slice())
}

/// The interests named in already lowercased text (see `topics_of`).
pub fn topics_in_lowered(lower: &[char]) -> (out: Vec<String>)
    ensures
        string_views(out@) == topics_in(lower@),
{
    let triggers = topic_trigger_list();
    let mut k: usize = 0;
    let mut remainder: Option<Vec<char>> = None;
    while k < 16 && remainder.is_none()
        invariant
            k <= 16,
            forall|j: int| 0 <= j < 16 ==> #[trigger] triggers@[j]@ == topic_triggers()[j],
            remainder is None ==> remainder_from(lower@, 0) == remainder_from(lower@, k as int),
            remainder matches Some(r) ==> remainder_from(lower@, 0) == Some(r@),
        decreases 16 - k,
    {
        let t = chars_of(triggers[k]);
        match find(lower, t.as_slice()) {
            Some(pos) => {
                proof {
                    lemma_first_position(lower@, t@, pos as int);
                    assert(crate::text::chars::occurs_at(lower@, t@, pos as int));
                    assert(pos + t@.len() <= lower@.len());
                }
                let tl = t.len();
                let ll = lower.len();
                assert(pos + tl <= ll);
                let start = pos + tl;
                let rest = sub_chars(lower, start, lower.len());
                assert(rest@ =~= lower@.skip(pos + t@.len()));
                remainder = Some(rest);
            },
            None => {},
        }
        k += 1;
    }
    let raw = match remainder {
        Some(r) => r,
        None => {
            assert(remainder_from(lower@, 16) is None);
            let empty: Vec<String> = Vec::new();
            assert(string_views(empty@) =~= Seq::<Seq<char>>::empty());
            return empty;
        },
    };
    let and_ = chars_of(" and ");
    let or_ = chars_of(" or ");
    let comma = chars_of(",");
    proof {
        reveal_strlit(" and ");
        reveal_strlit(" or ");
    }
    let step1 = replace(raw.as_slice(), and_.as_slice(), comma.as_slice());
    let step2 = replace(step1.as_slice(), or_.as_slice(), comma.as_slice());
    let pieces = split_char(step2.as_slice(), ',');
    let ghost ps = view_all(pieces@);
    let mut topics: Vec<Vec<char>> = Vec::new();
    let mut i: usize = 0;
    while i < pieces.len()
        invariant
            i <= pieces.len(),
            ps == view_all(pieces@),
            view_all(topics@) == select_topics(ps.take(i as int)),
        decreases pieces.len() - i,
    {
        assert(ps.take(i + 1).drop_last() =~= ps.take(i as int));
        assert(ps.take(i + 1).last() == pieces@[i as int]@);
        let t = trim_chars(pieces[i].as_slice());
        let ws = split_words(t.as_slice());
        let ghost before = view_all(topics@);
        if t.len() > 0 && ws.len() <= 3 {
            topics.push(t);
            assert(view_all(topics@) =~= before.push(t@));
        }
        i += 1;
    }
    assert(ps.take(pieces.len() as int) =~= ps);
    strings_of(&topics)
}

} // verus!
