//! Video command logic: the search query spoken in a command, and the plain
//! text of a WebVTT subtitle file used to tag a video.
use vstd::prelude::*;

use crate::text::chars::{chars_are, chars_eq, chars_have, chars_of, contains_seq, copy_chars, is_ascii_digit, is_ascii_digit_spec, string_of};
use crate::text::replace::{split_char, split_on};
use crate::text::words::{join, join_words, trim, trim_chars, view_all};
use crate::voice::command::string_views;

verus! {

// ---------------------------------------------------------------------------
// Search query
// ---------------------------------------------------------------------------

/// Command words that are not part of what is searched for.
pub open spec fn search_filler() -> Seq<Seq<char>> {
    seq!["search"@, "for"@, "find"@, "look"@, "up"@, "me"@, "videos"@, "about"@, "show"@]
}

/// The words of `args` that are not filler words, in order.
pub open spec fn query_words(args: Seq<Seq<char>>) -> Seq<Seq<char>>
    decreases args.len(),
{
    if args.len() == 0 {
        seq![]
    } else {
        let p = query_words(args.drop_last());
        if search_filler().contains(args.last()) {
            p
        } else {
            p.push(args.last())
        }
    }
}

fn is_filler(w: &str) -> (r: bool)
    ensures
        r == search_filler().contains(w@),
{
    let list: [&str; 9] = ["search", "for", "find", "look", "up", "me", "videos", "about", "show"];
    assert(forall|k: int| 0 <= k < 9 ==> #[trigger] list@[k]@ == search_filler()[k]);
    let cs = chars_of(w);
    let mut k: usize = 0;
    while k < 9
        invariant
            k <= 9,
            cs@ == w@,
            forall|j: int| 0 <= j < 9 ==> #[trigger] list@[j]@ == search_filler()[j],
            forall|j: int| 0 <= j < k ==> search_filler()[j] != w@,
        decreases 9 - k,
    {
        if chars_are(cs.as_slice(), list[k]) {
            assert(search_filler()[k as int] == w@);
            return true;
        }
        k += 1;
    }
    assert(!search_filler().contains(w@)) by {
        if search_filler().contains(w@) {
            let j = choose|j: int| 0 <= j < 9 && search_filler()[j] == w@;
        }
    }
    false
}

/// The search query in a command: its words without the command's filler
/// words ("search", "for", "find", ...), joined by spaces.
pub fn search_query(args: &[String]) -> (r: String)
    ensures
        r@ == join(query_words(string_views(args@)), " "@),
{
    let ghost a = string_views(args@);
    let mut kept: Vec<Vec<char>> = Vec::new();
    let mut i: usize = 0;
    while i < args.len()
        invariant
            i <= args.len(),
            a == string_views(args@),
            view_all(kept@) == query_words(a.take(i as int)),
        decreases args.len() - i,
    {
        assert(a.take(i + 1).drop_last() =~= a.take(i as int));
        assert(a.take(i + 1).last() == args@[i as int]@);
        let ghost before = view_all(kept@);
        if !is_filler(args[i].as_str()) {
            kept.push(chars_of(args[i].as_str()));
            assert(view_all(kept@) =~= before.push(args@[i as int]@));
        }
        i += 1;
    }
    assert(a.take(args.len() as int) =~= a);
    let sep = chars_of(" ");
    let joined = join_words(&kept, sep.as_slice());
    string_of(joined.as_slice())
}

// ---------------------------------------------------------------------------
// Subtitles
// ---------------------------------------------------------------------------

/// The characters of `s` outside `<...>` tags, and whether `s` ends inside a tag.
pub open spec fn untagged(s: Seq<char>) -> (Seq<char>, bool)
    decreases s.len(),
{
    if s.len() == 0 {
        (seq![], false)
    } else {
        let (out, in_tag) = untagged(s.drop_last());
        let c = s.last();
        if c == '<' {
            (out, true)
        } else if c == '>' {
            (out, false)
        } else if !in_tag {
            (out.push(c), in_tag)
        } else {
            (out, in_tag)
        }
    }
}

/// The text of a cue line: tags removed, then trimmed.
pub open spec fn stripped(s: Seq<char>) -> Seq<char> {
    trim(untagged(s).0)
}

proof fn lemma_untagged_no_brackets(s: Seq<char>)
    ensures
        forall|i: int|
            0 <= i < untagged(s).0.len() ==> #[trigger] untagged(s).0[i] != '<' && untagged(
                s,
            ).0[i] != '>',
    decreases s.len(),
{
    if s.len() > 0 {
        lemma_untagged_no_brackets(s.drop_last());
        let (p, _) = untagged(s.drop_last());
        let o = untagged(s).0;
        assert forall|i: int| 0 <= i < o.len() implies #[trigger] o[i] != '<' && o[i] != '>' by {
            if i < p.len() {
                assert(o[i] == p[i]);
            }
        }
    }
}

proof fn lemma_trim_sub(s: Seq<char>)
    ensures
        forall|i: int| 0 <= i < trim(s).len() ==> s.contains(#[trigger] trim(s)[i]),
    decreases s.len(),
{
    crate::text::words::lemma_trim_is_subrange(s);
}

/// Removes `<...>` tags and trims the result.
pub fn strip_vtt_tags(s: &str) -> (r: String)
    ensures
        r@ == stripped(s@),
        forall|i: int| 0 <= i < r@.len() ==> #[trigger] r@[i] != '<' && r@[i] != '>',
{
    let cs = chars_of(s);
    let out = strip_chars(cs.as_slice());
    string_of(out.as_slice())
}

fn strip_chars(cs: &[char]) -> (r: Vec<char>)
    ensures
        r@ == stripped(cs@),
        forall|i: int| 0 <= i < r@.len() ==> #[trigger] r@[i] != '<' && r@[i] != '>',
{
    let mut out: Vec<char> = Vec::new();
    let mut in_tag = false;
    let mut i: usize = 0;
    while i < cs.len()
        invariant
            i <= cs.len(),
            (out@, in_tag) == untagged(cs@.take(i as int)),
        decreases cs.len() - i,
    {
        assert(cs@.take(i + 1).drop_last() =~= cs@.take(i as int));
        assert(cs@.take(i + 1).last() == cs@[i as int]);
        let c = cs[i];
        if c == '<' {
            in_tag = true;
        } else if c == '>' {
            in_tag = false;
        } else if !in_tag {
            out.push(c);
        }
        i += 1;
    }
    assert(cs@.take(cs.len() as int) =~= cs@);
    let r = trim_chars(out.as_slice());
    proof {
        lemma_untagged_no_brackets(cs@);
        lemma_trim_sub(out@);
        assert forall|i: int| 0 <= i < r@.len() implies #[trigger] r@[i] != '<' && r@[i] != '>' by {
            assert(out@.contains(r@[i]));
            let k = choose|k: int| 0 <= k < out@.len() && out@[k] == r@[i];
            assert(untagged(cs@).0[k] == out@[k]);
        }
    }
    r
}

/// `p` is a prefix of `s`.
pub open spec fn starts_with(s: Seq<char>, p: Seq<char>) -> bool {
    p.len() <= s.len() && s.take(p.len() as int) == p
}

/// Cue headers, notes, timing lines and cue numbers carry no spoken text.
pub open spec fn is_cue_metadata(line: Seq<char>) -> bool {
    ||| line.len() == 0
    ||| starts_with(line, "WEBVTT"@)
    ||| starts_with(line, "NOTE"@)
    ||| contains_seq(line, "-->"@)
    ||| is_ascii_digit_spec(line[0])
}

/// The spoken lines of the subtitle lines `ls`, tags stripped, with
/// consecutive repeats dropped, and the last line kept.
pub open spec fn spoken_lines(ls: Seq<Seq<char>>) -> (Seq<Seq<char>>, Seq<char>)
    decreases ls.len(),
{
    if ls.len() == 0 {
        (seq![], seq![])
    } else {
        let (kept, last) = spoken_lines(ls.drop_last());
        let line = trim(ls.last());
        if is_cue_metadata(line) {
            (kept, last)
        } else {
            let clean = stripped(line);
            if clean.len() == 0 || clean == last {
                (kept, last)
            } else {
                (kept.push(clean), clean)
            }
        }
    }
}

/// The spoken text of a WebVTT file: cue text lines, tags removed,
/// consecutive duplicates dropped, joined by spaces.
pub open spec fn vtt_text(vtt: Seq<char>) -> Seq<char> {
    join(spoken_lines(split_on(vtt, '\n')).0, " "@)
}

fn starts_with_exec(s: &[char], lit: &str) -> (r: bool)
    ensures
        r == starts_with(s@, lit@),
{
    let p = chars_of(lit);
    if p.len() > s.len() {
        return false;
    }
    let head = crate::text::chars::sub_chars(s, 0, p.len());
    assert(head@ =~= s@.take(p@.len() as int));
    chars_eq(head.as_slice(), p.as_slice())
}

fn is_cue_metadata_exec(line: &[char]) -> (r: bool)
    ensures
        r == is_cue_metadata(line@),
{
    line.len() == 0 || starts_with_exec(line, "WEBVTT") || starts_with_exec(line, "NOTE")
        || chars_have(line, "-->") || is_ascii_digit(line[0])
}

/// The spoken text of a WebVTT subtitle file.
pub fn vtt_to_plain_text(vtt: &str) -> (r: String)
    ensures
        r@ == vtt_text(vtt@),
{
    let cs = chars_of(vtt);
    let pieces = split_char(cs.as_slice(), '\n');
    let ghost ps = view_all(pieces@);
    let mut lines: Vec<Vec<char>> = Vec::new();
    let mut last: Vec<char> = Vec::new();
    let mut i: usize = 0;
    while i < pieces.len()
        invariant
            i <= pieces.len(),
            ps == view_all(pieces@),
            (view_all(lines@), last@) == spoken_lines(ps.take(i as int)),
        decreases pieces.len() - i,
    {
        assert(ps.take(i + 1).drop_last() =~= ps.take(i as int));
        assert(ps.take(i + 1).last() == pieces@[i as int]@);
        let line = trim_chars(pieces[i].as_slice());
        if !is_cue_metadata_exec(line.as_slice()) {
            let clean = strip_chars(line.as_slice());
            if !(clean.len() == 0 || chars_eq(clean.as_slice(), last.as_slice())) {
                let ghost before = view_all(lines@);
                last = copy_chars(clean.as_slice());
                lines.push(clean);
                assert(view_all(lines@) =~= before.push(last@));
            }
        }
        i += 1;
    }
    assert(ps.take(pieces.len() as int) =~= ps);
    let sep = chars_of(" ");
    let joined = join_words(&lines, sep.as_slice());
    string_of(joined.as_slice())
}

/// No two consecutive kept lines are the same.
pub proof fn lemma_no_repeated_lines(ls: Seq<Seq<char>>)
    ensures
        ({
            let (kept, last) = spoken_lines(ls);
            &&& kept.len() > 0 ==> last == kept.last()
            &&& kept.len() == 0 ==> last.len() == 0
            &&& forall|k: int| 0 <= k < kept.len() - 1 ==> #[trigger] kept[k] != kept[k + 1]
            &&& forall|k: int| 0 <= k < kept.len() ==> #[trigger] kept[k].len() > 0
        }),
    decreases ls.len(),
{
    if ls.len() > 0 {
        lemma_no_repeated_lines(ls.drop_last());
        let (kept, last) = spoken_lines(ls.drop_last());
        let (k2, l2) = spoken_lines(ls);
        assert forall|k: int| 0 <= k < k2.len() - 1 implies #[trigger] k2[k] != k2[k + 1] by {
            if k < kept.len() - 1 {
                assert(k2[k] == kept[k] && k2[k + 1] == kept[k + 1]);
            } else if k2.len() > kept.len() {
                assert(k2[k] == kept.last());
            }
        }
        assert forall|k: int| 0 <= k < k2.len() implies #[trigger] k2[k].len() > 0 by {
            if k < kept.len() {
                assert(k2[k] == kept[k]);
            }
        }
    }
}

// ---------------------------------------------------------------------------
// Search results
// ---------------------------------------------------------------------------

/// The four tab-separated fields of a result line printed by yt-dlp (id,
/// title, duration, live status); the last field keeps any further tabs.
/// `None` when the line has fewer than four fields.
pub open spec fn search_fields_of(line: Seq<char>) -> Option<Seq<Seq<char>>> {
    let p = split_on(line, '\t');
    if p.len() < 4 {
        None
    } else {
        Some(seq![p[0], p[1], p[2], join(p.skip(3), seq!['\t'])])
    }
}

/// Splits a result line into its four fields (see `search_fields_of`).
pub fn search_fields(line: &str) -> (r: Option<Vec<String>>)
    ensures
        match r {
            Some(v) => search_fields_of(line@) == Some(string_views(v@)),
            None => search_fields_of(line@).is_none(),
        },
{
    let cs = chars_of(line);
    let ps = split_char(cs.as_slice(), '\t');
    let ghost pv = view_all(ps@);
    if ps.len() < 4 {
        return None;
    }
    let mut rest: Vec<Vec<char>> = Vec::new();
    let mut k: usize = 3;
    while k < ps.len()
        invariant
            3 <= k <= ps@.len(),
            pv == view_all(ps@),
            view_all(rest@) == pv.subrange(3, k as int),
        decreases ps.len() - k,
    {
        let piece = copy_chars(ps[k].as_slice());
        assert(piece@ == pv[k as int]);
        let ghost before = rest@;
        assert(view_all(before).len() == before.len());
        assert(before.len() == k - 3);
        rest.push(piece);
        assert forall|j: int| 0 <= j < rest@.len() implies #[trigger] view_all(rest@)[j] == pv.subrange(
            3,
            k + 1,
        )[j] by {
            if j < before.len() {
                assert(rest@[j] == before[j]);
                assert(view_all(before)[j] == pv.subrange(3, k as int)[j]);
            } else {
                assert(j == k - 3);
                assert(rest@[j] == piece);
            }
        }
        assert(view_all(rest@) =~= pv.subrange(3, k + 1));
        k += 1;
    }
    assert(pv.subrange(3, ps@.len() as int) =~= pv.skip(3));
    let sep: [char; 1] = ['\t'];
    assert(sep@ =~= seq!['\t']);
    let last = join_words(&rest, sep.as_slice());
    let mut out: Vec<String> = Vec::new();
    out.push(string_of(ps[0].as_slice()));
    out.push(string_of(ps[1].as_slice()));
    out.push(string_of(ps[2].as_slice()));
    out.push(string_of(last.as_slice()));
    assert(string_views(out@) =~= seq![pv[0], pv[1], pv[2], join(pv.skip(3), seq!['\t'])]);
    Some(out)
}

/// A search result is offered when it is not live (its trimmed live status
/// is "NA") and its duration in whole seconds is known and at most five minutes.
pub open spec fn playable(live_status: Seq<char>, duration: int) -> bool {
    trim(live_status) == "NA"@ && duration != 0 && duration <= 300
}

/// Whether a search result is offered (see `playable`).
pub fn keep_hit(live_status: &str, duration: i64) -> (r: bool)
    ensures
        r == playable(live_status@, duration as int),
{
    let cs = chars_of(live_status);
    let t = trim_chars(cs.as_slice());
    chars_are(t.as_slice(), "NA") && duration != 0 && duration <= 300
}

/// The thumbnail image of a YouTube video.
pub fn thumbnail_url(video_id: &str) -> (r: String)
    ensures
        r@ == "https://i.ytimg.com/vi/"@ + video_id@ + "/hqdefault.jpg"@,
{
    let mut url = "https://i.ytimg.com/vi/".to_owned();
    url.append(video_id);
    url.append("/hqdefault.jpg");
    url
}

/// A parsed search result line.
#[derive(Debug, Clone)]
pub struct SearchCandidate {
    pub video_id: String,
    pub title: String,
    pub live_status: String,
    /// Whole seconds; 0 when the printed duration was not a number.
    pub duration: i64,
}

/// A search result offered to the frontend.
#[derive(Debug, Clone)]
pub struct SearchHit {
    pub video_id: String,
    pub title: String,
    pub thumbnail: String,
    pub duration: i64,
}

/// The candidates that are offered, in order.
pub open spec fn offered(cs: Seq<SearchCandidate>) -> Seq<SearchCandidate>
    decreases cs.len(),
{
    if cs.len() == 0 {
        seq![]
    } else {
        let p = offered(cs.drop_last());
        if playable(cs.last().live_status@, cs.last().duration as int) {
            p.push(cs.last())
        } else {
            p
        }
    }
}

/// `h` is the hit shown for candidate `c`.
pub open spec fn hit_of(c: SearchCandidate, h: SearchHit) -> bool {
    &&& h.video_id@ == c.video_id@
    &&& h.title@ == c.title@
    &&& h.thumbnail@ == "https://i.ytimg.com/vi/"@ + c.video_id@ + "/hqdefault.jpg"@
    &&& h.duration == c.duration
}

/// The search results shown: the first ten offered candidates, in order.
pub fn select_hits(candidates: &[SearchCandidate]) -> (r: Vec<SearchHit>)
    ensures
        r@.len() == if offered(candidates@).len() < 10 {
            offered(candidates@).len()
        } else {
            10
        },
        forall|i: int| 0 <= i < r@.len() ==> hit_of(offered(candidates@)[i], #[trigger] r@[i]),
{
    let mut out: Vec<SearchHit> = Vec::new();
    let mut i: usize = 0;
    while i < candidates.len() && out.len() < 10
        invariant
            i <= candidates@.len(),
            out@.len() <= 10,
            out@.len() == if offered(candidates@.take(i as int)).len() < 10 {
                offered(candidates@.take(i as int)).len()
            } else {
                10
            },
            forall|j: int|
                0 <= j < out@.len() ==> hit_of(
                    offered(candidates@.take(i as int))[j],
                    #[trigger] out@[j],
                ),
        decreases candidates.len() - i,
    {
        assert(candidates@.take(i + 1).drop_last() =~= candidates@.take(i as int));
        let c = &candidates[i];
        if keep_hit(c.live_status.as_str(), c.duration) {
            let h = SearchHit {
                video_id: c.video_id.clone(),
                title: c.title.clone(),
                thumbnail: thumbnail_url(c.video_id.as_str()),
                duration: c.duration,
            };
            out.push(h);
        }
        i += 1;
    }
    proof {
        lemma_offered_prefix(candidates@, i as int);
        if i == candidates.len() {
            assert(candidates@.take(i as int) =~= candidates@);
        }
    }
    out
}

/// The candidates offered from a prefix are a prefix of those offered from the whole.
proof fn lemma_offered_prefix(cs: Seq<SearchCandidate>, i: int)
    requires
        0 <= i <= cs.len(),
    ensures
        offered(cs.take(i)).len() <= offered(cs).len(),
        forall|j: int| 0 <= j < offered(cs.take(i)).len() ==> #[trigger] offered(cs)[j] == offered(cs.take(i))[j],
    decreases cs.len() - i,
{
    if i < cs.len() {
        lemma_offered_prefix(cs, i + 1);
        assert(cs.take(i + 1).drop_last() =~= cs.take(i));
    } else {
        assert(cs.take(i) =~= cs);
    }
}

/// The characters of a transcript that topic tags are inferred from.
pub const TAG_SAMPLE_CHARS: usize = 2000;

/// The start of a video's plain-text transcript used to infer its topic tags:
/// its first 2000 characters.
pub fn tag_sample(text: &str) -> (r: String)
    ensures
        r@ == if text@.len() <= TAG_SAMPLE_CHARS {
            text@
        } else {
            text@.take(TAG_SAMPLE_CHARS as int)
        },
{
    let cs = chars_of(text);
    if cs.len() <= TAG_SAMPLE_CHARS {
        return string_of(cs.as_slice());
    }
    let head = crate::text::chars::sub_chars(cs.as_slice(), 0, TAG_SAMPLE_CHARS);
    assert(head@ =~= cs@.take(TAG_SAMPLE_CHARS as int));
    string_of(head.as_slice())
}

} // verus!
