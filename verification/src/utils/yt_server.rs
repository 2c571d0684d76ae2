//! The local page that embeds a YouTube video: reading the video id from the
//! request, and the page served for it.
use vstd::prelude::*;

use crate::text::chars::{chars_of, chars_eq, string_of};
use crate::text::number::{decimal, decimal_chars};
use crate::text::replace::{split_char, split_on};
use crate::text::words::view_all;

verus! {

/// The port the embed server listens on.
pub const DEFAULT_PORT: u16 = 9876;

/// `s` with every leading "v=" removed.
pub open spec fn strip_v_prefixes(s: Seq<char>) -> Seq<char>
    decreases s.len(),
{
    if s.len() >= 2 && s[0] == 'v' && s[1] == '=' {
        strip_v_prefixes(s.skip(2))
    } else {
        s
    }
}

/// The first query parameter (among `ps[k..]`) that starts with "v=".
pub open spec fn first_v_param(ps: Seq<Seq<char>>) -> Option<Seq<char>>
    decreases ps.len(),
{
    if ps.len() == 0 {
        None
    } else if ps[0].len() >= 2 && ps[0][0] == 'v' && ps[0][1] == '=' {
        Some(ps[0])
    } else {
        first_v_param(ps.drop_first())
    }
}

/// The video id in a request URL like "/embed?v=VIDEO_ID": the value of the
/// first "v=" parameter of the text after the first '?' and before any
/// second one; empty when there is none.
pub open spec fn video_id_in(url: Seq<char>) -> Seq<char> {
    let pieces = split_on(url, '?');
    if pieces.len() < 2 {
        seq![]
    } else {
        match first_v_param(split_on(pieces[1], '&')) {
            Some(p) => strip_v_prefixes(p),
            None => seq![],
        }
    }
}

fn strip_v(s: &[char]) -> (r: Vec<char>)
    ensures
        r@ == strip_v_prefixes(s@),
{
    let mut i: usize = 0;
    assert(s@.skip(0) =~= s@);
    while s.len() - i >= 2 && s[i] == 'v' && s[i + 1] == '='
        invariant
            i <= s@.len(),
            strip_v_prefixes(s@) == strip_v_prefixes(s@.skip(i as int)),
        decreases s.len() - i,
    {
        assert(s@.skip(i as int).skip(2) =~= s@.skip(i + 2));
        i += 2;
    }
    crate::text::chars::sub_chars(s, i, s.len())
}

/// Reads the video id from a request URL; empty when there is none.
pub fn video_id_from_url(url: &str) -> (r: String)
    ensures
        r@ == video_id_in(url@),
{
    let cs = chars_of(url);
    let pieces = split_char(cs.as_slice(), '?');
    if pieces.len() < 2 {
        return String::new();
    }
    let params = split_char(pieces[1].as_slice(), '&');
    let ghost ps = view_all(params@);
    assert(ps.skip(0) =~= ps);
    assert(view_all(pieces@)[1] == pieces@[1]@);
    let mut k: usize = 0;
    while k < params.len()
        invariant
            k <= params.len(),
            ps == view_all(params@),
            first_v_param(ps) == first_v_param(ps.skip(k as int)),
            pieces@.len() >= 2,
            view_all(pieces@) == split_on(url@, '?'),
            ps == split_on(pieces@[1]@, '&'),
        decreases params.len() - k,
    {
        assert(ps.skip(k as int)[0] == params@[k as int]@);
        assert(ps.skip(k as int).drop_first() =~= ps.skip(k + 1));
        let p = &params[k];
        if p.len() >= 2 && p[0] == 'v' && p[1] == '=' {
            assert(first_v_param(ps.skip(k as int)) == Some(p@));
            assert(view_all(pieces@)[1] == pieces@[1]@);
            let v = strip_v(p.as_slice());
            return string_of(v.as_slice());
        }
        k += 1;
    }
    assert(ps.skip(k as int) =~= Seq::<Seq<char>>::empty());
    String::new()
}

/// The embedding page for a video id and the server's port.
pub open spec fn embed_page(video_id: Seq<char>, port: u16) -> Seq<char> {
    "<!DOCTYPE html>\n<html>\n<head>\n<meta charset=\"utf-8\">\n<style>\n  * { margin: 0; padding: 0; box-sizing: border-box; }\n  html, body { width: 100%; height: 100%; overflow: hidden; background: #000; }\n  iframe { width: 100%; height: 100%; border: none; display: block; }\n</style>\n</head>\n<body>\n<iframe\n  src=\"https://www.youtube-nocookie.com/embed/"@ + video_id + "?autoplay=1&enablejsapi=1&controls=0&disablekb=1&modestbranding=1&rel=0&iv_load_policy=3&playsinline=1&origin=http://127.0.0.1:"@ + decimal(port as nat) + "&vq=medium\"\n  allow=\"accelerometer; autoplay; clipboard-write; encrypted-media; gyroscope; picture-in-picture\"\n  allowfullscreen>\n</iframe>\n</body>\n</html>"@
}

/// The HTML page that embeds `video_id`, served from `port`.
pub fn embed_html(video_id: &str, port: u16) -> (r: String)
    ensures
        r@ == embed_page(video_id@, port),
{
    let mut html = "<!DOCTYPE html>\n<html>\n<head>\n<meta charset=\"utf-8\">\n<style>\n  * { margin: 0; padding: 0; box-sizing: border-box; }\n  html, body { width: 100%; height: 100%; overflow: hidden; background: #000; }\n  iframe { width: 100%; height: 100%; border: none; display: block; }\n</style>\n</head>\n<body>\n<iframe\n  src=\"https://www.youtube-nocookie.com/embed/".to_owned();
    html.append(video_id);
    html.append("?autoplay=1&enablejsapi=1&controls=0&disablekb=1&modestbranding=1&rel=0&iv_load_policy=3&playsinline=1&origin=http://127.0.0.1:");
    let digits = decimal_chars(port as u64);
    let d = string_of(digits.as_slice());
    html.append(d.as_str());
    html.append("&vq=medium\"\n  allow=\"accelerometer; autoplay; clipboard-write; encrypted-media; gyroscope; picture-in-picture\"\n  allowfullscreen>\n</iframe>\n</body>\n</html>");
    html
}

/// The port the embed server runs on: the one it was started on, else the default.
pub fn get_port(started: Option<u16>) -> (r: u16)
    ensures
        r == match started {
            Some(p) => p,
            None => DEFAULT_PORT,
        },
{
    match started {
        Some(p) => p,
        None => DEFAULT_PORT,
    }
}

/// The port to start the embed server on; `None` when it already runs.
pub fn port_to_start(started: Option<u16>) -> (r: Option<u16>)
    ensures
        r == match started {
            Some(_) => None,
            None => Some(DEFAULT_PORT),
        },
{
    match started {
        Some(_) => None,
        None => Some(DEFAULT_PORT),
    }
}

/// The answer to one request: 400 with "missing video id" when the URL names
/// no video, else 200 with the embedding page.
pub fn embed_response(url: &str, port: u16) -> (r: (u16, String))
    ensures
        video_id_in(url@).len() == 0 ==> r.0 == 400 && r.1@ == "missing video id"@,
        video_id_in(url@).len() > 0 ==> r.0 == 200 && r.1@ == embed_page(video_id_in(url@), port),
{
    let video_id = video_id_from_url(url);
    if video_id.as_str().unicode_len() == 0 {
        (400, "missing video id".to_owned())
    } else {
        (200, embed_html(video_id.as_str(), port))
    }
}

} // verus!
