//! Voice command intents, their wire names, and the keyword classifier used
//! while the embedding classifier is not available.
use vstd::prelude::*;

use crate::text::chars::{chars_are, chars_have, chars_of, contains_seq, lowercase, to_lowercase};

verus! {

/// What a voice command asks for.
#[derive(Debug, Clone, Copy, PartialEq, Eq, Structural)]
pub enum Intent {
    Search,
    AddKid,
    MyAnswers,
    AddTag,
    MyVideos,
    AssignVideo,
    WatchVideo,
    Recommendations,
    DownloadVideo,
    // Pipeline-internal, never dispatched
    WakeOnly,
    Unhandled,
}

/// The snake_case wire name of each intent.
pub open spec fn intent_name(i: Intent) -> Seq<char> {
    match i {
        Intent::Search => "search"@,
        Intent::AddKid => "add_kid"@,
        Intent::MyAnswers => "my_answers"@,
        Intent::AddTag => "add_tag"@,
        Intent::MyVideos => "my_videos"@,
        Intent::AssignVideo => "assign_video"@,
        Intent::WatchVideo => "watch_video"@,
        Intent::Recommendations => "recommendations"@,
        Intent::DownloadVideo => "download_video"@,
        Intent::WakeOnly => "wake_only"@,
        Intent::Unhandled => "unhandled"@,
    }
}

/// The intent a classifier label names; unknown labels are `Unhandled`.
pub open spec fn intent_of_name(s: Seq<char>) -> Intent {
    if s == "search"@ {
        Intent::Search
    } else if s == "add_kid"@ {
        Intent::AddKid
    } else if s == "my_answers"@ {
        Intent::MyAnswers
    } else if s == "add_tag"@ {
        Intent::AddTag
    } else if s == "my_videos"@ {
        Intent::MyVideos
    } else if s == "assign_video"@ {
        Intent::AssignVideo
    } else if s == "watch_video"@ {
        Intent::WatchVideo
    } else if s == "recommendations"@ {
        Intent::Recommendations
    } else if s == "download_video"@ {
        Intent::DownloadVideo
    } else {
        Intent::Unhandled
    }
}

/// The keyword rules applied to the lowercased transcript `l`.
pub open spec fn keyword_intent(l: Seq<char>) -> Intent {
    if contains_seq(l, "my video"@) || contains_seq(l, "assigned"@) {
        Intent::MyVideos
    } else if contains_seq(l, "recommend"@) || contains_seq(l, "suggest"@) {
        Intent::Recommendations
    } else if contains_seq(l, "download"@) {
        Intent::DownloadVideo
    } else if contains_seq(l, "my answer"@) || contains_seq(l, "how did i do"@) {
        Intent::MyAnswers
    } else if contains_seq(l, "likes "@) || contains_seq(l, "loves "@) || contains_seq(
        l,
        "enjoys "@,
    ) || contains_seq(l, "i like "@) || contains_seq(l, "i love "@) || contains_seq(
        l,
        "interested in"@,
    ) {
        Intent::AddTag
    } else {
        Intent::Unhandled
    }
}

impl Intent {
    /// The intent named by a classifier label.
    pub fn from_str(s: &str) -> (r: Self)
        ensures
            r == intent_of_name(s@),
    {
        let cs = chars_of(s);
        let t = cs.as_slice();
        if chars_are(t, "search") {
            Intent::Search
        } else if chars_are(t, "add_kid") {
            Intent::AddKid
        } else if chars_are(t, "my_answers") {
            Intent::MyAnswers
        } else if chars_are(t, "add_tag") {
            Intent::AddTag
        } else if chars_are(t, "my_videos") {
            Intent::MyVideos
        } else if chars_are(t, "assign_video") {
            Intent::AssignVideo
        } else if chars_are(t, "watch_video") {
            Intent::WatchVideo
        } else if chars_are(t, "recommendations") {
            Intent::Recommendations
        } else if chars_are(t, "download_video") {
            Intent::DownloadVideo
        } else {
            Intent::Unhandled
        }
    }

    /// The snake_case wire name of the intent.
    pub fn as_str(&self) -> (r: &'static str)
        ensures
            r@ == intent_name(*self),
    {
        match self {
            Intent::Search => "search",
            Intent::AddKid => "add_kid",
            Intent::MyAnswers => "my_answers",
            Intent::AddTag => "add_tag",
            Intent::MyVideos => "my_videos",
            Intent::AssignVideo => "assign_video",
            Intent::WatchVideo => "watch_video",
            Intent::Recommendations => "recommendations",
            Intent::DownloadVideo => "download_video",
            Intent::WakeOnly => "wake_only",
            Intent::Unhandled => "unhandled",
        }
    }
}

/// Keyword rules used while the embedding classifier is unavailable.
pub fn keyword_fallback(text: &str) -> (r: Intent)
    ensures
        r == keyword_intent(lowercase(text@)),
{
    let cs = chars_of(text);
    let l = to_lowercase(cs.as_slice());
    keyword_intent_in(l.as_slice())
}

/// The keyword rules applied to already lowercased text.
pub fn keyword_intent_in(t: &[char]) -> (r: Intent)
    ensures
        r == keyword_intent(t@),
{
    if chars_have(t, "my video") || chars_have(t, "assigned") {
        return Intent::MyVideos;
    }
    if chars_have(t, "recommend") || chars_have(t, "suggest") {
        return Intent::Recommendations;
    }
    if chars_have(t, "download") {
        return Intent::DownloadVideo;
    }
    if chars_have(t, "my answer") || chars_have(t, "how did i do") {
        return Intent::MyAnswers;
    }
    if chars_have(t, "likes ") || chars_have(t, "loves ") || chars_have(t, "enjoys ") || chars_have(
        t,
        "i like ",
    ) || chars_have(t, "i love ") || chars_have(t, "interested in") {
        return Intent::AddTag;
    }
    Intent::Unhandled
}

/// Reading back the wire name of any intent but `WakeOnly` gives the intent
/// again; `WakeOnly` reads back as `Unhandled`.
pub proof fn lemma_intent_name_roundtrip(i: Intent)
    ensures
        i != Intent::WakeOnly ==> intent_of_name(intent_name(i)) == i,
        i == Intent::WakeOnly ==> intent_of_name(intent_name(i)) == Intent::Unhandled,
{
    reveal_strlit("search");
    reveal_strlit("add_kid");
    reveal_strlit("my_answers");
    reveal_strlit("add_tag");
    reveal_strlit("my_videos");
    reveal_strlit("assign_video");
    reveal_strlit("watch_video");
    reveal_strlit("recommendations");
    reveal_strlit("download_video");
    reveal_strlit("wake_only");
    reveal_strlit("unhandled");
    assert("search"@.len() == 6 && "search"@[0] == 's');
    assert("add_kid"@.len() == 7 && "add_kid"@[0] == 'a');
    assert("my_answers"@.len() == 10 && "my_answers"@[0] == 'm');
    assert("add_tag"@.len() == 7 && "add_tag"@[0] == 'a');
    assert("my_videos"@.len() == 9 && "my_videos"@[0] == 'm');
    assert("assign_video"@.len() == 12 && "assign_video"@[0] == 'a');
    assert("watch_video"@.len() == 11 && "watch_video"@[0] == 'w');
    assert("recommendations"@.len() == 15 && "recommendations"@[0] == 'r');
    assert("download_video"@.len() == 14 && "download_video"@[0] == 'd');
    assert("wake_only"@.len() == 9 && "wake_only"@[0] == 'w');
    assert("unhandled"@.len() == 9 && "unhandled"@[0] == 'u');
    assert("add_kid"@[4] == 'k' && "add_tag"@[4] == 't');
}

/// A label that names an intent is that intent's wire name.
pub proof fn lemma_name_of_recognised_label(s: Seq<char>)
    ensures
        intent_of_name(s) != Intent::Unhandled ==> intent_name(intent_of_name(s)) == s,
{
}

/// The keyword rules, each in its place in the order: a transcript is
/// classified by the first group of keywords it contains ("my video" or
/// "assigned"; "recommend" or "suggest"; "download"; "my answer" or
/// "how did i do"; an interest phrase), and one with none of them is not
/// understood.
pub proof fn lemma_keyword_rules(l: Seq<char>)
    ensures
        contains_seq(l, "my video"@) ==> keyword_intent(l) == Intent::MyVideos,
        contains_seq(l, "assigned"@) ==> keyword_intent(l) == Intent::MyVideos,
        !contains_seq(l, "my video"@) && !contains_seq(l, "assigned"@) ==> (contains_seq(
            l,
            "recommend"@,
        ) || contains_seq(l, "suggest"@) ==> keyword_intent(l) == Intent::Recommendations),
        !contains_seq(l, "my video"@) && !contains_seq(l, "assigned"@) && !contains_seq(
            l,
            "recommend"@,
        ) && !contains_seq(l, "suggest"@) ==> (contains_seq(l, "download"@) ==> keyword_intent(l)
            == Intent::DownloadVideo),
        !contains_seq(l, "my video"@) && !contains_seq(l, "assigned"@) && !contains_seq(
            l,
            "recommend"@,
        ) && !contains_seq(l, "suggest"@) && !contains_seq(l, "download"@) ==> (contains_seq(
            l,
            "my answer"@,
        ) || contains_seq(l, "how did i do"@) ==> keyword_intent(l) == Intent::MyAnswers),
        !contains_seq(l, "my video"@) && !contains_seq(l, "assigned"@) && !contains_seq(
            l,
            "recommend"@,
        ) && !contains_seq(l, "suggest"@) && !contains_seq(l, "download"@) && !contains_seq(
            l,
            "my answer"@,
        ) && !contains_seq(l, "how did i do"@) ==> (contains_seq(l, "likes "@) || contains_seq(
            l,
            "loves "@,
        ) || contains_seq(l, "enjoys "@) || contains_seq(l, "i like "@) || contains_seq(
            l,
            "i love "@,
        ) || contains_seq(l, "interested in"@) ==> keyword_intent(l) == Intent::AddTag),
        keyword_intent(l) == Intent::Unhandled <==> !(contains_seq(l, "my video"@) || contains_seq(
            l,
            "assigned"@,
        ) || contains_seq(l, "recommend"@) || contains_seq(l, "suggest"@) || contains_seq(
            l,
            "download"@,
        ) || contains_seq(l, "my answer"@) || contains_seq(l, "how did i do"@) || contains_seq(
            l,
            "likes "@,
        ) || contains_seq(l, "loves "@) || contains_seq(l, "enjoys "@) || contains_seq(
            l,
            "i like "@,
        ) || contains_seq(l, "i love "@) || contains_seq(l, "interested in"@)),
        keyword_intent(l) != Intent::Search && keyword_intent(l) != Intent::AddKid
            && keyword_intent(l) != Intent::AssignVideo && keyword_intent(l) != Intent::WatchVideo
            && keyword_intent(l) != Intent::WakeOnly,
{
}

} // verus!
