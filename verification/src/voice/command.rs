//! Turning a transcript into a resolved voice command.
use vstd::prelude::*;

use crate::text::chars::{chars_of, string_of};
use crate::text::normalize::{normalize_chars, normalized};
use crate::text::words::{split_words, trim, trim_chars, view_all, words};
use crate::voice::intent::Intent;

verus! {

/// A classified voice command: its intent, its words and the raw transcript.
#[derive(Debug, Clone)]
pub struct ResolvedCommand {
    pub intent: Intent,
    pub args: Vec<String>,
    pub raw: String,
}

/// A transcript made ready for classification.
#[derive(Debug, Clone)]
pub struct PreparedCommand {
    /// The trimmed transcript.
    pub raw: String,
    /// The normalised transcript, which the intent classifier reads.
    pub clean: String,
    /// The words of `clean`.
    pub tokens: Vec<String>,
}

/// The character sequences of a vector of strings.
pub open spec fn string_views(v: Seq<String>) -> Seq<Seq<char>> {
    Seq::new(v.len(), |k: int| v[k]@)
}

impl PreparedCommand {
    /// What `prepare_command` makes of `transcript`.
    pub open spec fn prepared_from(self, transcript: Seq<char>) -> bool {
        &&& self.raw@ == trim(transcript)
        &&& self.clean@ == normalized(trim(transcript))
        &&& string_views(self.tokens@) == words(self.clean@)
    }

    /// Whether the command has any words for the classifier to read.
    pub fn needs_intent(&self) -> (r: bool)
        ensures
            r == (self.clean@.len() > 0),
    {
        let cs = chars_of(self.clean.as_str());
        cs.len() > 0
    }
}

/// Strings holding the given character vectors.
pub fn strings_of(ws: &Vec<Vec<char>>) -> (out: Vec<String>)
    ensures
        string_views(out@) == view_all(ws@),
{
    let mut out: Vec<String> = Vec::new();
    let mut i: usize = 0;
    while i < ws.len()
        invariant
            i <= ws.len(),
            out@.len() == i,
            string_views(out@) == view_all(ws@).take(i as int),
        decreases ws.len() - i,
    {
        let s = string_of(ws[i].as_slice());
        let ghost before = out@;
        out.push(s);
        assert(out@ == before.push(s));
        assert forall|k: int| 0 <= k < i + 1 implies #[trigger] string_views(out@)[k] == view_all(
            ws@,
        ).take(i + 1)[k] by {
            if k < i {
                assert(out@[k] == before[k]);
                assert(string_views(before)[k] == view_all(ws@).take(i as int)[k]);
            } else {
                assert(out@[k] == s);
            }
        }
        assert(string_views(out@) =~= view_all(ws@).take(i + 1));
        i += 1;
    }
    assert(view_all(ws@).take(ws.len() as int) =~= view_all(ws@));
    out
}

/// Trims and normalises a transcript and splits it into words.
pub fn prepare_command(transcript: &str) -> (r: PreparedCommand)
    ensures
        r.prepared_from(transcript@),
{
    let cs = chars_of(transcript);
    let raw = trim_chars(cs.as_slice());
    let clean = normalize_chars(raw.as_slice());
    let ws = split_words(clean.as_slice());
    let tokens = strings_of(&ws);
    PreparedCommand { raw: string_of(raw.as_slice()), clean: string_of(clean.as_slice()), tokens }
}

/// Completes a prepared command with the classifier's intent. A command with
/// no words is a bare wake (`WakeOnly`) whatever the classifier said.
pub fn resolve(prepared: PreparedCommand, intent: Intent) -> (r: ResolvedCommand)
    ensures
        r.raw == prepared.raw,
        r.args == prepared.tokens,
        r.intent == (if prepared.clean@.len() == 0 {
            Intent::WakeOnly
        } else {
            intent
        }),
{
    let empty = !prepared.needs_intent();
    let intent = if empty {
        Intent::WakeOnly
    } else {
        intent
    };
    ResolvedCommand { intent, args: prepared.tokens, raw: prepared.raw }
}

/// A command with no words has no arguments.
pub proof fn lemma_blank_command_has_no_args(p: PreparedCommand, transcript: Seq<char>)
    requires
        p.prepared_from(transcript),
        p.clean@.len() == 0,
    ensures
        p.tokens@.len() == 0,
{
    assert(p.clean@ =~= Seq::<char>::empty());
    assert(words(Seq::<char>::empty()).len() == 0);
    assert(string_views(p.tokens@).len() == p.tokens@.len());
}

} // verus!
