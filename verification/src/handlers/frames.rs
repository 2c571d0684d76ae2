//! Frame bookkeeping: the timestamp of each extracted frame, and the scene
//! changes that ffmpeg reports.
use vstd::prelude::*;

use crate::text::chars::{chars_of, find, first_occurrence, occurs_at, contains_seq, is_ascii_digit, is_ascii_digit_spec, string_of};
use crate::text::number::{zero_padded, zero_padded_chars};

verus! {

/// "mm:ss" for a number of seconds, each part at least two digits.
pub open spec fn clock_text(seconds: nat) -> Seq<char> {
    zero_padded(seconds / 60, 2) + seq![':'] + zero_padded(seconds % 60, 2)
}

/// Frames are extracted at one per second: the frame at `index` shows second
/// `index`. Returns the second and its "mm:ss" form.
pub fn frame_timestamp(index: usize) -> (r: (i32, String))
    requires
        index <= i32::MAX,
    ensures
        r.0 == index,
        r.1@ == clock_text(index as nat),
{
    let seconds = index as i32;
    let mut out = zero_padded_chars((seconds / 60) as u64, 2);
    out.push(':');
    let secs = zero_padded_chars((seconds % 60) as u64, 2);
    let ghost head = out@;
    let mut k: usize = 0;
    while k < secs.len()
        invariant
            k <= secs@.len(),
            out@ == head + secs@.take(k as int),
        decreases secs.len() - k,
    {
        out.push(secs[k]);
        assert(secs@.take(k + 1) =~= secs@.take(k as int).push(secs@[k as int]));
        k += 1;
    }
    assert(secs@.take(secs@.len() as int) =~= secs@);
    (seconds, string_of(out.as_slice()))
}

/// The run of digits and dots at the start of `s`.
pub open spec fn leading_number(s: Seq<char>) -> Seq<char>
    decreases s.len(),
{
    if s.len() > 0 && (is_ascii_digit_spec(s[0]) || s[0] == '.') {
        seq![s[0]] + leading_number(s.skip(1))
    } else {
        Seq::<char>::empty()
    }
}

/// The presentation time that a line of ffmpeg's `showinfo` output reports:
/// the digits and dots after the first "pts_time:"; `None` when the line
/// has no such field.
pub open spec fn pts_time_of(line: Seq<char>) -> Option<Seq<char>> {
    if contains_seq(line, "pts_time:"@) {
        let i = choose|i: int| first_occurrence(line, "pts_time:"@, i);
        Some(leading_number(line.skip(i + 9)))
    } else {
        None
    }
}

/// Reads the presentation time text of a `showinfo` line (see `pts_time_of`).
pub fn pts_time_text(line: &str) -> (r: Option<String>)
    ensures
        match r {
            Some(t) => pts_time_of(line@) == Some(t@),
            None => pts_time_of(line@).is_none(),
        },
{
    let cs = chars_of(line);
    let needle = chars_of("pts_time:");
    proof {
        reveal_strlit("pts_time:");
    }
    match find(cs.as_slice(), needle.as_slice()) {
        None => None,
        Some(pos) => {
            proof {
                let i = choose|i: int| first_occurrence(cs@, needle@, i);
                assert(i == pos) by {
                    if i < pos {
                    } else if pos < i {
                    }
                }
                assert(needle@.len() == 9);
                assert(occurs_at(cs@, needle@, pos as int));
            }
            let n = cs.len();
            assert(pos + 9 <= n);
            let start = pos + 9;
            let mut out: Vec<char> = Vec::new();
            let mut k: usize = start;
            while k < cs.len() && (is_ascii_digit(cs[k]) || cs[k] == '.')
                invariant
                    start <= k <= cs@.len(),
                    start == pos + 9,
                    pos + 9 <= cs@.len(),
                    leading_number(cs@.skip(start as int)) == out@ + leading_number(cs@.skip(k as int)),
                decreases cs.len() - k,
            {
                assert(cs@.skip(k as int).skip(1) =~= cs@.skip(k + 1));
                out.push(cs[k]);
                k += 1;
            }
            Some(string_of(out.as_slice()))
        },
    }
}

/// Whether the frame at second `ts` starts a scene: 1 if it does, else 0,
/// as the database stores it.
pub fn keyframe_flag(scene_seconds: &[i32], ts: i32) -> (r: i32)
    ensures
        r == if scene_seconds@.contains(ts) {
            1i32
        } else {
            0i32
        },
{
    let mut i: usize = 0;
    while i < scene_seconds.len()
        invariant
            i <= scene_seconds@.len(),
            forall|j: int| 0 <= j < i ==> scene_seconds@[j] != ts,
        decreases scene_seconds.len() - i,
    {
        if scene_seconds[i] == ts {
            return 1;
        }
        i += 1;
    }
    0
}

} // verus!
