//! Speech-to-text decoding bookkeeping: the names of the key/value cache
//! tensors passed between decoder steps, and the token ids handed to the
//! tokenizer.
use vstd::prelude::*;

use crate::text::chars::{chars_of, lowercase, string_of, to_lowercase};
use crate::text::words::{trim, trim_chars};
use crate::text::number::{decimal, decimal_chars};
use crate::voice::command::string_views;

verus! {

/// Start-of-transcript token.
pub const SOT: i32 = 1;

/// End-of-transcript token.
pub const EOT: i32 = 2;

/// Transformer layers; each contributes four cache tensors.
pub const N_LAYERS: usize = 6;

/// Base names of the uncached decoder's cache outputs, one per layer.
pub open spec fn uncached_bases() -> Seq<Seq<char>> {
    seq![
        "functional_22"@,
        "functional_25"@,
        "functional_28"@,
        "functional_31"@,
        "functional_34"@,
        "functional_37"@,
    ]
}

/// Base names of the cached decoder's cache outputs and their input layer index.
pub open spec fn cached_bases() -> Seq<(Seq<char>, nat)> {
    seq![
        ("functional_23"@, 102nat),
        ("functional_26"@, 106nat),
        ("functional_29"@, 110nat),
        ("functional_32"@, 114nat),
        ("functional_35"@, 118nat),
        ("functional_38"@, 122nat),
    ]
}

/// The four cache output names of the uncached decoder for layer base `b`, at position `m`.
pub open spec fn uncached_name(b: Seq<char>, m: int) -> Seq<char> {
    if m == 0 {
        b
    } else if m == 1 {
        b + "_1"@
    } else if m == 2 {
        b + "_2"@
    } else {
        b + "_3"@
    }
}

/// The four cache output names of the cached decoder for layer base `b`
/// with input layer `l`, at position `m`.
pub open spec fn cached_name(b: Seq<char>, l: nat, m: int) -> Seq<char> {
    if m == 0 {
        b
    } else if m == 1 {
        b + "_1"@
    } else if m == 2 {
        "input_layer_"@ + decimal(l)
    } else {
        "input_layer_"@ + decimal(l + 1)
    }
}

fn concat(a: &str, b: &str) -> (r: String)
    ensures
        r@ == a@ + b@,
{
    let mut s = a.to_owned();
    s.append(b);
    s
}

/// The cache output names of the first decoder step, four per layer in layer order.
pub fn uncached_output_names() -> (r: Vec<String>)
    ensures
        r@.len() == 4 * N_LAYERS,
        forall|j: int, m: int|
            0 <= j < 6 && 0 <= m < 4 ==> #[trigger] r@[4 * j + m]@ == uncached_name(
                uncached_bases()[j],
                m,
            ),
{
    let bases: [&str; 6] = [
        "functional_22",
        "functional_25",
        "functional_28",
        "functional_31",
        "functional_34",
        "functional_37",
    ];
    assert(forall|j: int| 0 <= j < 6 ==> #[trigger] bases@[j]@ == uncached_bases()[j]);
    let mut out: Vec<String> = Vec::new();
    let mut j: usize = 0;
    while j < 6
        invariant
            j <= 6,
            out@.len() == 4 * j,
            forall|k: int| 0 <= k < 6 ==> #[trigger] bases@[k]@ == uncached_bases()[k],
            forall|jj: int, m: int|
                0 <= jj < j && 0 <= m < 4 ==> #[trigger] out@[4 * jj + m]@ == uncached_name(
                    uncached_bases()[jj],
                    m,
                ),
        decreases 6 - j,
    {
        let b = bases[j];
        out.push(b.to_owned());
        out.push(concat(b, "_1"));
        out.push(concat(b, "_2"));
        out.push(concat(b, "_3"));
        assert forall|jj: int, m: int| 0 <= jj < j + 1 && 0 <= m < 4 implies #[trigger] out@[4
            * jj + m]@ == uncached_name(uncached_bases()[jj], m) by {
            if jj == j {
                assert(out@[4 * jj + m] == out@[4 * j + m]);
            }
        }
        j += 1;
    }
    out
}

/// The cache output names of the later decoder steps, four per layer in layer order.
pub fn cached_output_names() -> (r: Vec<String>)
    ensures
        r@.len() == 4 * N_LAYERS,
        forall|j: int, m: int|
            0 <= j < 6 && 0 <= m < 4 ==> #[trigger] r@[4 * j + m]@ == cached_name(
                cached_bases()[j].0,
                cached_bases()[j].1,
                m,
            ),
{
    let bases: [(&str, u64); 6] = [
        ("functional_23", 102),
        ("functional_26", 106),
        ("functional_29", 110),
        ("functional_32", 114),
        ("functional_35", 118),
        ("functional_38", 122),
    ];
    assert(forall|j: int|
        #![trigger bases@[j]]
        0 <= j < 6 ==> bases@[j].0@ == cached_bases()[j].0 && bases@[j].1
            == cached_bases()[j].1 && bases@[j].1 <= 122);
    let mut out: Vec<String> = Vec::new();
    let mut j: usize = 0;
    while j < 6
        invariant
            j <= 6,
            out@.len() == 4 * j,
            forall|k: int|
                #![trigger bases@[k]]
                0 <= k < 6 ==> bases@[k].0@ == cached_bases()[k].0 && bases@[k].1
                    == cached_bases()[k].1 && bases@[k].1 <= 122,
            forall|jj: int, m: int|
                0 <= jj < j && 0 <= m < 4 ==> #[trigger] out@[4 * jj + m]@ == cached_name(
                    cached_bases()[jj].0,
                    cached_bases()[jj].1,
                    m,
                ),
        decreases 6 - j,
    {
        let (b, layer) = bases[j];
        assert(bases@[j as int].1 <= 122);
        out.push(b.to_owned());
        out.push(concat(b, "_1"));
        let d0 = string_of(decimal_chars(layer).as_slice());
        out.push(concat("input_layer_", d0.as_str()));
        let d1 = string_of(decimal_chars(layer + 1).as_slice());
        out.push(concat("input_layer_", d1.as_str()));
        assert forall|jj: int, m: int| 0 <= jj < j + 1 && 0 <= m < 4 implies #[trigger] out@[4
            * jj + m]@ == cached_name(cached_bases()[jj].0, cached_bases()[jj].1, m) by {
            if jj == j {
                assert(out@[4 * jj + m] == out@[4 * j + m]);
            }
        }
        j += 1;
    }
    out
}

/// The token ids the tokenizer decodes: the generated tokens without the
/// start and end markers and without negative values, in order.
pub open spec fn text_tokens(tokens: Seq<i32>) -> Seq<u32>
    decreases tokens.len(),
{
    if tokens.len() == 0 {
        seq![]
    } else {
        let p = text_tokens(tokens.drop_last());
        let t = tokens.last();
        if t != SOT && t != EOT && t >= 0 {
            p.push(t as u32)
        } else {
            p
        }
    }
}

/// The token ids to decode into text.
pub fn token_ids(tokens: &[i32]) -> (r: Vec<u32>)
    ensures
        r@ == text_tokens(tokens@),
{
    let mut out: Vec<u32> = Vec::new();
    let mut i: usize = 0;
    while i < tokens.len()
        invariant
            i <= tokens.len(),
            out@ == text_tokens(tokens@.take(i as int)),
        decreases tokens.len() - i,
    {
        assert(tokens@.take(i + 1).drop_last() =~= tokens@.take(i as int));
        let t = tokens[i];
        if t != SOT && t != EOT && t >= 0 {
            out.push(t as u32);
        }
        i += 1;
    }
    assert(tokens@.take(tokens.len() as int) =~= tokens@);
    out
}

/// The transcript made of the tokenizer's decoded text: trimmed and lower-cased,
/// empty where decoding failed.
pub fn transcript_text(decoded: Option<&str>) -> (r: String)
    ensures
        r@ == match decoded {
            Some(d) => lowercase(trim(d@)),
            None => Seq::<char>::empty(),
        },
{
    match decoded {
        Some(d) => {
            let cs = chars_of(d);
            let t = trim_chars(cs.as_slice());
            let l = to_lowercase(t.as_slice());
            string_of(l.as_slice())
        },
        None => String::new(),
    }
}

} // verus!
