//! Topic tags: the form under which a tag name is stored.
use vstd::prelude::*;

use crate::text::chars::{chars_of, lowercase, string_of, to_lowercase};
use crate::text::words::{trim, trim_chars};

verus! {

/// The stored form of a tag name: trimmed and lower-cased, so that "Space "
/// and "space" name the same tag.
pub fn tag_name(name: &str) -> (r: String)
    ensures
        r@ == lowercase(trim(name@)),
{
    let cs = chars_of(name);
    let t = trim_chars(cs.as_slice());
    let l = to_lowercase(t.as_slice());
    string_of(l.as_slice())
}

} // verus!
