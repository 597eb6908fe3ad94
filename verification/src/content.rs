//! The content type of an asset, told by the ending of its name.

use vstd::prelude::*;

verus! {

/// Whether `name` ends with `ending`.
pub open spec fn ends_with(name: Seq<char>, ending: Seq<char>) -> bool {
    ending.len() <= name.len() && name.subrange(name.len() - ending.len(), name.len() as int)
        == ending
}

/// The content type for a name: decided by the first ending in this list
/// that the name has.
pub open spec fn content_type_of(name: Seq<char>) -> Seq<char> {
    if ends_with(name, ".html"@) {
        "text/html"@
    } else if ends_with(name, ".js"@) {
        "text/javascript"@
    } else if ends_with(name, ".css"@) {
        "text/css"@
    } else if ends_with(name, ".txt"@) {
        "text/plain"@
    } else if ends_with(name, ".md"@) {
        "text/markdown"@
    } else {
        "application/octet-stream"@
    }
}

/// Tests whether `name` ends with `ending`.
pub fn has_ending(name: &str, ending: &str) -> (r: bool)
    ensures
        r == ends_with(name@, ending@),
{
    let n = name.unicode_len();
    let m = ending.unicode_len();
    if m > n {
        return false;
    }
    let start = n - m;
    let mut i: usize = 0;
    while i < m
        invariant
            i <= m,
            m <= n,
            start == n - m,
            n == name@.len(),
            m == ending@.len(),
            forall|j: int| 0 <= j < i ==> name@[start + j] == ending@[j],
        decreases m - i,
    {
        if name.get_char(start + i) != ending.get_char(i) {
            proof {
                let tail = name@.subrange(name@.len() - ending@.len(), name@.len() as int);
                assert(tail[i as int] == name@[start + i]);
            }
            return false;
        }
        i = i + 1;
    }
    proof {
        assert(name@.subrange(name@.len() - ending@.len(), name@.len() as int) =~= ending@);
    }
    true
}

pub fn get_content_type(name: &str) -> (r: String)
    ensures
        r@ == content_type_of(name@),
{
    if has_ending(name, ".html") {
        String::from_str("text/html")
    } else if has_ending(name, ".js") {
        String::from_str("text/javascript")
    } else if has_ending(name, ".css") {
        String::from_str("text/css")
    } else if has_ending(name, ".txt") {
        String::from_str("text/plain")
    } else if has_ending(name, ".md") {
        String::from_str("text/markdown")
    } else {
        String::from_str("application/octet-stream")
    }
}

} // verus!
