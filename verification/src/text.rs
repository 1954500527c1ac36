//! Characters and names: what counts as whitespace in a list of algorithm
//! names, and which strings can serve as the name of an algorithm.

use vstd::prelude::*;
use vstd::utf8::{encode_utf8, encode_utf8_decode_utf8};

verus! {

/// The six characters of ASCII that are whitespace: the space, and the
/// controls from the tab to the carriage return, which are tab, line feed,
/// vertical tab, form feed and carriage return.
pub open spec fn is_ascii_whitespace(c: char) -> bool {
    c == ' ' || '\t' <= c <= '\r'
}

/// A character that may stand in the name of an algorithm: printable ASCII
/// other than the space and the comma.
pub open spec fn is_token_char(c: char) -> bool {
    '!' <= c <= '~' && c != ','
}

/// A name that can be one item of a comma-separated list and the whole value
/// of a header field: not empty, and made of token characters only.
pub open spec fn is_token(name: Seq<char>) -> bool {
    &&& name.len() > 0
    &&& forall|i: int| 0 <= i < name.len() ==> is_token_char(#[trigger] name[i])
}

/// Whether `c` is ASCII whitespace.
pub fn ascii_whitespace(c: char) -> (yes: bool)
    ensures
        yes == is_ascii_whitespace(c),
{
    c == ' ' || ('\t' <= c && c <= '\r')
}

/// Whether `name` is a token.
pub fn token(name: &str) -> (yes: bool)
    ensures
        yes == is_token(name@),
{
    let mut seen = false;
    for c in it: name.chars()
        invariant
            it.seq() == name@,
            seen == (it.index() > 0),
            forall|i: int| 0 <= i < it.index() ==> is_token_char(#[trigger] name@[i]),
    {
        if !('!' <= c && c <= '~' && c != ',') {
            return false;
        }
        seen = true;
    }
    seen
}

/// The characters of `text`, one element each.
pub fn chars_of(text: &str) -> (chars: Vec<char>)
    ensures
        chars@ == text@,
{
    let mut chars: Vec<char> = Vec::new();
    for c in it: text.chars()
        invariant
            it.seq() == text@,
            chars@ == text@.take(it.index() as int),
    {
        chars.push(c);
    }
    chars
}

/// Whether two strings hold the same characters: they do exactly when they
/// hold the same bytes.
pub(crate) fn str_eq(a: &str, b: &str) -> (same: bool)
    ensures
        same == (a@ == b@),
{
    let left = a.as_bytes();
    let right = b.as_bytes();
    proof {
        encode_utf8_decode_utf8(a@);
        encode_utf8_decode_utf8(b@);
    }
    if left.len() != right.len() {
        return false;
    }
    let mut i: usize = 0;
    while i < left.len()
        invariant
            i <= left.len(),
            left.len() == right.len(),
            left@ == encode_utf8(a@),
            right@ == encode_utf8(b@),
            forall|j: int| 0 <= j < i ==> left@[j] == right@[j],
        decreases left.len() - i,
    {
        if left[i] != right[i] {
            return false;
        }
        i = i + 1;
    }
    assert(left@ =~= right@);
    true
}

} // verus!
