//! Byte-level text helpers: substring search over UTF-8 byte sequences and
//! note-name validation.

use vstd::prelude::*;
use vstd::string::StringSliceAdditionalSpecFns;

verus! {

/// `needle` occurs contiguously inside `hay`.
pub open spec fn contains_sub(hay: Seq<u8>, needle: Seq<u8>) -> bool {
    exists|i: int|
        0 <= i && i + needle.len() <= hay.len() && #[trigger] hay.subrange(i, i + needle.len())
            == needle
}

/// `needle` occurs in `hay` starting at position `at`.
fn matches_at(hay: &[u8], needle: &[u8], at: usize) -> (r: bool)
    requires
        at + needle@.len() <= hay@.len(),
    ensures
        r == (hay@.subrange(at as int, at + needle@.len()) == needle@),
{
    let n = needle.len();
    let hl = hay.len();
    let mut j: usize = 0;
    while j < n
        invariant
            n == needle@.len(),
            hl == hay@.len(),
            at + n <= hay@.len(),
            0 <= j <= n,
            forall|k: int| 0 <= k < j ==> hay@[at + k] == needle@[k],
        decreases n - j,
    {
        if hay[at + j] != needle[j] {
            assert(hay@.subrange(at as int, at + needle@.len())[j as int] != needle@[j as int]);
            return false;
        }
        j += 1;
    }
    assert(hay@.subrange(at as int, at + needle@.len()) =~= needle@);
    true
}

/// Substring search: does `needle` occur anywhere in `hay`?
pub fn contains_subslice(hay: &[u8], needle: &[u8]) -> (r: bool)
    ensures
        r == contains_sub(hay@, needle@),
{
    let h = hay.len();
    let n = needle.len();
    if n > h {
        assert(!contains_sub(hay@, needle@)) by {
            if contains_sub(hay@, needle@) {
                let i = choose|i: int|
                    0 <= i && i + needle@.len() <= hay@.len() && #[trigger] hay@.subrange(
                        i,
                        i + needle@.len(),
                    ) == needle@;
                assert(needle@.len() <= hay@.len());
            }
        }
        return false;
    }
    if n == 0 {
        assert(hay@.subrange(0, 0 + needle@.len() as int) =~= needle@);
        return true;
    }
    let mut i: usize = 0;
    while i <= h - n
        invariant
            h == hay@.len(),
            n == needle@.len(),
            1 <= n <= h,
            0 <= i <= h - n + 1,
            forall|k: int|
                0 <= k < i ==> #[trigger] hay@.subrange(k, k + needle@.len()) != needle@,
        decreases h - n + 1 - i,
    {
        if matches_at(hay, needle, i) {
            return true;
        }
        i += 1;
    }
    false
}

pub const SLASH: u8 = 47;

pub const BACKSLASH: u8 = 92;

pub const DOT: u8 = 46;

/// A note name is acceptable: non-empty, free of path separators, and not a
/// relative-directory reference.
pub open spec fn valid_name_bytes(s: Seq<u8>) -> bool {
    &&& s.len() > 0
    &&& forall|i: int| 0 <= i < s.len() ==> s[i] != SLASH && s[i] != BACKSLASH
    &&& s != seq![DOT]
    &&& s != seq![DOT, DOT]
}

/// Checks a note name, byte by byte, against [`valid_name_bytes`].
pub fn validate_name_bytes(s: &[u8]) -> (r: bool)
    ensures
        r == valid_name_bytes(s@),
{
    let n = s.len();
    if n == 0 {
        return false;
    }
    let mut i: usize = 0;
    while i < n
        invariant
            n == s@.len(),
            0 <= i <= n,
            forall|k: int| 0 <= k < i ==> s@[k] != SLASH && s@[k] != BACKSLASH,
        decreases n - i,
    {
        if s[i] == SLASH || s[i] == BACKSLASH {
            return false;
        }
        i += 1;
    }
    if n == 1 && s[0] == DOT {
        assert(s@ =~= seq![DOT]);
        return false;
    }
    if n == 2 && s[0] == DOT && s[1] == DOT {
        assert(s@ =~= seq![DOT, DOT]);
        return false;
    }
    assert(s@ != seq![DOT] && s@ != seq![DOT, DOT]) by {
        if s@ == seq![DOT] {
            assert(s@.len() == 1 && s@[0] == DOT);
        }
        if s@ == seq![DOT, DOT] {
            assert(s@.len() == 2 && s@[0] == DOT && s@[1] == DOT);
        }
    }
    true
}

/// Checks a note name given as a string; the check runs over its UTF-8 bytes.
pub fn validate_name(name: &str) -> (r: bool)
    ensures
        r == valid_name_bytes(name.spec_bytes()),
{
    validate_name_bytes(name.as_bytes())
}

/// `needle` occurs in `hay` at position `i`.
pub open spec fn match_at(hay: Seq<u8>, needle: Seq<u8>, i: int) -> bool {
    0 <= i && i + needle.len() <= hay.len() && hay.subrange(i, i + needle.len()) == needle
}

/// `i` is the first position where `needle` occurs in `hay`.
pub open spec fn first_match_at(hay: Seq<u8>, needle: Seq<u8>, i: int) -> bool {
    match_at(hay, needle, i) && forall|k: int| 0 <= k < i ==> !match_at(hay, needle, k)
}

/// Finds the first occurrence of `needle` in `hay`, if any.
pub fn find_first(hay: &[u8], needle: &[u8]) -> (r: Option<usize>)
    ensures
        match r {
            Some(i) => first_match_at(hay@, needle@, i as int),
            None => !contains_sub(hay@, needle@),
        },
{
    let h = hay.len();
    let n = needle.len();
    if n > h {
        assert(!contains_sub(hay@, needle@)) by {
            if contains_sub(hay@, needle@) {
                let i = choose|i: int|
                    0 <= i && i + needle@.len() <= hay@.len() && #[trigger] hay@.subrange(
                        i,
                        i + needle@.len(),
                    ) == needle@;
                assert(needle@.len() <= hay@.len());
            }
        }
        return None;
    }
    if n == 0 {
        assert(hay@.subrange(0, 0 + needle@.len() as int) =~= needle@);
        return Some(0);
    }
    let mut i: usize = 0;
    while i <= h - n
        invariant
            h == hay@.len(),
            n == needle@.len(),
            1 <= n <= h,
            0 <= i <= h - n + 1,
            forall|k: int| 0 <= k < i ==> !match_at(hay@, needle@, k),
        decreases h - n + 1 - i,
    {
        if matches_at(hay, needle, i) {
            return Some(i);
        }
        i += 1;
    }
    assert(!contains_sub(hay@, needle@)) by {
        if contains_sub(hay@, needle@) {
            let k = choose|k: int|
                0 <= k && k + needle@.len() <= hay@.len() && #[trigger] hay@.subrange(
                    k,
                    k + needle@.len(),
                ) == needle@;
            assert(match_at(hay@, needle@, k));
        }
    }
    None
}

/// Relies on `String::from_utf8`: it succeeds exactly on UTF-8 input and
/// returns the string those bytes spell.
#[verifier::external_body]
pub(crate) fn bytes_to_string(v: Vec<u8>) -> (r: Option<String>)
    ensures
        match r {
            Some(s) => vstd::utf8::valid_utf8(v@) && vstd::utf8::encode_utf8(s@) == v@,
            None => !vstd::utf8::valid_utf8(v@),
        },
{
    match String::from_utf8(v) {
        Ok(s) => Some(s),
        Err(_) => None,
    }
}

/// String equality at the character level.
pub fn str_eq(a: &str, b: &str) -> (r: bool)
    ensures
        r == (a@ == b@),
{
    let x: String = a.to_owned();
    let y: String = b.to_owned();
    x == y
}

} // verus!
