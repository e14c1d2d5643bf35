//! Small verified helpers on strings.

use vstd::prelude::*;
use vstd::string::{StrSliceExecFns, StringSliceAdditionalSpecFns};
use vstd::utf8::encode_utf8_decode_utf8;

verus! {

/// The characters of an optional string, as a model value.
pub open spec fn opt_chars(s: Option<String>) -> Option<Seq<char>> {
    match s {
        Some(t) => Some(t@),
        None => None,
    }
}

/// Two strings with the same UTF-8 bytes hold the same characters.
pub proof fn lemma_same_bytes_same_chars(a: Seq<char>, b: Seq<char>)
    requires
        vstd::utf8::encode_utf8(a) == vstd::utf8::encode_utf8(b),
    ensures
        a == b,
{
    encode_utf8_decode_utf8(a);
    encode_utf8_decode_utf8(b);
}

/// Tells whether two string slices hold the same characters.
pub fn str_eq(a: &str, b: &str) -> (same: bool)
    ensures
        same == (a@ == b@),
{
    let x = a.as_bytes();
    let y = b.as_bytes();
    if x.len() != y.len() {
        return false;
    }
    let n = x.len();
    let mut i: usize = 0;
    while i < n
        invariant
            i <= n,
            n == x@.len(),
            n == y@.len(),
            x@ == a.spec_bytes(),
            y@ == b.spec_bytes(),
            forall|k: int| 0 <= k < i ==> x@[k] == y@[k],
        decreases n - i,
    {
        if x[i] != y[i] {
            return false;
        }
        i += 1;
    }
    proof {
        assert(x@ =~= y@);
        lemma_same_bytes_same_chars(a@, b@);
    }
    true
}

/// A fresh copy of an optional string.
pub fn clone_opt_string(s: &Option<String>) -> (copy: Option<String>)
    ensures
        copy == *s,
{
    s.clone()
}

/// Whether a character is white space, as `char::is_whitespace` tells it:
/// whether it has the Unicode property `White_Space`.
pub uninterp spec fn is_whitespace(c: char) -> bool;

/// `char::is_whitespace` of std: tells whether the character has the
/// Unicode property `White_Space`. The answer depends on the character
/// alone and is known here by its name only.
#[verifier::external_body]
fn char_is_whitespace(c: char) -> (w: bool)
    ensures
        w == is_whitespace(c),
{
    c.is_whitespace()
}

/// The text without the white space at its start.
pub open spec fn without_leading_space(s: Seq<char>) -> Seq<char>
    decreases s.len(),
{
    if s.len() > 0 && is_whitespace(s.first()) {
        without_leading_space(s.drop_first())
    } else {
        s
    }
}

/// The text without the white space at its end.
pub open spec fn without_trailing_space(s: Seq<char>) -> Seq<char>
    decreases s.len(),
{
    if s.len() > 0 && is_whitespace(s.last()) {
        without_trailing_space(s.drop_last())
    } else {
        s
    }
}

/// The text without the white space at its start and at its end.
pub open spec fn trimmed(s: Seq<char>) -> Seq<char> {
    without_trailing_space(without_leading_space(s))
}

proof fn lemma_leading(s: Seq<char>, start: int)
    requires
        0 <= start <= s.len(),
        forall|k: int| 0 <= k < start ==> is_whitespace(#[trigger] s[k]),
        start < s.len() ==> !is_whitespace(s[start]),
    ensures
        without_leading_space(s) == s.subrange(start, s.len() as int),
    decreases start,
{
    if start == 0 {
        assert(s.subrange(0, s.len() as int) =~= s);
    } else {
        let rest = s.drop_first();
        assert forall|k: int| 0 <= k < start - 1 implies is_whitespace(#[trigger] rest[k]) by {
            assert(rest[k] == s[k + 1]);
        }
        lemma_leading(rest, start - 1);
        assert(rest.subrange(start - 1, rest.len() as int) =~= s.subrange(start, s.len() as int));
    }
}

proof fn lemma_trailing(s: Seq<char>, end: int)
    requires
        0 <= end <= s.len(),
        forall|k: int| end <= k < s.len() ==> is_whitespace(#[trigger] s[k]),
        end > 0 ==> !is_whitespace(s[end - 1]),
    ensures
        without_trailing_space(s) == s.subrange(0, end),
    decreases s.len() - end,
{
    if end == s.len() {
        assert(s.subrange(0, s.len() as int) =~= s);
    } else {
        let rest = s.drop_last();
        lemma_trailing(rest, end);
        assert(rest.subrange(0, end) =~= s.subrange(0, end));
    }
}

/// The text without the white space at its start and at its end.
pub fn trim(s: &str) -> (t: String)
    ensures
        t@ == trimmed(s@),
{
    let n = s.unicode_len();
    // start: the place of the first character that is no white space
    // end: the place behind the last character that is no white space
    let mut start: usize = n;
    let mut end: usize = 0;
    let mut i: usize = 0;
    for c in it: s.chars()
        invariant
            it.seq() == s@,
            n == s@.len(),
            i == it.index(),
            i <= n,
            start <= n,
            end <= i,
            forall|k: int| 0 <= k < i && k < start ==> is_whitespace(#[trigger] s@[k]),
            start < i ==> !is_whitespace(s@[start as int]),
            start >= i ==> start == n && end == 0,
            start < i ==> start < end,
            forall|k: int| end <= k < i ==> is_whitespace(#[trigger] s@[k]),
            end > 0 ==> !is_whitespace(s@[end - 1]),
    {
        if !char_is_whitespace(c) {
            if start == n {
                start = i;
            }
            end = i + 1;
        }
        i += 1;
    }
    if start >= end {
        proof {
            // nothing but white space
            lemma_leading(s@, n as int);
            assert(s@.subrange(n as int, n as int) =~= Seq::<char>::empty());
        }
        let t = String::new();
        assert(t@ =~= Seq::<char>::empty());
        return t;
    }
    proof {
        lemma_leading(s@, start as int);
        let rest = s@.subrange(start as int, n as int);
        assert forall|k: int| end - start <= k < rest.len() implies is_whitespace(#[trigger] rest[k]) by {
            assert(rest[k] == s@[k + start]);
        }
        assert(rest[end - start - 1] == s@[end - 1]);
        lemma_trailing(rest, end - start);
        assert(rest.subrange(0, end - start) =~= s@.subrange(start as int, end as int));
    }
    s.substring_char(start, end).to_string()
}

/// The pieces of a text between the occurrences of a separator, in order.
/// A text without the separator is one piece; a text that ends in the
/// separator has an empty last piece.
pub open spec fn split_on(s: Seq<char>, separator: char) -> Seq<Seq<char>>
    decreases s.len(),
{
    if s.len() == 0 {
        seq![Seq::empty()]
    } else {
        let before = split_on(s.drop_last(), separator);
        if s.last() == separator {
            before.push(Seq::empty())
        } else {
            before.update(before.len() - 1, before.last().push(s.last()))
        }
    }
}

/// The characters of each string of a sequence.
pub open spec fn string_views(strings: Seq<String>) -> Seq<Seq<char>> {
    strings.map_values(|s: String| s@)
}

/// Each text of a sequence without the white space at its start and at
/// its end.
pub open spec fn trimmed_all(pieces: Seq<Seq<char>>) -> Seq<Seq<char>> {
    pieces.map_values(|piece: Seq<char>| trimmed(piece))
}

/// The pieces of a text between the occurrences of a separator, each
/// without the white space at its start and at its end.
pub open spec fn split_trimmed(s: Seq<char>, separator: char) -> Seq<Seq<char>> {
    trimmed_all(split_on(s, separator))
}

proof fn lemma_one_more_piece(pieces: Seq<String>, piece: String, done: Seq<Seq<char>>, raw: Seq<char>)
    requires
        string_views(pieces) == trimmed_all(done),
        piece@ == trimmed(raw),
    ensures
        string_views(pieces.push(piece)) == trimmed_all(done.push(raw)),
{
    let left = string_views(pieces.push(piece));
    let right = trimmed_all(done.push(raw));
    assert(string_views(pieces).len() == pieces.len());
    assert(trimmed_all(done).len() == done.len());
    assert forall|k: int| 0 <= k < left.len() implies left[k] == right[k] by {
        if k < pieces.len() {
            assert(left[k] == string_views(pieces)[k]);
            assert(right[k] == trimmed_all(done)[k]);
        }
    }
    assert(left =~= right);
}

/// Splits a text at each occurrence of the separator and trims each piece.
pub fn split_and_trim(s: &str, separator: char) -> (pieces: Vec<String>)
    ensures
        string_views(pieces@) == split_trimmed(s@, separator),
{
    let n = s.unicode_len();
    let mut pieces: Vec<String> = Vec::new();
    let mut start: usize = 0;
    let mut i: usize = 0;
    let ghost mut done: Seq<Seq<char>> = Seq::empty();
    proof {
        assert(string_views(pieces@) =~= trimmed_all(done));
        assert(s@.take(0) =~= Seq::<char>::empty());
        assert(s@.subrange(0, 0) =~= Seq::<char>::empty());
        assert(split_on(s@.take(0), separator) =~= done.push(s@.subrange(0, 0)));
    }
    for c in it: s.chars()
        invariant
            it.seq() == s@,
            n == s@.len(),
            i == it.index(),
            i <= n,
            start <= i,
            split_on(s@.take(i as int), separator) == done.push(s@.subrange(start as int, i as int)),
            string_views(pieces@) == trimmed_all(done),
    {
        proof {
            assert(s@.take(i + 1).drop_last() =~= s@.take(i as int));
            assert(s@.take(i + 1).last() == c);
        }
        if c == separator {
            let piece = trim(s.substring_char(start, i));
            proof {
                let raw = s@.subrange(start as int, i as int);
                lemma_one_more_piece(pieces@, piece, done, raw);
                done = done.push(raw);
                assert(s@.subrange(i + 1, i + 1) =~= Seq::<char>::empty());
            }
            pieces.push(piece);
            start = i + 1;
        } else {
            proof {
                let before = done.push(s@.subrange(start as int, i as int));
                assert(s@.subrange(start as int, i as int).push(c) =~= s@.subrange(start as int, i + 1));
                assert(before.update(before.len() - 1, before.last().push(c)) =~= done.push(
                    s@.subrange(start as int, i + 1),
                ));
            }
        }
        i += 1;
    }
    let piece = trim(s.substring_char(start, n));
    proof {
        let raw = s@.subrange(start as int, n as int);
        assert(s@.take(n as int) =~= s@);
        lemma_one_more_piece(pieces@, piece, done, raw);
    }
    pieces.push(piece);
    pieces
}

} // verus!
