//! Splitting a raw response into headers and body.
//!
//! The body is whatever follows the first blank line, that is the first
//! occurrence of CR LF CR LF. A response without a blank line is all body.

use vstd::prelude::*;
use vstd::utf8::*;
use crate::ascii::{lemma_ascii_head, lemma_encode_first};

verus! {

/// Whether the header/body separator (CR LF CR LF) stands at position `i` of `text`.
pub open spec fn separator_at(text: Seq<char>, i: int) -> bool {
    &&& 0 <= i
    &&& i + 4 <= text.len()
    &&& text[i] == '\r'
    &&& text[i + 1] == '\n'
    &&& text[i + 2] == '\r'
    &&& text[i + 3] == '\n'
}

/// Whether `text` holds a separator anywhere.
pub open spec fn has_separator(text: Seq<char>) -> bool {
    exists|i: int| separator_at(text, i)
}

/// Whether the first separator of `text` stands at position `i`.
pub open spec fn first_separator_at(text: Seq<char>, i: int) -> bool {
    &&& separator_at(text, i)
    &&& forall|j: int| 0 <= j < i ==> !separator_at(text, j)
}

/// The body of a raw response: everything after its first separator, or the
/// whole text where it has none.
pub open spec fn body_of(text: Seq<char>) -> Seq<char> {
    if has_separator(text) {
        let i = choose|i: int| first_separator_at(text, i);
        text.subrange(i + 4, text.len() as int)
    } else {
        text
    }
}

/// A text with a separator has a first one.
proof fn lemma_first_separator_exists(text: Seq<char>, i: int)
    requires
        separator_at(text, i),
    ensures
        exists|k: int| first_separator_at(text, k),
    decreases i,
{
    if exists|j: int| 0 <= j < i && separator_at(text, j) {
        let j = choose|j: int| 0 <= j < i && separator_at(text, j);
        lemma_first_separator_exists(text, j);
    } else {
        assert(first_separator_at(text, i));
    }
}

/// The body is cut right behind the first separator, wherever that stands.
pub proof fn lemma_body_after_first_separator(text: Seq<char>, i: int)
    requires
        first_separator_at(text, i),
    ensures
        body_of(text) == text.subrange(i + 4, text.len() as int),
{
    assert(has_separator(text));
    let k = choose|k: int| first_separator_at(text, k);
    assert(first_separator_at(text, k));
    if k < i {
        assert(!separator_at(text, k));
    } else if i < k {
        assert(!separator_at(text, i));
    }
}

/// A text without a separator is its own body.
pub proof fn lemma_body_without_separator(text: Seq<char>)
    requires
        !has_separator(text),
    ensures
        body_of(text) == text,
{
}

/// The body is always a tail of the text.
pub proof fn lemma_body_is_suffix(text: Seq<char>)
    ensures
        body_of(text).len() <= text.len(),
        body_of(text) == text.subrange(text.len() - body_of(text).len(), text.len() as int),
{
    if has_separator(text) {
        let w = choose|w: int| separator_at(text, w);
        lemma_first_separator_exists(text, w);
        let i = choose|i: int| first_separator_at(text, i);
        lemma_body_after_first_separator(text, i);
    } else {
        assert(text.subrange(0, text.len() as int) =~= text);
    }
}

/// The separator as it stands in the UTF-8 bytes of a text: 13 10 13 10.
spec fn byte_separator_at(bytes: Seq<u8>, p: int) -> bool {
    &&& 0 <= p
    &&& p + 4 <= bytes.len()
    &&& bytes[p] == 13
    &&& bytes[p + 1] == 10
    &&& bytes[p + 2] == 13
    &&& bytes[p + 3] == 10
}

/// What follows the first separator of a text, if it has one.
spec fn tail_of(text: Seq<char>) -> Option<Seq<char>>
    decreases text.len(),
{
    if text.len() == 0 {
        None
    } else if separator_at(text, 0) {
        Some(text.skip(4))
    } else {
        tail_of(text.drop_first())
    }
}

/// What follows the first separator in a run of bytes, if it has one.
spec fn byte_tail_of(bytes: Seq<u8>) -> Option<Seq<u8>>
    decreases bytes.len(),
{
    if bytes.len() == 0 {
        None
    } else if byte_separator_at(bytes, 0) {
        Some(bytes.skip(4))
    } else {
        byte_tail_of(bytes.drop_first())
    }
}

/// `tail_of` finds the first separator, and only that.
proof fn lemma_tail_of(text: Seq<char>)
    ensures
        match tail_of(text) {
            Some(tail) => exists|i: int|
                first_separator_at(text, i) && tail == text.subrange(i + 4, text.len() as int),
            None => !has_separator(text),
        },
    decreases text.len(),
{
    if text.len() == 0 {
    } else if separator_at(text, 0) {
        assert(first_separator_at(text, 0));
        assert(text.skip(4) == text.subrange(4, text.len() as int));
    } else {
        let rest = text.drop_first();
        lemma_tail_of(rest);
        assert forall|j: int| separator_at(rest, j) == separator_at(text, j + 1) by {}
        match tail_of(rest) {
            Some(tail) => {
                let i = choose|i: int|
                    first_separator_at(rest, i) && tail == rest.subrange(i + 4, rest.len() as int);
                assert forall|j: int| 0 <= j < i + 1 implies !separator_at(text, j) by {
                    if j > 0 {
                        assert(!separator_at(rest, j - 1));
                    }
                }
                assert(first_separator_at(text, i + 1));
                assert(rest.subrange(i + 4, rest.len() as int) =~= text.subrange(
                    i + 1 + 4,
                    text.len() as int,
                ));
            },
            None => {
                assert forall|j: int| !separator_at(text, j) by {
                    if j > 0 {
                        assert(!separator_at(rest, j - 1));
                    }
                }
            },
        }
    }
}

/// `byte_tail_of` agrees with a scan that stops at the first separator.
proof fn lemma_byte_tail_found(bytes: Seq<u8>, p: int)
    requires
        byte_separator_at(bytes, p),
        forall|q: int| 0 <= q < p ==> !byte_separator_at(bytes, q),
    ensures
        byte_tail_of(bytes) == Some(bytes.skip(p + 4)),
    decreases p,
{
    if p == 0 {
    } else {
        let rest = bytes.drop_first();
        assert(!byte_separator_at(bytes, 0));
        assert forall|q: int| byte_separator_at(rest, q) == byte_separator_at(bytes, q + 1) by {}
        assert forall|q: int| 0 <= q < p - 1 implies !byte_separator_at(rest, q) by {
            assert(!byte_separator_at(bytes, q + 1));
        }
        lemma_byte_tail_found(rest, p - 1);
        assert(rest.skip(p - 1 + 4) =~= bytes.skip(p + 4));
    }
}

/// `byte_tail_of` finds nothing where a scan finds nothing.
proof fn lemma_byte_tail_absent(bytes: Seq<u8>)
    requires
        forall|q: int| !byte_separator_at(bytes, q),
    ensures
        byte_tail_of(bytes) is None,
    decreases bytes.len(),
{
    if bytes.len() > 0 {
        let rest = bytes.drop_first();
        assert forall|q: int| !byte_separator_at(rest, q) by {
            assert(!byte_separator_at(bytes, q + 1));
        }
        lemma_byte_tail_absent(rest);
    }
}

/// Bytes in which no separator starts may be skipped.
proof fn lemma_byte_tail_skip(bytes: Seq<u8>, k: int)
    requires
        0 <= k <= bytes.len(),
        forall|q: int| 0 <= q < k ==> !byte_separator_at(bytes, q),
    ensures
        byte_tail_of(bytes) == byte_tail_of(bytes.skip(k)),
    decreases k,
{
    if k == 0 {
        assert(bytes.skip(0) =~= bytes);
    } else {
        let rest = bytes.drop_first();
        assert(!byte_separator_at(bytes, 0));
        assert forall|q: int| 0 <= q < k - 1 implies !byte_separator_at(rest, q) by {
            assert(!byte_separator_at(bytes, q + 1));
        }
        lemma_byte_tail_skip(rest, k - 1);
        assert(rest.skip(k - 1) =~= bytes.skip(k));
    }
}

/// A separator at the head of a text is a separator at the head of its
/// encoding, and the other way round.
proof fn lemma_separator_at_head(text: Seq<char>)
    ensures
        separator_at(text, 0) <==> byte_separator_at(encode_utf8(text), 0),
        separator_at(text, 0) ==> encode_utf8(text).skip(4) == encode_utf8(text.skip(4)),
{
    let bytes = encode_utf8(text);
    lemma_ascii_head(text, '\r');
    if text.len() > 0 && text[0] == '\r' {
        let second = text.drop_first();
        assert(encode_utf8(second) == bytes.skip(1));
        lemma_ascii_head(second, '\n');
        if second.len() > 0 && second[0] == '\n' {
            let third = second.drop_first();
            assert(encode_utf8(third) =~= bytes.skip(2));
            lemma_ascii_head(third, '\r');
            if third.len() > 0 && third[0] == '\r' {
                let fourth = third.drop_first();
                assert(encode_utf8(fourth) =~= bytes.skip(3));
                lemma_ascii_head(fourth, '\n');
                if fourth.len() > 0 && fourth[0] == '\n' {
                    let rest = fourth.drop_first();
                    assert(encode_utf8(rest) =~= bytes.skip(4));
                    assert(rest =~= text.skip(4));
                }
            }
        }
    }
}

/// Cutting a text behind its first separator and cutting its encoding behind
/// the first separator bytes come to the same.
proof fn lemma_tails_agree(text: Seq<char>)
    ensures
        byte_tail_of(encode_utf8(text)) == match tail_of(text) {
            Some(tail) => Some(encode_utf8(tail)),
            None => None,
        },
    decreases text.len(),
{
    let bytes = encode_utf8(text);
    if text.len() == 0 {
    } else {
        lemma_separator_at_head(text);
        lemma_encode_first(text);
        if separator_at(text, 0) {
        } else {
            let k = length_of_first_scalar(bytes);
            assert forall|q: int| 0 <= q < k implies !byte_separator_at(bytes, q) by {
                if q > 0 {
                    assert(bytes[q] >= 0x80);
                }
            }
            lemma_byte_tail_skip(bytes, k);
            lemma_tails_agree(text.drop_first());
        }
    }
}

/// A position from which the bytes of a text again encode a text is a
/// character boundary.
proof fn lemma_tail_starts_at_boundary(bytes: Seq<u8>, mid: int, tail: Seq<char>)
    requires
        valid_utf8(bytes),
        0 <= mid <= bytes.len(),
        bytes.skip(mid) == encode_utf8(tail),
    ensures
        is_char_boundary(bytes, mid),
{
    if mid == bytes.len() {
        is_char_boundary_start_end_of_seq(bytes);
    } else {
        let rest = encode_utf8(tail);
        assert(rest.len() > 0);
        assert(tail.len() > 0);
        encode_utf8_first_scalar(tail);
        assert(rest[0] == bytes[mid]);
        assert(!is_continuation_byte(bytes[mid]));
        is_char_boundary_iff_not_is_continuation_byte(bytes, mid);
    }
}

/// The position of the first separator in `bytes`, if there is one.
fn find_separator(bytes: &[u8]) -> (found: Option<usize>)
    ensures
        match found {
            Some(p) => byte_separator_at(bytes@, p as int) && forall|q: int|
                0 <= q < p ==> !byte_separator_at(bytes@, q),
            None => forall|q: int| !byte_separator_at(bytes@, q),
        },
{
    let n: usize = bytes.len();
    if n < 4 {
        return None;
    }
    let last: usize = n - 4;
    let mut i: usize = 0;
    while i <= last
        invariant
            n == bytes@.len(),
            last == n - 4,
            i <= last + 1,
            forall|q: int| 0 <= q < i ==> !byte_separator_at(bytes@, q),
        decreases last + 1 - i,
    {
        if bytes[i] == 13 && bytes[i + 1] == 10 && bytes[i + 2] == 13 && bytes[i + 3] == 10 {
            return Some(i);
        }
        i = i + 1;
    }
    None
}

/// Takes the body out of a raw response: the text after the first
/// CR LF CR LF, or the response as it is where it holds none.
pub fn extract_body(response: String) -> (body: String)
    ensures
        body@ == body_of(response@),
{
    broadcast use {encode_utf8_valid_utf8, encode_utf8_decode_utf8};

    let text: &str = response.as_str();
    let bytes: &[u8] = text.as_bytes();
    let n: usize = bytes.len();
    proof {
        lemma_tail_of(text@);
        lemma_tails_agree(text@);
    }
    match find_separator(bytes) {
        Some(p) => {
            assert(p + 4 <= n);
            let mid: usize = p + 4;
            proof {
                lemma_byte_tail_found(bytes@, p as int);
                let tail = tail_of(text@)->0;
                lemma_tail_starts_at_boundary(bytes@, mid as int, tail);
                let i = choose|i: int|
                    first_separator_at(text@, i) && tail == text@.subrange(
                        i + 4,
                        text@.len() as int,
                    );
                lemma_body_after_first_separator(text@, i);
            }
            let parts = text.split_at(mid);
            let tail: &str = parts.1;
            proof {
                assert(encode_utf8(tail@) == encode_utf8(tail_of(text@)->0));
                assert(decode_utf8(encode_utf8(tail@)) == tail@);
                assert(decode_utf8(encode_utf8(tail_of(text@)->0)) == tail_of(text@)->0);
            }
            String::from_str(tail)
        },
        None => {
            proof {
                lemma_byte_tail_absent(bytes@);
            }
            response
        },
    }
}

} // verus!
