//! ASCII characters in UTF-8 text.
//!
//! A character below 128 is one byte of the same value in the encoding of a
//! text, and no byte of any other character is below 128. So a search for
//! such a character can run over the bytes and still speak of the characters.

use vstd::prelude::*;
use vstd::utf8::*;

verus! {

/// The encoding of a text opens with the encoding of its first character,
/// and the rest of it encodes the rest of the text.
pub(crate) proof fn lemma_encode_first(text: Seq<char>)
    requires
        text.len() > 0,
    ensures
        ({
            let bytes = encode_utf8(text);
            let k = length_of_first_scalar(bytes);
            &&& valid_first_scalar(bytes)
            &&& 1 <= k <= 4
            &&& k <= bytes.len()
            &&& bytes.skip(k) == encode_utf8(text.drop_first())
            &&& (bytes[0] < 0x80 <==> (text[0] as u32) < 0x80)
            &&& (bytes[0] < 0x80 ==> k == 1 && bytes[0] as u32 == text[0] as u32)
            &&& forall|q: int| 1 <= q < k ==> #[trigger] bytes[q] >= 0x80
        }),
{
    let bytes = encode_utf8(text);
    let c = text[0] as u32;
    encode_utf8_first_scalar(text);
    char_is_scalar(text[0]);
    let k = length_of_first_scalar(bytes);
    assert(k == encode_scalar(c).len());
    assert(bytes.skip(k) =~= encode_utf8(text.drop_first()));
    let b = bytes[0];
    assert(bytes[0] == encode_scalar(c)[0]);
    if has_width_1_encoding(c) {
        assert(b == leading_byte_width_1(c));
        assert(((c & 0x7F) as u8) as u32 == c) by (bit_vector)
            requires
                c <= 0x7F,
        ;
    } else if has_width_2_encoding(c) {
        assert(b == leading_byte_width_2(c));
        assert((0xC0u8 | ((c >> 6) & 0x1F) as u8) >= 0x80) by (bit_vector);
    } else if has_width_3_encoding(c) {
        assert(b == leading_byte_width_3(c));
        assert((0xE0u8 | ((c >> 12) & 0x0F) as u8) >= 0x80) by (bit_vector);
    } else {
        assert(b == leading_byte_width_4(c));
        assert((0xF0u8 | ((c >> 18) & 0x7) as u8) >= 0x80) by (bit_vector);
    }
}

/// A character is known by its code.
proof fn lemma_char_by_code(c: char, d: char)
    requires
        c as u32 == d as u32,
    ensures
        c == d,
{
    char_u32_cast(c, c as u32);
    char_u32_cast(d, d as u32);
}

/// One step of reading a text and its encoding side by side: where either
/// opens with the ASCII character `c`, so does the other, and what follows
/// the character encodes to what follows its byte.
pub(crate) proof fn lemma_ascii_head(text: Seq<char>, c: char)
    requires
        (c as u32) < 0x80,
    ensures
        (text.len() > 0 && text[0] == c) <==> (encode_utf8(text).len() > 0 && encode_utf8(text)[0]
            as u32 == c as u32),
        text.len() > 0 && text[0] == c ==> encode_utf8(text).skip(1) == encode_utf8(
            text.drop_first(),
        ),
{
    if text.len() > 0 {
        lemma_encode_first(text);
        if encode_utf8(text)[0] as u32 == c as u32 {
            lemma_char_by_code(text[0], c);
        }
    }
}

/// What stands in `text` from the first `c` on, if `c` occurs in it.
pub open spec fn from_first(text: Seq<char>, c: char) -> Option<Seq<char>>
    decreases text.len(),
{
    if text.len() == 0 {
        None
    } else if text[0] == c {
        Some(text)
    } else {
        from_first(text.drop_first(), c)
    }
}

/// Whether `c` occurs in `text`.
pub open spec fn occurs(text: Seq<char>, c: char) -> bool {
    exists|i: int| 0 <= i < text.len() && text[i] == c
}

/// `from_first` cuts at the first occurrence, and finds nothing only where
/// there is none.
pub proof fn lemma_from_first(text: Seq<char>, c: char)
    ensures
        match from_first(text, c) {
            Some(tail) => exists|j: int|
                0 <= j < text.len() && #[trigger] text[j] == c && tail == text.skip(j) && forall|
                    i: int,
                | 0 <= i < j ==> text[i] != c,
            None => !occurs(text, c),
        },
    decreases text.len(),
{
    if text.len() == 0 {
    } else if text[0] == c {
        assert(text.skip(0) =~= text);
    } else {
        let rest = text.drop_first();
        lemma_from_first(rest, c);
        match from_first(rest, c) {
            Some(tail) => {
                let j = choose|j: int|
                    0 <= j < rest.len() && #[trigger] rest[j] == c && tail == rest.skip(j)
                        && forall|i: int| 0 <= i < j ==> rest[i] != c;
                assert(rest.skip(j) =~= text.skip(j + 1));
                assert(text[j + 1] == c);
                assert forall|i: int| 0 <= i < j + 1 implies text[i] != c by {
                    if i > 0 {
                        assert(rest[i - 1] != c);
                    }
                }
            },
            None => {
                assert forall|i: int| 0 <= i < text.len() implies text[i] != c by {
                    if i > 0 {
                        assert(rest[i - 1] == text[i]);
                        assert(!(0 <= i - 1 < rest.len() && rest[i - 1] == c));
                    }
                }
            },
        }
    }
}

/// What stands in `bytes` from the first `b` on, if `b` occurs in it.
spec fn bytes_from_first(bytes: Seq<u8>, b: u8) -> Option<Seq<u8>>
    decreases bytes.len(),
{
    if bytes.len() == 0 {
        None
    } else if bytes[0] == b {
        Some(bytes)
    } else {
        bytes_from_first(bytes.drop_first(), b)
    }
}

/// Bytes other than `b` may be skipped.
proof fn lemma_bytes_skip(bytes: Seq<u8>, b: u8, k: int)
    requires
        0 <= k <= bytes.len(),
        forall|q: int| 0 <= q < k ==> bytes[q] != b,
    ensures
        bytes_from_first(bytes, b) == bytes_from_first(bytes.skip(k), b),
    decreases k,
{
    if k == 0 {
        assert(bytes.skip(0) =~= bytes);
    } else {
        let rest = bytes.drop_first();
        assert(bytes[0] != b);
        assert forall|q: int| 0 <= q < k - 1 implies rest[q] != b by {
            assert(bytes[q + 1] != b);
        }
        lemma_bytes_skip(rest, b, k - 1);
        assert(rest.skip(k - 1) =~= bytes.skip(k));
    }
}

/// Where no byte is `b`, nothing is found.
proof fn lemma_bytes_absent(bytes: Seq<u8>, b: u8)
    requires
        forall|q: int| 0 <= q < bytes.len() ==> bytes[q] != b,
    ensures
        bytes_from_first(bytes, b) is None,
    decreases bytes.len(),
{
    if bytes.len() > 0 {
        let rest = bytes.drop_first();
        assert forall|q: int| 0 <= q < rest.len() implies rest[q] != b by {
            assert(bytes[q + 1] != b);
        }
        lemma_bytes_absent(rest, b);
    }
}

/// Cutting a text at its first `c` and cutting its encoding at the first
/// byte of that value come to the same, `c` being below 128.
proof fn lemma_cuts_agree(text: Seq<char>, c: char, b: u8)
    requires
        b < 0x80,
        c as u32 == b as u32,
    ensures
        bytes_from_first(encode_utf8(text), b) == match from_first(text, c) {
            Some(tail) => Some(encode_utf8(tail)),
            None => None,
        },
    decreases text.len(),
{
    let bytes = encode_utf8(text);
    if text.len() > 0 {
        lemma_encode_first(text);
        lemma_ascii_head(text, c);
        if text[0] != c {
            let k = length_of_first_scalar(bytes);
            assert forall|q: int| 0 <= q < k implies bytes[q] != b by {
                if q > 0 {
                    assert(bytes[q] >= 0x80);
                }
            }
            lemma_bytes_skip(bytes, b, k);
            lemma_cuts_agree(text.drop_first(), c, b);
        }
    }
}

/// The position of the first `b` in `bytes`, if there is one.
fn find_byte(bytes: &[u8], b: u8) -> (found: Option<usize>)
    ensures
        match found {
            Some(p) => p < bytes@.len() && bytes@[p as int] == b && forall|q: int|
                0 <= q < p ==> bytes@[q] != b,
            None => forall|q: int| 0 <= q < bytes@.len() ==> bytes@[q] != b,
        },
{
    let n: usize = bytes.len();
    let mut i: usize = 0;
    while i < n
        invariant
            n == bytes@.len(),
            i <= n,
            forall|q: int| 0 <= q < i ==> bytes@[q] != b,
        decreases n - i,
    {
        if bytes[i] == b {
            return Some(i);
        }
        i = i + 1;
    }
    None
}

/// Cuts `text` at the first occurrence of the character whose code is `b`,
/// a character below 128: what comes back begins with that character.
pub(crate) fn cut_at_first<'a>(text: &'a str, b: u8, Ghost(c): Ghost<char>) -> (tail: Option<
    &'a str,
>)
    requires
        b < 0x80,
        c as u32 == b as u32,
    ensures
        match tail {
            Some(rest) => from_first(text@, c) == Some(rest@),
            None => from_first(text@, c) is None,
        },
{
    broadcast use {encode_utf8_valid_utf8, encode_utf8_decode_utf8};

    let bytes: &[u8] = text.as_bytes();
    proof {
        lemma_cuts_agree(text@, c, b);
    }
    match find_byte(bytes, b) {
        Some(p) => {
            proof {
                lemma_bytes_skip(bytes@, b, p as int);
                assert(!is_continuation_byte(bytes@[p as int]));
                is_char_boundary_iff_not_is_continuation_byte(bytes@, p as int);
            }
            let parts = text.split_at(p);
            let rest: &str = parts.1;
            proof {
                let tail = from_first(text@, c)->0;
                assert(bytes@.skip(p as int) =~= bytes@.subrange(p as int, bytes@.len() as int));
                assert(encode_utf8(rest@) == encode_utf8(tail));
                assert(decode_utf8(encode_utf8(rest@)) == rest@);
                assert(decode_utf8(encode_utf8(tail)) == tail);
            }
            Some(rest)
        },
        None => {
            proof {
                lemma_bytes_absent(bytes@, b);
            }
            None
        },
    }
}

/// Tells whether the character whose code is `b`, a character below 128,
/// occurs in `text`.
pub(crate) fn holds(text: &str, b: u8, Ghost(c): Ghost<char>) -> (found: bool)
    requires
        b < 0x80,
        c as u32 == b as u32,
    ensures
        found == occurs(text@, c),
{
    proof {
        lemma_from_first(text@, c);
    }
    cut_at_first(text, b, Ghost(c)).is_some()
}

} // verus!
