//! Percent-encoding of query text.

use vstd::prelude::*;
use vstd::utf8::{encode_utf8, is_ascii_chars, is_ascii_chars_encode_utf8};

verus! {

/// Bytes that pass through percent-encoding untouched: ASCII letters and
/// digits, and `-`, `.`, `_`, `~`.
pub open spec fn is_unreserved(b: u8) -> bool {
    ||| 0x30 <= b <= 0x39
    ||| 0x41 <= b <= 0x5a
    ||| 0x61 <= b <= 0x7a
    ||| b == 0x2d
    ||| b == 0x2e
    ||| b == 0x5f
    ||| b == 0x7e
}

/// Upper-case hexadecimal digit for a value below sixteen.
pub open spec fn hex_digit(d: u8) -> char {
    if d < 10 {
        (0x30 + d) as char
    } else {
        (0x37 + d) as char
    }
}

/// What one byte becomes: itself when unreserved, `%XX` otherwise.
pub open spec fn escaped_byte(b: u8) -> Seq<char> {
    if is_unreserved(b) {
        seq![b as char]
    } else {
        seq!['%', hex_digit(b / 16), hex_digit(b % 16)]
    }
}

/// The escapes of all bytes, in order.
pub open spec fn escaped_bytes(bytes: Seq<u8>) -> Seq<char>
    decreases bytes.len(),
{
    if bytes.len() == 0 {
        Seq::empty()
    } else {
        escaped_bytes(bytes.drop_last()) + escaped_byte(bytes.last())
    }
}

/// Percent-encoding of a text: the escapes of its UTF-8 bytes.
pub open spec fn percent_encoded(text: Seq<char>) -> Seq<char> {
    escaped_bytes(encode_utf8(text))
}

/// `urlencoding::encode`: every byte of the UTF-8 form of `text` that is not
/// an ASCII letter, a digit or one of `-`, `.`, `_`, `~` is replaced by `%`
/// and its two upper-case hexadecimal digits; the other bytes are kept.
#[verifier::external_body]
pub(crate) fn percent_encode(text: &str) -> (encoded: String)
    ensures
        encoded@ == percent_encoded(text@),
{
    urlencoding::encode(text).into_owned()
}

/// Characters that stand for themselves in the value of a query
/// parameter, and `%`, which begins an escape.
pub open spec fn is_query_safe(c: char) -> bool {
    c == '%' || (c as u32 <= 0x7f && is_unreserved(c as u8))
}

/// No escape holds a character that could end or split a query parameter.
pub proof fn lemma_escaped_bytes_are_safe(bytes: Seq<u8>)
    ensures
        forall|i: int|
            0 <= i < escaped_bytes(bytes).len() ==> is_query_safe(#[trigger] escaped_bytes(bytes)[i]),
    decreases bytes.len(),
{
    if bytes.len() > 0 {
        lemma_escaped_bytes_are_safe(bytes.drop_last());
        let b = bytes.last();
        let high = b / 16;
        let low = b % 16;
        assert(is_query_safe(hex_digit(high)));
        assert(is_query_safe(hex_digit(low)));
        assert(is_unreserved(b) ==> is_query_safe(b as char));
        let front = escaped_bytes(bytes.drop_last());
        let back = escaped_byte(b);
        assert forall|i: int| 0 <= i < escaped_bytes(bytes).len() implies is_query_safe(
            #[trigger] escaped_bytes(bytes)[i],
        ) by {
            if i < front.len() {
                assert(escaped_bytes(bytes)[i] == front[i]);
            } else {
                assert(escaped_bytes(bytes)[i] == back[i - front.len()]);
            }
        }
    }
}

/// An encoded text is made of unreserved characters and escapes alone: it
/// holds no `&`, `=`, `#`, `+`, `?`, blank or character beyond ASCII.
pub proof fn lemma_percent_encoded_is_safe(text: Seq<char>)
    ensures
        forall|i: int|
            0 <= i < percent_encoded(text).len() ==> is_query_safe(
                #[trigger] percent_encoded(text)[i],
            ),
{
    lemma_escaped_bytes_are_safe(encode_utf8(text));
}

/// Texts made of unreserved characters alone.
pub open spec fn is_plain(text: Seq<char>) -> bool {
    &&& is_ascii_chars(text)
    &&& forall|i: int| 0 <= i < text.len() ==> is_unreserved((#[trigger] text[i]) as u8)
}

/// The escapes of unreserved bytes are the bytes, read as characters.
proof fn lemma_escaped_unreserved_bytes(bytes: Seq<u8>)
    requires
        forall|i: int| 0 <= i < bytes.len() ==> is_unreserved(#[trigger] bytes[i]),
    ensures
        escaped_bytes(bytes) == Seq::new(bytes.len(), |i: int| bytes[i] as char),
    decreases bytes.len(),
{
    if bytes.len() > 0 {
        let front = bytes.drop_last();
        assert forall|i: int| 0 <= i < front.len() implies is_unreserved(#[trigger] front[i]) by {
            assert(front[i] == bytes[i]);
        }
        lemma_escaped_unreserved_bytes(front);
        assert(is_unreserved(bytes[bytes.len() - 1]));
    }
    assert(escaped_bytes(bytes) =~= Seq::new(bytes.len(), |i: int| bytes[i] as char));
}

/// A text of unreserved characters is its own encoding.
pub proof fn lemma_plain_text_is_kept(text: Seq<char>)
    requires
        is_plain(text),
    ensures
        percent_encoded(text) == text,
{
    is_ascii_chars_encode_utf8(text);
    let bytes = encode_utf8(text);
    assert forall|i: int| 0 <= i < bytes.len() implies is_unreserved(#[trigger] bytes[i]) by {
        assert(text[i] as u8 == bytes[i]);
    }
    lemma_escaped_unreserved_bytes(bytes);
    assert forall|i: int| 0 <= i < text.len() implies bytes[i] as char == #[trigger] text[i] by {
        assert(text[i] as u8 == bytes[i]);
    }
    assert(percent_encoded(text) =~= text);
}

} // verus!
