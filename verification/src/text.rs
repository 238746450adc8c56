//! Text comparison, decoding and newline conversion.

use vstd::prelude::*;
use vstd::utf8::{
    decode_utf8, encode_utf8, encode_utf8_decode_utf8, encode_utf8_valid_utf8,
    is_ascii_chars_encode_utf8, is_char_boundary, is_char_boundary_iff_is_leading_byte,
    is_leading_byte_width_1, pop_first_scalar, valid_utf8,
};

verus! {

/// `text` with every occurrence of `from` replaced by `to`, taken from the left and without
/// overlap.
pub open spec fn replaced(text: Seq<char>, from: Seq<char>, to: Seq<char>) -> Seq<char>
    decreases text.len(),
{
    if text.len() == 0 || from.len() == 0 {
        text
    } else if from.len() <= text.len() && text.take(from.len() as int) == from {
        to + replaced(text.skip(from.len() as int), from, to)
    } else {
        seq![text[0]] + replaced(text.skip(1), from, to)
    }
}

/// The text that the bytes encode in UTF-8, or nothing when they are not valid UTF-8.
pub open spec fn utf8_text(bytes: Seq<u8>) -> Option<Seq<char>> {
    if valid_utf8(bytes) {
        Some(decode_utf8(bytes))
    } else {
        None
    }
}

/// Two texts with the same UTF-8 bytes are the same text.
pub proof fn lemma_encoding_is_injective(a: Seq<char>, b: Seq<char>)
    requires
        encode_utf8(a) == encode_utf8(b),
    ensures
        a == b,
{
    encode_utf8_decode_utf8(a);
    encode_utf8_decode_utf8(b);
}

/// Whether two texts are equal.
pub fn same_text(a: &str, b: &str) -> (same: bool)
    ensures
        same == (a@ == b@),
{
    let left = a.as_bytes();
    let right = b.as_bytes();
    if left.len() != right.len() {
        return false;
    }
    let mut i: usize = 0;
    while i < left.len()
        invariant
            i <= left@.len(),
            left@.len() == right@.len(),
            left@ == encode_utf8(a@),
            right@ == encode_utf8(b@),
            forall|j: int| 0 <= j < i ==> left@[j] == right@[j],
        decreases left@.len() - i,
    {
        if left[i] != right[i] {
            return false;
        }
        i += 1;
    }
    proof {
        assert(left@ =~= right@);
        lemma_encoding_is_injective(a@, b@);
    }
    true
}

/// Calls [`String::from_utf8`]: the text when the bytes are valid UTF-8, `None` when they are
/// not. Which error it reports for invalid bytes is dropped.
#[verifier::external_body]
pub(crate) fn decode_text(bytes: Vec<u8>) -> (text: Option<String>)
    ensures
        match text {
            Some(text) => utf8_text(bytes@) == Some(text@),
            None => utf8_text(bytes@) is None,
        },
{
    String::from_utf8(bytes).ok()
}

/// Whether a carriage return stands before a line feed somewhere in a text.
pub open spec fn has_crlf(text: Seq<char>) -> bool {
    exists|i: int| 0 <= i && i + 1 < text.len() && #[trigger] text[i] == '\r' && text[i + 1] == '\n'
}

/// Whether the bytes of a carriage return and a line feed stand at a place.
pub open spec fn crlf_at(bytes: Seq<u8>, place: int) -> bool {
    0 <= place && place + 1 < bytes.len() && bytes[place] == 13 && bytes[place + 1] == 10
}

/// The bytes of two texts, one after the other, are those of the joined text.
proof fn lemma_encoding_joins(a: Seq<char>, b: Seq<char>)
    ensures
        encode_utf8(a + b) == encode_utf8(a) + encode_utf8(b),
    decreases a.len(),
{
    if a.len() == 0 {
        assert(a + b =~= b);
        assert(encode_utf8(a) + encode_utf8(b) =~= encode_utf8(b));
    } else {
        lemma_encoding_joins(a.drop_first(), b);
        assert((a + b).drop_first() =~= a.drop_first() + b);
        assert(encode_utf8(a + b) =~= encode_utf8(a) + encode_utf8(b));
    }
}

proof fn lemma_crlf_bytes()
    ensures
        encode_utf8("\r\n"@) == seq![13u8, 10u8],
{
    reveal_strlit("\r\n");
    is_ascii_chars_encode_utf8("\r\n"@);
    assert("\r\n"@[0] == '\r' && "\r\n"@[1] == '\n');
    assert(encode_utf8("\r\n"@) =~= seq![13u8, 10u8]);
}

/// A text with a carriage return before a line feed has their bytes somewhere.
proof fn lemma_crlf_shows_in_bytes(text: Seq<char>)
    requires
        has_crlf(text),
    ensures
        exists|place: int| crlf_at(encode_utf8(text), place),
{
    reveal_strlit("\r\n");
    let i = choose|i: int|
        0 <= i && i + 1 < text.len() && #[trigger] text[i] == '\r' && text[i + 1] == '\n';
    let head = text.take(i);
    let tail = text.skip(i + 2);
    assert(text =~= head + ("\r\n"@ + tail));
    lemma_encoding_joins(head, "\r\n"@ + tail);
    lemma_encoding_joins("\r\n"@, tail);
    lemma_crlf_bytes();
    assert(crlf_at(encode_utf8(text), encode_utf8(head).len() as int));
}

/// Where there is nothing to replace in the start of a text, replacing begins behind it.
proof fn lemma_replaced_behind(head: Seq<char>, tail: Seq<char>)
    requires
        !has_crlf(head),
        tail.len() > 0 ==> tail[0] != '\n',
    ensures
        replaced(head + tail, "\r\n"@, "\n"@) == head + replaced(tail, "\r\n"@, "\n"@),
    decreases head.len(),
{
    reveal_strlit("\r\n");
    let text = head + tail;
    if head.len() == 0 {
        assert(text =~= tail);
        assert(head + replaced(tail, "\r\n"@, "\n"@) =~= replaced(tail, "\r\n"@, "\n"@));
    } else {
        let rest = head.skip(1);
        assert(!has_crlf(rest)) by {
            if has_crlf(rest) {
                let i = choose|i: int|
                    0 <= i && i + 1 < rest.len() && #[trigger] rest[i] == '\r' && rest[i + 1]
                        == '\n';
                assert(head[i + 1] == '\r' && head[i + 1 + 1] == '\n');
            }
        }
        lemma_replaced_behind(rest, tail);
        if 2 <= text.len() && text.take(2) == "\r\n"@ {
            assert(text.take(2)[0] == '\r' && text.take(2)[1] == '\n');
            assert(text[0] == '\r' && text[1] == '\n');
            if head.len() > 1 {
                assert(head[0] == '\r' && head[1] == '\n');
            } else {
                assert(tail[0] == text[1]);
            }
        }
        assert(text.skip(1) =~= rest + tail);
        assert(replaced(text, "\r\n"@, "\n"@) =~= head + replaced(tail, "\r\n"@, "\n"@));
    }
}

/// A text whose lines end in line feeds alone has nothing to replace.
pub(crate) proof fn lemma_nothing_to_replace(text: Seq<char>)
    requires
        !has_crlf(text),
    ensures
        replaced(text, "\r\n"@, "\n"@) == text,
{
    lemma_replaced_behind(text, Seq::empty());
    assert(text + Seq::<char>::empty() =~= text);
    assert(text + replaced(Seq::<char>::empty(), "\r\n"@, "\n"@) =~= text);
}

/// What stands before and behind a carriage return and a line feed is replaced apart.
pub(crate) proof fn lemma_replaced_joins(head: Seq<char>, tail: Seq<char>)
    ensures
        replaced(head + "\r\n"@ + tail, "\r\n"@, "\n"@) == replaced(head, "\r\n"@, "\n"@) + "\n"@
            + replaced(tail, "\r\n"@, "\n"@),
    decreases head.len(),
{
    reveal_strlit("\r\n");
    reveal_strlit("\n");
    let crlf = "\r\n"@;
    let text = head + crlf + tail;
    if head.len() == 0 {
        assert(text.take(2) =~= crlf);
        assert(text.skip(2) =~= tail);
        assert(replaced(text, crlf, "\n"@) =~= replaced(head, crlf, "\n"@) + "\n"@ + replaced(
            tail,
            crlf,
            "\n"@,
        ));
    } else {
        assert(text[0] == head[0]);
        if 2 <= head.len() && head.take(2) == crlf {
            lemma_replaced_joins(head.skip(2), tail);
            assert(text.take(2) =~= head.take(2));
            assert(text.skip(2) =~= head.skip(2) + crlf + tail);
        } else {
            lemma_replaced_joins(head.skip(1), tail);
            assert(text.take(2) != crlf) by {
                if text.take(2) == crlf {
                    assert(text.take(2)[0] == text[0] && text.take(2)[1] == text[1]);
                    if head.len() == 1 {
                        assert(text[1] == crlf[0]);
                    } else {
                        assert(head.take(2) =~= text.take(2));
                    }
                }
            }
            assert(text.skip(1) =~= head.skip(1) + crlf + tail);
        }
        assert(replaced(text, crlf, "\n"@) =~= replaced(head, crlf, "\n"@) + "\n"@ + replaced(
            tail,
            crlf,
            "\n"@,
        ));
    }
}

/// The first place where the bytes of a carriage return and a line feed stand.
fn find_crlf(bytes: &[u8]) -> (place: Option<usize>)
    ensures
        match place {
            Some(place) => {
                &&& crlf_at(bytes@, place as int)
                &&& forall|earlier: int| earlier < place ==> !crlf_at(bytes@, earlier)
            },
            None => forall|place: int| !crlf_at(bytes@, place),
        },
{
    let mut i: usize = 1;
    while i < bytes.len()
        invariant
            1 <= i,
            forall|earlier: int| earlier < i - 1 ==> !crlf_at(bytes@, earlier),
        decreases bytes@.len() - i,
    {
        if bytes[i - 1] == 13 && bytes[i] == 10 {
            return Some(i - 1);
        }
        i += 1;
    }
    None
}

/// Splits a text at a place where a carriage return and a line feed stand, the first one, and
/// leaves the two out.
fn split_at_crlf(text: &str, place: usize) -> (parts: (&str, &str))
    requires
        crlf_at(encode_utf8(text@), place as int),
        forall|earlier: int| earlier < place ==> !crlf_at(encode_utf8(text@), earlier),
    ensures
        text@ == parts.0@ + ("\r\n"@ + parts.1@),
        !has_crlf(parts.0@),
        encode_utf8(parts.1@).len() < encode_utf8(text@).len(),
{
    let ghost bytes = encode_utf8(text@);
    proof {
        encode_utf8_valid_utf8(text@);
        is_char_boundary_iff_is_leading_byte(bytes, place as int);
        assert(is_leading_byte_width_1(bytes[place as int]));
    }
    let (head, tail) = text.split_at(place);
    let ghost rest = encode_utf8(tail@);
    proof {
        encode_utf8_valid_utf8(tail@);
        assert(rest[0] == bytes[place as int] && rest[1] == bytes[place + 1]);
        assert(is_char_boundary(rest, 2)) by {
            let once = pop_first_scalar(rest);
            assert(is_leading_byte_width_1(rest[0]));
            assert(once[0] == rest[1]);
            assert(is_leading_byte_width_1(once[0]));
            reveal_with_fuel(is_char_boundary, 3);
            reveal_with_fuel(valid_utf8, 3);
        }
    }
    let (crlf, after) = tail.split_at(2);
    proof {
        lemma_crlf_bytes();
        assert(encode_utf8(crlf@) =~= encode_utf8("\r\n"@));
        lemma_encoding_is_injective(crlf@, "\r\n"@);
        lemma_encoding_joins(crlf@, after@);
        assert(encode_utf8(crlf@) + encode_utf8(after@) =~= rest);
        lemma_encoding_is_injective(crlf@ + after@, tail@);
        lemma_encoding_joins(head@, tail@);
        assert(encode_utf8(head@) + rest =~= bytes);
        lemma_encoding_is_injective(head@ + tail@, text@);
        if has_crlf(head@) {
            lemma_crlf_shows_in_bytes(head@);
            let earlier = choose|earlier: int| crlf_at(encode_utf8(head@), earlier);
            assert(crlf_at(bytes, earlier));
        }
    }
    (head, after)
}

/// A copy of a text in which every line that ended in a carriage return and a line feed ends in
/// a line feed.
pub fn with_line_feeds(text: &str) -> (result: String)
    ensures
        result@ == replaced(text@, "\r\n"@, "\n"@),
{
    let mut result = String::new();
    let mut rest = text;
    let mut found = find_crlf(rest.as_bytes());
    assert(result@ + replaced(rest@, "\r\n"@, "\n"@) =~= replaced(text@, "\r\n"@, "\n"@));
    while found.is_some()
        invariant
            result@ + replaced(rest@, "\r\n"@, "\n"@) == replaced(text@, "\r\n"@, "\n"@),
            match found {
                Some(place) => {
                    &&& crlf_at(encode_utf8(rest@), place as int)
                    &&& forall|earlier: int|
                        earlier < place ==> !crlf_at(encode_utf8(rest@), earlier)
                },
                None => forall|place: int| !crlf_at(encode_utf8(rest@), place),
            },
        decreases encode_utf8(rest@).len(),
    {
        let ghost before = result@;
        let (head, after) = split_at_crlf(rest, found.unwrap());
        result.append(head);
        result.append("\n");
        proof {
            reveal_strlit("\r\n");
            let tail = "\r\n"@ + after@;
            lemma_replaced_behind(head@, tail);
            assert(tail.take(2) =~= "\r\n"@);
            assert(tail.skip(2) =~= after@);
            assert(result@ + replaced(after@, "\r\n"@, "\n"@) =~= before + replaced(
                rest@,
                "\r\n"@,
                "\n"@,
            ));
        }
        rest = after;
        found = find_crlf(rest.as_bytes());
    }
    result.append(rest);
    proof {
        if has_crlf(rest@) {
            lemma_crlf_shows_in_bytes(rest@);
        }
        lemma_nothing_to_replace(rest@);
    }
    result
}

} // verus!
