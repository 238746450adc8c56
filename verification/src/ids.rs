//! Identifiers of clipboard sources and transfers, and the mime types that mark what this
//! program itself put on a clipboard.

use vstd::prelude::*;
use vstd::arithmetic::div_mod::{
    lemma_basic_div, lemma_div_denominator, lemma_fundamental_div_mod,
};
use vstd::arithmetic::power::{lemma_pow0, lemma_pow1, lemma_pow_adds, lemma_pow_positive, pow};

verus! {

/// Whether an identifier has the version and variant bits of a random UUID.
pub open spec fn is_random_id(id: u128) -> bool {
    &&& (id / 0x10000000000000000000u128) % 16 == 4
    &&& (id / 0x4000000000000000u128) % 4 == 2
}

/// The lower-case hexadecimal digit of a value below sixteen.
pub open spec fn hex_digit(value: int) -> char {
    "0123456789abcdef"@[value]
}

/// The hexadecimal digit of an identifier at a place counted from the most significant one.
pub open spec fn nibble(id: u128, place: int) -> int {
    (id as int / pow(16, (31 - place) as nat)) % 16
}

/// How many hyphens stand before a position of the text of an identifier.
pub open spec fn hyphens_before(position: int) -> int {
    if position <= 8 {
        0
    } else if position <= 13 {
        1
    } else if position <= 18 {
        2
    } else if position <= 23 {
        3
    } else {
        4
    }
}

/// The text of an identifier: 32 hexadecimal digits in groups of 8, 4, 4, 4 and 12, joined by
/// hyphens.
pub open spec fn id_text(id: u128) -> Seq<char> {
    Seq::new(
        36,
        |position: int|
            if position == 8 || position == 13 || position == 18 || position == 23 {
                '-'
            } else {
                hex_digit(nibble(id, position - hyphens_before(position)))
            },
    )
}

/// The mime type that marks a clipboard source of the program that drew `nonce`.
pub open spec fn self_mime_text(nonce: u128, source_id: u128) -> Seq<char> {
    "application/x-zed-clipboard-"@ + id_text(nonce) + "-"@ + id_text(source_id)
}

/// The mime type that marks the primary selection of the program that drew `nonce`.
pub open spec fn primary_self_mime_text(nonce: u128) -> Seq<char> {
    "application/x-zed-primary-"@ + id_text(nonce)
}

/// Calls `uuid::Uuid::new_v4`: a random identifier, of which only the bits that mark it as
/// random are fixed.
#[verifier::external_body]
pub(crate) fn new_id() -> (id: u128)
    ensures
        is_random_id(id),
{
    uuid::Uuid::new_v4().as_u128()
}

/// Calls the `Display` impl of `uuid::Uuid`: the identifier in lower-case hexadecimal digits,
/// hyphenated.
#[verifier::external_body]
pub(crate) fn format_id(id: u128) -> (text: String)
    ensures
        text@ == id_text(id),
{
    uuid::Uuid::from_u128(id).to_string()
}

/// The mime type of a clipboard source of the program that drew `nonce`.
pub fn self_mime_of(nonce: u128, source_id: u128) -> (mime: String)
    ensures
        mime@ == self_mime_text(nonce, source_id),
{
    let mut mime = "application/x-zed-clipboard-".to_owned();
    mime.append(format_id(nonce).as_str());
    mime.append("-");
    mime.append(format_id(source_id).as_str());
    mime
}

/// The mime type of the primary selection of the program that drew `nonce`.
pub fn primary_self_mime_of(nonce: u128) -> (mime: String)
    ensures
        mime@ == primary_self_mime_text(nonce),
{
    let mut mime = "application/x-zed-primary-".to_owned();
    mime.append(format_id(nonce).as_str());
    mime
}

proof fn lemma_hex_digit_injective(a: int, b: int)
    requires
        0 <= a < 16,
        0 <= b < 16,
        hex_digit(a) == hex_digit(b),
    ensures
        a == b,
{
    reveal_strlit("0123456789abcdef");
}

/// Dividing off one digit less leaves one digit more.
pub(crate) proof fn lemma_prefix_extends(id: u128, place: int)
    requires
        0 <= place < 32,
    ensures
        id as int / pow(16, (31 - place) as nat) == 16 * (id as int / pow(
            16,
            (32 - place) as nat,
        )) + nibble(id, place),
{
    let n = (31 - place) as nat;
    let x = id as int;
    lemma_pow_positive(16, n);
    lemma_pow_adds(16, n, 1);
    lemma_pow1(16);
    assert(pow(16, (32 - place) as nat) == pow(16, n) * 16);
    lemma_div_denominator(x, pow(16, n), 16);
    lemma_fundamental_div_mod(x / pow(16, n), 16);
}

proof fn lemma_same_prefix(a: u128, b: u128, places: nat)
    requires
        places <= 32,
        forall|place: int| 0 <= place < places ==> nibble(a, place) == nibble(b, place),
    ensures
        a as int / pow(16, (32 - places) as nat) == b as int / pow(16, (32 - places) as nat),
    decreases places,
{
    if places == 0 {
        lemma_top_of_range();
        lemma_basic_div(a as int, pow(16, 32));
        lemma_basic_div(b as int, pow(16, 32));
    } else {
        lemma_same_prefix(a, b, (places - 1) as nat);
        lemma_prefix_extends(a, places - 1);
        lemma_prefix_extends(b, places - 1);
        assert(nibble(a, places - 1) == nibble(b, places - 1));
    }
}

pub(crate) proof fn lemma_top_of_range()
    ensures
        pow(16, 32) == u128::MAX + 1,
{
    reveal(pow);
    lemma_pow_adds(16, 8, 8);
    lemma_pow_adds(16, 16, 16);
    assert(pow(16, 8) == 0x1_0000_0000) by {
        reveal_with_fuel(pow, 9);
    }
    assert(pow(16, 16) == 0x1_0000_0000_0000_0000);
    assert(pow(16, 32) == 0x1_0000_0000_0000_0000 * 0x1_0000_0000_0000_0000);
}

/// Identifiers with the same text are the same identifier.
pub proof fn id_text_is_injective(a: u128, b: u128)
    requires
        id_text(a) == id_text(b),
    ensures
        a == b,
{
    assert forall|place: int| 0 <= place < 32 implies nibble(a, place) == nibble(b, place) by {
        let position = if place < 8 {
            place
        } else if place < 12 {
            place + 1
        } else if place < 16 {
            place + 2
        } else if place < 20 {
            place + 3
        } else {
            place + 4
        };
        assert(position - hyphens_before(position) == place);
        assert(id_text(a)[position] == hex_digit(nibble(a, place)));
        assert(id_text(b)[position] == hex_digit(nibble(b, place)));
        lemma_hex_digit_injective(nibble(a, place), nibble(b, place));
    }
    lemma_same_prefix(a, b, 32);
    lemma_pow0(16);
}

/// Two sources of one program never carry the same mark.
pub proof fn self_mime_identifies_the_source(nonce: u128, a: u128, b: u128)
    requires
        self_mime_text(nonce, a) == self_mime_text(nonce, b),
    ensures
        a == b,
{
    let prefix = "application/x-zed-clipboard-"@ + id_text(nonce) + "-"@;
    assert((prefix + id_text(a)).skip(prefix.len() as int) =~= id_text(a));
    assert((prefix + id_text(b)).skip(prefix.len() as int) =~= id_text(b));
    id_text_is_injective(a, b);
}

/// Two programs that drew different nonces never use the same mark for any of their sources.
pub proof fn self_mime_identifies_the_program(nonce: u128, other: u128, a: u128, b: u128)
    requires
        self_mime_text(nonce, a) == self_mime_text(other, b),
    ensures
        nonce == other,
        a == b,
{
    reveal_strlit("application/x-zed-clipboard-");
    let prefix = "application/x-zed-clipboard-"@;
    assert(self_mime_text(nonce, a).subrange(28, 64) =~= id_text(nonce));
    assert(self_mime_text(other, b).subrange(28, 64) =~= id_text(other));
    id_text_is_injective(nonce, other);
    self_mime_identifies_the_source(nonce, a, b);
}

/// The mark of the primary selection is never that of a clipboard source.
pub proof fn primary_mark_is_no_source_mark(nonce: u128, other: u128, source_id: u128)
    ensures
        primary_self_mime_text(nonce) != self_mime_text(other, source_id),
{
    reveal_strlit("application/x-zed-clipboard-");
    reveal_strlit("application/x-zed-primary-");
    assert(primary_self_mime_text(nonce)[18] == 'p');
    assert(self_mime_text(other, source_id)[18] == 'c');
}

} // verus!
