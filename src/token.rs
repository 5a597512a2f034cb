//! Watch tokens: random 128-bit identifiers, sent on the wire in the
//! canonical textual form of a UUID.
use vstd::prelude::*;

verus! {

/// The token that tags the events of one watch subscription.
#[derive(Clone, Copy, Debug, PartialEq, Eq, Structural)]
pub struct XsWatchToken(pub u128);

/// The lower-case hexadecimal digit of a value below 16.
pub open spec fn hex_digit(n: u128) -> char {
    if n == 0 { '0' }
    else if n == 1 { '1' }
    else if n == 2 { '2' }
    else if n == 3 { '3' }
    else if n == 4 { '4' }
    else if n == 5 { '5' }
    else if n == 6 { '6' }
    else if n == 7 { '7' }
    else if n == 8 { '8' }
    else if n == 9 { '9' }
    else if n == 10 { 'a' }
    else if n == 11 { 'b' }
    else if n == 12 { 'c' }
    else if n == 13 { 'd' }
    else if n == 14 { 'e' }
    else { 'f' }
}

/// Hexadecimal digit `d` of `t`, counting from 0 at the most significant of 32.
pub open spec fn nibble(t: u128, d: int) -> u128 {
    (t >> ((124 - 4 * d) as u128)) & 0xFu128
}

/// The canonical text of the UUID with value `t`: its 32 lower-case
/// hexadecimal digits, most significant first, in groups of 8, 4, 4, 4 and
/// 12 joined by hyphens (at positions 8, 13, 18 and 23).
pub open spec fn uuid_text(t: u128) -> Seq<char> {
    Seq::new(
        36,
        |i: int|
            if i == 8 || i == 13 || i == 18 || i == 23 {
                '-'
            } else {
                let d = if i < 8 {
                    i
                } else if i < 13 {
                    i - 1
                } else if i < 18 {
                    i - 2
                } else if i < 23 {
                    i - 3
                } else {
                    i - 4
                };
                hex_digit(nibble(t, d))
            },
    )
}

/// The canonical text of a token is ASCII without NUL, so it takes 36 bytes.
pub proof fn lemma_uuid_text_bytes(t: u128)
    ensures
        uuid_text(t).len() == 36,
        vstd::utf8::encode_utf8(uuid_text(t)).len() == 36,
        forall|j: int| 0 <= j < uuid_text(t).len() ==> uuid_text(t)[j] != '\0',
{
    let s = uuid_text(t);
    assert(vstd::utf8::is_ascii_chars(s));
    vstd::utf8::is_ascii_chars_encode_utf8(s);
}

/// The value of the UUID that a text spells, if it spells one.
pub uninterp spec fn uuid_of_text(s: Seq<char>) -> Option<u128>;

/// Relies on `uuid::Uuid::new_v4`: a random version-4 UUID, taken as its
/// 128-bit value. Nothing is promised of the value.
#[verifier::external_body]
pub(crate) fn random_token() -> (r: u128) {
    uuid::Uuid::new_v4().as_u128()
}

/// Relies on `uuid::Uuid::from_u128` and uuid's `Display` impl: the
/// canonical text of the UUID with value `t`, a function of `t` alone.
#[verifier::external_body]
pub(crate) fn token_text(t: u128) -> (r: String)
    ensures
        r@ == uuid_text(t),
{
    uuid::Uuid::from_u128(t).to_string()
}

/// Relies on `uuid::Uuid::try_parse` and `Uuid::as_u128`: the value of the
/// UUID that `s` spells, a function of `s` alone; the canonical text of a
/// value (the hyphenated form, which `try_parse` accepts) gives that value.
#[verifier::external_body]
pub(crate) fn parse_token(s: &str) -> (r: Option<u128>)
    ensures
        r == uuid_of_text(s@),
        forall|t: u128| #[trigger] uuid_text(t) == s@ ==> r == Some(t),
{
    match uuid::Uuid::try_parse(s) {
        Ok(u) => Some(u.as_u128()),
        Err(_) => None,
    }
}

} // verus!
