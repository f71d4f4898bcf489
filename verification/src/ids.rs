//! Identifiers. A UUID is held as its 128-bit big-endian value (what
//! `uuid::Uuid::as_u128` returns), so ids compare the way `Uuid` values do:
//! byte by byte, which is numeric order on that value.
use vstd::prelude::*;

verus! {

/// The result of an outside call that reports failure as a message.
pub type TextResult<T> = core::result::Result<T, String>;

/// A UUID as its 128-bit big-endian value.
pub type Id = u128;

/// Lowercase hexadecimal digit for `d < 16`.
pub open spec fn hex_digit(d: nat) -> char {
    if d < 10 {
        ((d + 48) as u32) as char
    } else {
        ((d + 87) as u32) as char
    }
}

/// The `k` low hexadecimal digits of `x`, most significant first.
pub open spec fn hex_fixed(x: nat, k: nat) -> Seq<char>
    decreases k,
{
    if k == 0 {
        Seq::empty()
    } else {
        hex_fixed(x / 16, (k - 1) as nat).push(hex_digit(x % 16))
    }
}

/// The hyphenated lowercase text of a UUID, `8-4-4-4-12` hexadecimal digits.
pub open spec fn uuid_text(x: u128) -> Seq<char> {
    let h = hex_fixed(x as nat, 32);
    h.subrange(0, 8) + seq!['-'] + h.subrange(8, 12) + seq!['-'] + h.subrange(12, 16) + seq!['-']
        + h.subrange(16, 20) + seq!['-'] + h.subrange(20, 32)
}

proof fn lemma_hex_fixed_len(x: nat, k: nat)
    ensures
        hex_fixed(x, k).len() == k,
    decreases k,
{
    if k > 0 {
        lemma_hex_fixed_len(x / 16, (k - 1) as nat);
    }
}

/// The text of a UUID has 36 characters.
pub proof fn lemma_uuid_text_len(x: u128)
    ensures
        uuid_text(x).len() == 36,
{
    lemma_hex_fixed_len(x as nat, 32);
}

/// What `Uuid::parse_str` gives for a text: the UUID's value, or `None` when
/// the text is not one of the accepted UUID formats.
pub uninterp spec fn uuid_parse_result(s: Seq<char>) -> Option<u128>;

/// `Uuid::parse_str`. The result is a function of the text; the hyphenated
/// lowercase text that `Uuid`'s `Display` writes parses back to the same
/// UUID (the crate documents that every format it generates is accepted).
/// Which other texts are accepted (simple, braced, URN, upper case) is left
/// to the name. On failure the error's message is returned.
#[verifier::external_body]
pub(crate) fn parse_uuid_text(s: &str) -> (r: TextResult<u128>)
    ensures
        r is Ok <==> uuid_parse_result(s@) is Some,
        r matches Ok(v) ==> uuid_parse_result(s@) == Some(v),
        forall|x: u128| s@ == uuid_text(x) ==> (r is Ok && r->Ok_0 == x),
{
    match uuid::Uuid::parse_str(s) {
        Ok(u) => Ok(u.as_u128()),
        Err(e) => Err(e.to_string()),
    }
}

/// `Uuid::to_string`: the hyphenated lowercase text of the UUID.
#[verifier::external_body]
pub(crate) fn uuid_to_string(x: u128) -> (r: String)
    ensures
        r@ == uuid_text(x),
{
    uuid::Uuid::from_u128(x).to_string()
}

/// The text of an optional id: the UUID text, or the empty text for `None`.
pub open spec fn opt_uuid_text(x: Option<u128>) -> Seq<char> {
    match x {
        Some(v) => uuid_text(v),
        None => Seq::empty(),
    }
}

/// Text of an optional id, empty for `None`.
pub fn opt_uuid_to_string(x: Option<u128>) -> (r: String)
    ensures
        r@ == opt_uuid_text(x),
{
    match x {
        Some(v) => uuid_to_string(v),
        None => String::new(),
    }
}

} // verus!
