//! Record identifiers: `uuid::Uuid` values held as their 128-bit number.
use uuid::Uuid;
use vstd::prelude::*;

verus! {

/// 16 to the power `n`.
pub open spec fn pow16(n: nat) -> int
    decreases n,
{
    if n == 0 {
        1
    } else {
        16 * pow16((n - 1) as nat)
    }
}

/// The lower-case hexadecimal character of the digit `d`.
pub open spec fn hex_char(d: int) -> char {
    if d < 10 {
        (48 + d) as char
    } else {
        (87 + d) as char
    }
}

/// The 32 hexadecimal digits of `id`, most significant first.
pub open spec fn hex32(id: int) -> Seq<char> {
    Seq::new(32, |k: int| hex_char((id / pow16((31 - k) as nat)) % 16))
}

/// The hyphenated form `xxxxxxxx-xxxx-xxxx-xxxx-xxxxxxxxxxxx` in which `Uuid`'s
/// `Display` writes an identifier.
pub open spec fn hyphenated(id: int) -> Seq<char> {
    let h = hex32(id);
    h.subrange(0, 8) + seq!['-'] + h.subrange(8, 12) + seq!['-'] + h.subrange(12, 16) + seq!['-']
        + h.subrange(16, 20) + seq!['-'] + h.subrange(20, 32)
}

/// The identifier that `Uuid::parse_str` reads from a text, or `None` where it
/// refuses it.
pub uninterp spec fn uuid_parsed(text: Seq<char>) -> Option<int>;

/// `Uuid::from_u128(id).to_string()`: the hyphenated lower-case form.
#[verifier::external_body]
pub(crate) fn uuid_text(id: u128) -> (r: String)
    ensures
        r@ == hyphenated(id as int),
{
    Uuid::from_u128(id).to_string()
}

/// `Uuid::parse_str`. Its result is named by `uuid_parsed`; the hyphenated form that
/// `uuid_text` writes is one it reads back, as its documentation says of the forms
/// the crate writes.
#[verifier::external_body]
pub(crate) fn parse_uuid(text: &str) -> (r: Option<u128>)
    ensures
        match r {
            Some(id) => uuid_parsed(text@) == Some(id as int),
            None => uuid_parsed(text@) is None,
        },
        forall|id: u128| #[trigger] hyphenated(id as int) == text@ ==> r == Some(id),
{
    match Uuid::parse_str(text) {
        Ok(u) => Some(u.as_u128()),
        Err(_) => None,
    }
}

} // verus!
