//! Identifiers of requests and reservations: 128-bit UUIDs and their text.
use vstd::prelude::*;

#[allow(unused_imports)]
use crate::text::hex_digit;

verus! {

/// Whether an identifier is a version 4 UUID of the RFC 9562 variant.
pub open spec fn random_uuid(id: u128) -> bool {
    &&& (id / 0x1000_0000_0000_0000_0000) % 16 == 4
    &&& (id / 0x4000_0000_0000_0000) % 4 == 2
}

/// `Uuid::new_v4`: a fresh random identifier, of which only the version and
/// variant bits are fixed.
#[verifier::external_body]
pub(crate) fn fresh_uuid() -> (id: u128)
    ensures
        random_uuid(id),
{
    uuid::Uuid::new_v4().as_u128()
}

/// The lowest `width` hexadecimal digits of a number.
pub open spec fn fixed_hex(n: nat, width: nat) -> Seq<char>
    decreases width,
{
    if width == 0 {
        Seq::empty()
    } else {
        fixed_hex(n / 16, (width - 1) as nat).push(hex_digit(n % 16))
    }
}

/// A UUID in its usual form: groups of 8, 4, 4, 4 and 12 lower-case digits.
pub open spec fn hyphenated(id: u128) -> Seq<char> {
    let n = id as nat;
    fixed_hex(n / 0x1_0000_0000_0000_0000_0000_0000, 8) + seq!['-'] + fixed_hex(
        n / 0x1_0000_0000_0000_0000_0000,
        4,
    ) + seq!['-'] + fixed_hex(n / 0x1_0000_0000_0000_0000, 4) + seq!['-'] + fixed_hex(
        n / 0x1_0000_0000_0000,
        4,
    ) + seq!['-'] + fixed_hex(n, 12)
}

/// `Uuid`'s `Display`: the hyphenated form of an identifier.
#[verifier::external_body]
pub(crate) fn uuid_text(id: u128) -> (text: String)
    ensures
        text@ == hyphenated(id),
{
    uuid::Uuid::from_u128(id).to_string()
}

/// A name of what it begins with and a fresh identifier.
pub fn fresh_name(prefix: &str) -> (name: String)
    ensures
        exists|id: u128| random_uuid(id) && name@ == prefix@ + #[trigger] hyphenated(id),
{
    let id = fresh_uuid();
    let mut name = prefix.to_string();
    name.append(uuid_text(id).as_str());
    name
}

proof fn lemma_fixed_hex_len(n: nat, width: nat)
    ensures
        fixed_hex(n, width).len() == width,
    decreases width,
{
    if width > 0 {
        lemma_fixed_hex_len(n / 16, (width - 1) as nat);
    }
}

/// An identifier is written as 36 characters: 32 digits, and hyphens behind the
/// eighth, the twelfth, the sixteenth and the twentieth of them.
pub proof fn law_identifiers_have_their_usual_form(id: u128)
    ensures
        hyphenated(id).len() == 36,
        hyphenated(id)[8] == '-',
        hyphenated(id)[13] == '-',
        hyphenated(id)[18] == '-',
        hyphenated(id)[23] == '-',
{
    let n = id as nat;
    lemma_fixed_hex_len(n / 0x1_0000_0000_0000_0000_0000_0000, 8);
    lemma_fixed_hex_len(n / 0x1_0000_0000_0000_0000_0000, 4);
    lemma_fixed_hex_len(n / 0x1_0000_0000_0000_0000, 4);
    lemma_fixed_hex_len(n / 0x1_0000_0000_0000, 4);
    lemma_fixed_hex_len(n, 12);
}

} // verus!
