//! Content-derived identities of canonical keys.

use vstd::prelude::*;
use vstd::arithmetic::power::pow;
use uuid::Uuid;
use crate::record::{canonical_text, CanonicalKey, KeyModel};

verus! {

/// The namespace under which every identity is derived.
pub const NAMESPACE: u128 = 0x40689d13_36ac_4216_9c41_f02b007d46c2u128;

/// The version-5 name-based identifier of `name` under `namespace`, as a
/// 128-bit number in big-endian reading.
pub uninterp spec fn name_based_id(namespace: u128, name: Seq<char>) -> u128;

/// Calls `uuid::Uuid::new_v5` with the UTF-8 bytes of `name`; the namespace
/// goes in through `Uuid::from_u128` and the identifier comes back through
/// `Uuid::as_u128`. The result is taken to depend on the two arguments
/// alone; nothing else is claimed of it.
#[verifier::external_body]
fn uuid_v5(namespace: u128, name: &str) -> (id: u128)
    ensures
        id == name_based_id(namespace, name@),
{
    Uuid::new_v5(&Uuid::from_u128(namespace), name.as_bytes()).as_u128()
}

/// The identity of a route-event shape.
#[derive(Clone, Copy, Debug, PartialEq, Eq, Hash, Structural)]
pub struct RecordIdentity {
    pub value: u128,
}

/// The identity that belongs to a key: the name-based identifier of its
/// canonical string form under the fixed namespace.
pub open spec fn identity_model(k: KeyModel) -> RecordIdentity {
    RecordIdentity { value: name_based_id(NAMESPACE, canonical_text(k)) }
}

/// Derives the identity of a canonical key.
pub fn identity_of(key: &CanonicalKey) -> (id: RecordIdentity)
    ensures
        id == identity_model(key@),
{
    let text = key.canonical_string();
    RecordIdentity { value: uuid_v5(NAMESPACE, text.as_str()) }
}

/// The lower-case character of a hexadecimal digit.
pub open spec fn hex_char(d: int) -> char {
    if d == 0 {
        '0'
    } else if d == 1 {
        '1'
    } else if d == 2 {
        '2'
    } else if d == 3 {
        '3'
    } else if d == 4 {
        '4'
    } else if d == 5 {
        '5'
    } else if d == 6 {
        '6'
    } else if d == 7 {
        '7'
    } else if d == 8 {
        '8'
    } else if d == 9 {
        '9'
    } else if d == 10 {
        'a'
    } else if d == 11 {
        'b'
    } else if d == 12 {
        'c'
    } else if d == 13 {
        'd'
    } else if d == 14 {
        'e'
    } else {
        'f'
    }
}

/// The `k`-th of the 32 hexadecimal digits of a 128-bit number, counted from
/// the most significant.
pub open spec fn hex_digit(value: u128, k: int) -> int {
    (value as int / pow(16, (31 - k) as nat)) % 16
}

/// The hexadecimal digit that stands at a position of the hyphenated form.
pub open spec fn digit_at(position: int) -> int {
    if position < 8 {
        position
    } else if position < 13 {
        position - 1
    } else if position < 18 {
        position - 2
    } else if position < 23 {
        position - 3
    } else {
        position - 4
    }
}

/// The hyphenated form of an identity: 32 lower-case hexadecimal digits in
/// groups of 8, 4, 4, 4 and 12.
pub open spec fn hyphenated(value: u128) -> Seq<char> {
    Seq::new(
        36,
        |i: int|
            if i == 8 || i == 13 || i == 18 || i == 23 {
                '-'
            } else {
                hex_char(hex_digit(value, digit_at(i)))
            },
    )
}

/// Calls `Uuid::from_u128` and the `to_string` of `uuid`'s `Uuid`, which
/// writes the hyphenated form in lower case.
#[verifier::external_body]
fn uuid_text(value: u128) -> (text: String)
    ensures
        text@ == hyphenated(value),
{
    Uuid::from_u128(value).to_string()
}

impl RecordIdentity {
    /// Returns the identity in its hyphenated form.
    pub fn to_text(self) -> (text: String)
        ensures
            text@ == hyphenated(self.value),
    {
        uuid_text(self.value)
    }
}

/// Keys with the same five texts have the same identity, whenever and
/// wherever it is derived.
pub proof fn identity_is_determined_by_key(a: CanonicalKey, b: CanonicalKey)
    requires
        a@ == b@,
    ensures
        identity_model(a@) == identity_model(b@),
{
}

} // verus!
