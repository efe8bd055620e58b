use vstd::prelude::*;
use std::marker::PhantomData;

verus! {

/// The bits that a random (version 4, RFC 4122 variant) identifier fixes.
pub open spec fn is_random_uuid(v: u128) -> bool {
    v & 0x0000_0000_0000_f000_c000_0000_0000_0000u128 == 0x0000_0000_0000_4000_8000_0000_0000_0000u128
}

/// A fresh random identifier, as its 128 bits.
///
/// Calls `uuid::Uuid::new_v4` and reads it back with `as_u128`. The crate
/// draws 128 random bits, clears the version and variant bits and sets them
/// to version 4 and the RFC 4122 variant; the contract states those fixed
/// bits, the others are left to chance.
#[verifier::external_body]
pub(crate) fn new_v4_u128() -> (v: u128)
    ensures
        is_random_uuid(v),
{
    uuid::Uuid::new_v4().as_u128()
}

/// The lower-case hexadecimal digit of value `d`.
pub open spec fn spec_hex_digit(d: int) -> char {
    seq!['0', '1', '2', '3', '4', '5', '6', '7', '8', '9', 'a', 'b', 'c', 'd', 'e', 'f'][d]
}

/// The `n`-th group of four bits of `v`, the most significant first.
pub open spec fn spec_nibble(v: u128, n: int) -> int {
    ((v >> ((124 - 4 * n) as u128)) & 0xfu128) as int
}

/// The hyphenated form of an identifier: its 32 hexadecimal digits, the
/// most significant first, in groups of 8, 4, 4, 4 and 12 joined by
/// hyphens.
pub open spec fn spec_hyphenated(v: u128) -> Seq<char> {
    Seq::new(
        36,
        |i: int|
            if i == 8 || i == 13 || i == 18 || i == 23 {
                '-'
            } else {
                spec_hex_digit(
                    spec_nibble(
                        v,
                        i - if i < 8 {
                            0int
                        } else if i < 13 {
                            1int
                        } else if i < 18 {
                            2int
                        } else if i < 23 {
                            3int
                        } else {
                            4int
                        },
                    ),
                )
            },
    )
}

/// What `uuid::Uuid::parse_str` reads from a text: the identifier's bits, or
/// nothing when the text is no identifier.
pub uninterp spec fn parsed_uuid(s: Seq<char>) -> Option<u128>;

/// The hyphenated form of an identifier.
///
/// Calls `uuid::Uuid::from_u128(v).to_string()`. The crate's `Display` writes
/// the lower-case hyphenated form, the bytes of `v` from the most
/// significant; its documentation says that `parse_str` reads back any form
/// it writes.
#[verifier::external_body]
pub(crate) fn uuid_to_string(v: u128) -> (s: String)
    ensures
        s@ == spec_hyphenated(v),
        parsed_uuid(s@) == Some(v),
{
    uuid::Uuid::from_u128(v).to_string()
}

/// Reads an identifier from a text.
///
/// Calls `uuid::Uuid::parse_str`, which accepts the simple, hyphenated, URN
/// and braced forms, and reads the result with `as_u128`. Which texts it
/// accepts is left to the name `parsed_uuid`; the contract states that it
/// reads back the hyphenated form.
#[verifier::external_body]
pub(crate) fn parse_uuid(s: &str) -> (r: Option<u128>)
    ensures
        r == parsed_uuid(s@),
        forall|v: u128| s@ == spec_hyphenated(v) ==> r == Some(v),
{
    match uuid::Uuid::parse_str(s) {
        Ok(u) => Some(u.as_u128()),
        Err(_) => None,
    }
}

/// An identifier bound to the kind of thing `T` it identifies, so that the
/// identifier of one kind can never be taken for that of another.
pub struct Uuid<T> {
    id: u128,
    _phantom: PhantomData<T>,
}

impl<T> Uuid<T> {
    pub closed spec fn spec_bits(&self) -> u128 {
        self.id
    }

    /// A fresh random identifier.
    pub fn new() -> (u: Self)
        ensures
            is_random_uuid(u.spec_bits()),
    {
        Uuid { id: new_v4_u128(), _phantom: PhantomData }
    }

    /// The 128 bits of the identifier.
    pub fn as_u128(&self) -> (v: u128)
        ensures
            v == self.spec_bits(),
    {
        self.id
    }
}

} // verus!
