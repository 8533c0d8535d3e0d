//! Identifier generation. The store keys its rows by the 128-bit value of a
//! version-4 UUID, drawn from the operating system's randomness.

use vstd::prelude::*;

verus! {

/// Relies on uuid::Uuid::new_v4 and uuid::Uuid::as_u128: a random 128-bit
/// value whose version nibble is 4 and whose variant bits are the two bits
/// `10`. Nothing else can be promised of a random identifier; in particular,
/// two calls may return anything, equal or not.
#[verifier::external_body]
pub fn new_todo_id() -> (r: u128)
    ensures
        r & 0xF0000000000000000000 == 0x40000000000000000000,
        r & 0xC000000000000000 == 0x8000000000000000,
{
    uuid::Uuid::new_v4().as_u128()
}

} // verus!
