//! Process-local randomness, behind trusted wrappers. Nothing is claimed
//! about the values beyond their shape.

use vstd::prelude::*;

verus! {

/// Relies on `uuid::Uuid::new_v4` and its `Display` form: a fresh random
/// UUID always formats as 36 hyphenated ASCII characters.
#[verifier::external_body]
pub fn new_uuid_bytes() -> (r: Vec<u8>)
    ensures
        r@.len() == 36,
{
    uuid::Uuid::new_v4().to_string().into_bytes()
}

/// Relies on `rand::random`: an arbitrary `u32`; nothing is promised of
/// its value.
#[verifier::external_body]
pub fn random_u32() -> u32 {
    rand::random::<u32>()
}

} // verus!
