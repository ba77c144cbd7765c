use vstd::prelude::*;

verus! {

/// Opaque, stable identifier of a user; the key for registry lookups and
/// topic filtering. Carried as the 128-bit value of the caller's id.
#[derive(Clone, Copy, PartialEq, Eq, Structural, Hash, Debug)]
pub struct UserId {
    pub value: u128,
}

impl UserId {
    pub fn new(value: u128) -> (r: UserId)
        ensures
            r.value == value,
    {
        UserId { value }
    }
}

} // verus!
