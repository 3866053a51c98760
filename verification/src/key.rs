use vstd::prelude::*;

verus! {

/// An opaque 256-bit identity key, carried as four 64-bit limbs.
///
/// The engine never inspects a key beyond exact equality against a stored
/// authority or identity key.
#[derive(Clone, Copy, PartialEq, Eq, Structural, Debug)]
pub struct Key {
    pub w0: u64,
    pub w1: u64,
    pub w2: u64,
    pub w3: u64,
}

impl Key {
    /// The all-zero key, used as a placeholder before identity linkage is set.
    pub fn zero() -> (k: Key)
        ensures
            k == (Key { w0: 0, w1: 0, w2: 0, w3: 0 }),
    {
        Key { w0: 0, w1: 0, w2: 0, w3: 0 }
    }
}

} // verus!
