//! The keys that name actors and assets.

use vstd::prelude::*;
use vstd::std_specs::cmp::PartialEqSpecImpl;

verus! {

/// Whether two 32-byte keys hold the same bytes.
fn same_key(a: &[u8; 32], b: &[u8; 32]) -> (r: bool)
    ensures
        r == (*a == *b),
{
    let mut i: usize = 0;
    while i < 32
        invariant
            i <= 32,
            forall|j: int| 0 <= j < i ==> a[j] == b[j],
        decreases 32 - i,
    {
        if a[i] != b[i] {
            return false;
        }
        i += 1;
    }
    assert(*a =~= *b);
    true
}

/// The 32-byte key that names an actor: a maker, a taker, any caller.
#[derive(Clone, Copy, Debug)]
pub struct Identity {
    pub key: [u8; 32],
}

impl Identity {
    /// The actor named by `key`.
    pub fn new(key: [u8; 32]) -> (r: Identity)
        ensures
            r.key == key,
    {
        Identity { key }
    }
}

impl PartialEq for Identity {
    fn eq(&self, other: &Identity) -> (r: bool) {
        same_key(&self.key, &other.key)
    }
}

impl Eq for Identity {}

impl PartialEqSpecImpl for Identity {
    open spec fn obeys_eq_spec() -> bool {
        true
    }

    open spec fn eq_spec(&self, other: &Identity) -> bool {
        *self == *other
    }
}

/// The 32-byte key that names a fungible asset.
#[derive(Clone, Copy, Debug)]
pub struct Asset {
    pub key: [u8; 32],
}

impl Asset {
    /// The asset named by `key`.
    pub fn new(key: [u8; 32]) -> (r: Asset)
        ensures
            r.key == key,
    {
        Asset { key }
    }
}

impl PartialEq for Asset {
    fn eq(&self, other: &Asset) -> (r: bool) {
        same_key(&self.key, &other.key)
    }
}

impl Eq for Asset {}

impl PartialEqSpecImpl for Asset {
    open spec fn obeys_eq_spec() -> bool {
        true
    }

    open spec fn eq_spec(&self, other: &Asset) -> bool {
        *self == *other
    }
}

} // verus!
