//! Addresses: fixed-width identifiers for mints, principals, programs and
//! derived storage locations.

use vstd::prelude::*;

verus! {

/// A 32-byte identifier. The all-zero address is reserved as the "unset"
/// sentinel and never names a real principal or program.
#[derive(Debug, Clone, Copy)]
pub struct Address {
    pub bytes: [u8; 32],
}

impl View for Address {
    type V = Seq<u8>;

    open spec fn view(&self) -> Seq<u8> {
        self.bytes@
    }
}

impl Address {
    /// The sentinel view: thirty-two zero bytes.
    pub open spec fn spec_unset() -> Seq<u8> {
        Seq::new(32, |i: int| 0u8)
    }

    /// Whether this address is the reserved "unset" sentinel.
    pub open spec fn is_unset(&self) -> bool {
        self@ == Self::spec_unset()
    }

    pub fn new(bytes: [u8; 32]) -> (r: Address)
        ensures
            r@ == bytes@,
    {
        Address { bytes }
    }

    /// The reserved all-zero address.
    pub fn unset() -> (r: Address)
        ensures
            r.is_unset(),
    {
        let bytes = [0u8; 32];
        let r = Address { bytes };
        proof {
            assert(r@ =~= Self::spec_unset());
        }
        r
    }

    pub fn to_bytes(&self) -> (r: [u8; 32])
        ensures
            r@ == self@,
    {
        self.bytes
    }

    /// Whether this address is the reserved sentinel, decided byte by byte.
    pub fn is_unset_exec(&self) -> (r: bool)
        ensures
            r == self.is_unset(),
    {
        let mut i: usize = 0;
        while i < 32
            invariant
                0 <= i <= 32,
                forall|j: int| 0 <= j < i ==> self.bytes@[j] == 0u8,
            decreases 32 - i,
        {
            if self.bytes[i] != 0 {
                proof {
                    assert(self@[i as int] != 0);
                    assert(self@ != Self::spec_unset());
                }
                return false;
            }
            i += 1;
        }
        proof {
            assert(self@ =~= Self::spec_unset());
        }
        true
    }
}

impl PartialEq for Address {
    fn eq(&self, other: &Address) -> (r: bool) {
        let mut i: usize = 0;
        while i < 32
            invariant
                0 <= i <= 32,
                forall|j: int| 0 <= j < i ==> self.bytes@[j] == other.bytes@[j],
            decreases 32 - i,
        {
            if self.bytes[i] != other.bytes[i] {
                return false;
            }
            i += 1;
        }
        proof {
            assert(self.bytes@ =~= other.bytes@);
        }
        true
    }
}

impl vstd::std_specs::cmp::PartialEqSpecImpl for Address {
    open spec fn obeys_eq_spec() -> bool {
        true
    }

    open spec fn eq_spec(&self, other: &Address) -> bool {
        self@ == other@
    }
}

/// Address equality is exactly equality of the underlying bytes: two
/// addresses with equal views are the same value.
pub proof fn lemma_address_eq(a: Address, b: Address)
    ensures
        (a@ == b@) <==> (a == b),
{
    if a@ == b@ {
        assert(a.bytes@ == b.bytes@);
        assert(a.bytes =~= b.bytes);
    }
}

} // verus!
