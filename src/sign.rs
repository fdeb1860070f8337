//! Signature and public-key records of a confidential VM's identity block,
//! in their fixed binary layout.

use vstd::prelude::*;

verus! {

pub open spec fn zeros(n: nat) -> Seq<u8> {
    Seq::new(n, |i: int| 0u8)
}

/// An ECDSA P-384 value pair, little-endian, zero-padded.
#[derive(Copy, Clone, Debug, PartialEq, Eq)]
pub struct Es384 {
    pub r: [u8; 0x48],
    pub s: [u8; 0x48],
}

impl Default for Es384 {
    fn default() -> (d: Self)
        ensures
            d.r@ == zeros(0x48),
            d.s@ == zeros(0x48),
    {
        let d = Es384 { r: [0u8; 0x48], s: [0u8; 0x48] };
        assert(d.r@ =~= zeros(0x48));
        assert(d.s@ =~= zeros(0x48));
        d
    }
}

/// A signature; the reserved bytes must be zero.
#[derive(Copy, Clone, Debug, PartialEq, Eq)]
pub struct Signature {
    pub component: Es384,
    rsvd: [u8; 368],
}

impl Signature {
    pub closed spec fn reserved(&self) -> Seq<u8> {
        self.rsvd@
    }

    pub closed spec fn spec_component(&self) -> Es384 {
        self.component
    }

    pub fn reserved_is_zero(&self) -> (r: bool)
        ensures
            r == (self.reserved() == zeros(368)),
    {
        let mut i: usize = 0;
        while i < 368
            invariant
                i <= 368,
                forall|k: int| 0 <= k < i ==> self.rsvd@[k] == 0u8,
            decreases 368 - i,
        {
            if self.rsvd[i] != 0 {
                assert(self.reserved()[i as int] != zeros(368)[i as int]);
                return false;
            }
            i += 1;
        }
        assert(self.reserved() =~= zeros(368));
        true
    }
}

impl Default for Signature {
    fn default() -> (d: Self)
        ensures
            d.spec_component().r@ == zeros(0x48),
            d.spec_component().s@ == zeros(0x48),
            d.reserved() == zeros(368),
    {
        let d = Signature { component: Es384::default(), rsvd: [0u8; 368] };
        assert(d.rsvd@ =~= zeros(368));
        d
    }
}

/// A public key: curve identifier and point; the reserved bytes must be zero.
#[derive(Copy, Clone, Debug, PartialEq, Eq)]
pub struct PublicKey {
    pub curve: u32,
    pub component: Es384,
    rsvd: [u8; 880],
}

/// The curve identifier of P-384.
pub const CURVE_P384: u32 = 2;

impl PublicKey {
    pub closed spec fn reserved(&self) -> Seq<u8> {
        self.rsvd@
    }

    pub closed spec fn spec_component(&self) -> Es384 {
        self.component
    }

    pub closed spec fn spec_curve(&self) -> u32 {
        self.curve
    }
}

impl Default for PublicKey {
    fn default() -> (d: Self)
        ensures
            d.spec_curve() == CURVE_P384,
            d.spec_component().r@ == zeros(0x48),
            d.spec_component().s@ == zeros(0x48),
            d.reserved() == zeros(880),
    {
        let d = PublicKey { curve: CURVE_P384, component: Es384::default(), rsvd: [0u8; 880] };
        assert(d.rsvd@ =~= zeros(880));
        d
    }
}

} // verus!
