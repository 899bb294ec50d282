//! 256-bit unsigned integers, as amounts, counts and ledger positions are
//! exchanged with the outside.

use vstd::prelude::*;

verus! {

/// The weight of the second limb, 2^64.
pub open spec fn limb_base() -> nat {
    0x1_0000_0000_0000_0000
}

/// The number that four limbs stand for, least significant limb first.
pub open spec fn limbs_value(limbs: Seq<u64>) -> nat
    recommends
        limbs.len() == 4,
{
    (limbs[0] as nat) + (limbs[1] as nat) * limb_base() + (limbs[2] as nat) * limb_base()
        * limb_base() + (limbs[3] as nat) * limb_base() * limb_base() * limb_base()
}

/// An unsigned integer below 2^256, held as four 64-bit limbs.
#[derive(Clone, Copy, Debug, PartialEq, Eq, Hash)]
pub struct U256 {
    limbs: [u64; 4],
}

impl View for U256 {
    type V = nat;

    open spec fn view(&self) -> nat {
        limbs_value(self.limbs())
    }
}

impl U256 {
    /// The four limbs, least significant first.
    pub closed spec fn limbs(self) -> Seq<u64> {
        self.limbs@
    }

    pub fn from_limbs(limbs: [u64; 4]) -> (r: U256)
        ensures
            r.limbs() == limbs@,
    {
        U256 { limbs }
    }

    pub fn into_limbs(self) -> (r: [u64; 4])
        ensures
            r@ == self.limbs(),
    {
        self.limbs
    }

    pub fn from_usize(n: usize) -> (r: U256)
        ensures
            r@ == n,
    {
        U256 { limbs: [n as u64, 0, 0, 0] }
    }

    /// The value as a `usize`, where it fits in one.
    pub fn to_usize(&self) -> (r: Option<usize>)
        ensures
            r == (if self@ <= usize::MAX {
                Some(self@ as usize)
            } else {
                None
            }),
    {
        if self.limbs[1] == 0 && self.limbs[2] == 0 && self.limbs[3] == 0 && self.limbs[0]
            <= usize::MAX as u64 {
            Some(self.limbs[0] as usize)
        } else {
            None
        }
    }

    /// Two values that stand for the same number are the same value.
    pub proof fn lemma_view_injective(a: U256, b: U256)
        requires
            a@ == b@,
        ensures
            a == b,
    {
        let x = a.limbs();
        let y = b.limbs();
        assert(x[3] == y[3] && x[2] == y[2] && x[1] == y[1] && x[0] == y[0]);
        assert(a.limbs =~= b.limbs);
    }
}

} // verus!
