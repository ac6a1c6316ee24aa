//! Account identifiers: opaque byte strings compared by content.

use vstd::prelude::*;

verus! {

/// An account identifier. The engine never interprets the bytes; it only
/// compares identifiers for equality.
pub struct AccountId {
    /// The raw bytes of the identifier.
    pub bytes: Vec<u8>,
}

impl View for AccountId {
    type V = Seq<u8>;

    open spec fn view(&self) -> Seq<u8> {
        self.bytes@
    }
}

impl AccountId {
    /// Wraps raw bytes as an account identifier.
    pub fn new(bytes: Vec<u8>) -> (r: AccountId)
        ensures
            r@ == bytes@,
    {
        AccountId { bytes }
    }

    /// A structural copy of the identifier.
    pub fn duplicate(&self) -> (r: AccountId)
        ensures
            r@ == self@,
    {
        let mut copy: Vec<u8> = Vec::new();
        let mut i: usize = 0;
        while i < self.bytes.len()
            invariant
                i <= self.bytes.len(),
                copy@ == self.bytes@.take(i as int),
            decreases self.bytes.len() - i,
        {
            copy.push(self.bytes[i]);
            proof {
                assert(self.bytes@.take(i as int).push(self.bytes@[i as int]) =~= self.bytes@.take(
                    i + 1,
                ));
            }
            i = i + 1;
        }
        proof {
            assert(copy@ =~= self.bytes@);
        }
        AccountId { bytes: copy }
    }

    /// Content equality of two identifiers.
    pub fn is_same(&self, other: &AccountId) -> (r: bool)
        ensures
            r == (self@ == other@),
    {
        let r = self.bytes == other.bytes;
        proof {
            if r {
                assert(self.bytes@ =~= other.bytes@);
            }
            if self.bytes@ == other.bytes@ {
                assert(forall|i: int|
                    0 <= i < self.bytes@.len() ==> self.bytes@[i] == other.bytes@[i]);
            }
        }
        r
    }
}

} // verus!
