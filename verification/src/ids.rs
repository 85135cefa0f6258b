//! Account identifiers as the pool logic reads them: fixed-width byte
//! strings compared for exact equality.

use vstd::prelude::*;

verus! {

/// Width in bytes of an account identifier.
pub const ACCOUNT_ID_BYTES: usize = 32;

/// Identifier of a ledger account.
#[derive(Debug, PartialEq, Eq)]
pub struct AccountId {
    pub bytes: Vec<u8>,
}

impl View for AccountId {
    type V = Seq<u8>;

    open spec fn view(&self) -> Seq<u8> {
        self.bytes@
    }
}

/// The identifiers of a sequence of accounts, as byte strings.
pub open spec fn ids_view(s: Seq<AccountId>) -> Seq<Seq<u8>> {
    s.map_values(|a: AccountId| a@)
}

impl AccountId {
    /// A well-formed identifier has exactly the fixed width.
    pub open spec fn wf(self) -> bool {
        self@.len() == ACCOUNT_ID_BYTES
    }

    /// Byte-for-byte equality of two identifiers.
    pub fn same_as(&self, other: &AccountId) -> (r: bool)
        ensures
            r == (self@ == other@),
    {
        if self.bytes.len() != other.bytes.len() {
            return false;
        }
        let n = self.bytes.len();
        let mut i: usize = 0;
        while i < n
            invariant
                n == self.bytes@.len(),
                n == other.bytes@.len(),
                i <= n,
                forall|j: int| 0 <= j < i ==> self.bytes@[j] == other.bytes@[j],
            decreases n - i,
        {
            if self.bytes[i] != other.bytes[i] {
                return false;
            }
            i += 1;
        }
        proof {
            assert(self@ =~= other@);
        }
        true
    }
}

impl Clone for AccountId {
    fn clone(&self) -> (r: Self)
        ensures
            r@ == self@,
    {
        let n = self.bytes.len();
        let mut bytes: Vec<u8> = Vec::new();
        let mut i: usize = 0;
        while i < n
            invariant
                n == self.bytes@.len(),
                i <= n,
                bytes@ == self.bytes@.take(i as int),
            decreases n - i,
        {
            bytes.push(self.bytes[i]);
            proof {
                assert(self.bytes@.take(i as int).push(self.bytes@[i as int])
                    =~= self.bytes@.take(i + 1));
            }
            i += 1;
        }
        proof {
            assert(self.bytes@.take(n as int) =~= self.bytes@);
        }
        AccountId { bytes }
    }
}

/// Whether no two of the given identifiers carry the same bytes.
pub fn all_distinct(v: &Vec<AccountId>) -> (r: bool)
    ensures
        r == (forall|i: int, j: int| 0 <= i < j < v@.len() ==> v@[i]@ != v@[j]@),
{
    let n = v.len();
    let mut i: usize = 0;
    while i < n
        invariant
            n == v@.len(),
            i <= n,
            forall|p: int, q: int| 0 <= p < q < v@.len() && p < i ==> v@[p]@ != v@[q]@,
        decreases n - i,
    {
        let mut j: usize = i + 1;
        while j < n
            invariant
                n == v@.len(),
                i < n,
                i < j <= n,
                forall|q: int| i < q < j ==> v@[i as int]@ != v@[q]@,
                forall|p: int, q: int| 0 <= p < q < v@.len() && p < i ==> v@[p]@ != v@[q]@,
            decreases n - j,
        {
            if v[i].same_as(&v[j]) {
                return false;
            }
            j += 1;
        }
        i += 1;
    }
    true
}

} // verus!
