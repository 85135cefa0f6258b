//! Persistent redemption-pool state: an availability flag and a custody
//! account identifier for each collectible slot.

use vstd::prelude::*;

use crate::ids::{ids_view, AccountId};
use crate::POOL_SLOTS;

verus! {

/// Count of `true` entries in an availability table.
pub open spec fn count_true(s: Seq<bool>) -> int
    decreases s.len(),
{
    if s.len() == 0 {
        0
    } else {
        count_true(s.drop_last()) + (if s.last() {
            1int
        } else {
            0int
        })
    }
}

/// Flipping one `true` entry to `false` lowers the count by exactly one.
pub proof fn lemma_count_true_update(s: Seq<bool>, i: int)
    requires
        0 <= i < s.len(),
        s[i],
    ensures
        count_true(s.update(i, false)) == count_true(s) - 1,
    decreases s.len(),
{
    let t = s.update(i, false);
    if i == s.len() - 1 {
        assert(t.drop_last() =~= s.drop_last());
    } else {
        assert(t.drop_last() =~= s.drop_last().update(i, false));
        lemma_count_true_update(s.drop_last(), i);
        assert(t.last() == s.last());
    }
}

/// Pool state for one gated mint: the administrating authority, one
/// availability flag per slot, and the index-aligned custody account of
/// each slot.  Slot custody accounts never change after initialization;
/// only availability flags flip, and only from `true` to `false`.
#[derive(Debug)]
pub struct HookState {
    pub authority: AccountId,
    pub slot_available: Vec<bool>,
    pub slot_custody_account: Vec<AccountId>,
}

impl HookState {
    /// Both slot tables hold exactly one entry per slot, and every
    /// identifier has the fixed width.
    pub open spec fn wf(self) -> bool {
        &&& self.authority.wf()
        &&& self.slot_available@.len() == POOL_SLOTS
        &&& self.slot_custody_account@.len() == POOL_SLOTS
        &&& forall|i: int|
            0 <= i < POOL_SLOTS ==> (#[trigger] self.slot_custody_account@[i]).wf()
    }

    /// The availability table.
    pub open spec fn avail(self) -> Seq<bool> {
        self.slot_available@
    }

    /// The custody-account identifier of each slot, as bytes.
    pub open spec fn custody(self) -> Seq<Seq<u8>> {
        ids_view(self.slot_custody_account@)
    }

    /// How many slots are still available.
    pub open spec fn available_count(self) -> int {
        count_true(self.avail())
    }

    /// Flip slot `i` from available to unavailable.  The caller performs
    /// the custody handoff of the slot's account in the same atomic step.
    pub fn mark_slot_redeemed(&mut self, i: usize)
        requires
            old(self).wf(),
            i < POOL_SLOTS,
            old(self).avail()[i as int],
        ensures
            final(self).wf(),
            final(self).avail() == old(self).avail().update(i as int, false),
            final(self).slot_custody_account == old(self).slot_custody_account,
            final(self).authority == old(self).authority,
            final(self).available_count() == old(self).available_count() - 1,
    {
        self.slot_available[i] = false;
        proof {
            lemma_count_true_update(old(self).avail(), i as int);
        }
    }
}

} // verus!
