//! The redemption callback: converts whole redemption units of a transfer
//! into custody handoffs of the lowest-indexed available slots whose custody
//! accounts were attached to the invocation.

use vstd::prelude::*;

use crate::ids::{ids_view, AccountId};
use crate::pool::{count_true, HookState};
use crate::{POOL_SLOTS, REDEMPTION_UNIT_THRESHOLD};

verus! {

/// Whole redemption units represented by a transferred quantity
/// (floor division by the unit threshold).
pub open spec fn spec_units_of(amount: u64) -> int {
    amount as int / REDEMPTION_UNIT_THRESHOLD as int
}

/// Whole redemption units represented by a transferred quantity.
pub fn redemption_units(amount: u64) -> (r: u64)
    ensures
        r == spec_units_of(amount),
{
    amount / REDEMPTION_UNIT_THRESHOLD
}

/// The slots among `0..n` that are available and whose custody account is
/// among the attached identifiers, lowest index first.
pub open spec fn eligible_upto(
    avail: Seq<bool>,
    custody: Seq<Seq<u8>>,
    attached: Seq<Seq<u8>>,
    n: int,
) -> Seq<int>
    decreases n,
{
    if n <= 0 {
        Seq::empty()
    } else if avail[n - 1] && attached.contains(custody[n - 1]) {
        eligible_upto(avail, custody, attached, n - 1).push(n - 1)
    } else {
        eligible_upto(avail, custody, attached, n - 1)
    }
}

/// All available-and-locatable slots of a pool, lowest index first.
pub open spec fn eligible_slots(s: HookState, attached: Seq<Seq<u8>>) -> Seq<int> {
    eligible_upto(s.avail(), s.custody(), attached, POOL_SLOTS as int)
}

/// The availability table after the selected slots are marked redeemed.
pub open spec fn masked_avail(avail: Seq<bool>, sel: Seq<int>) -> Seq<bool> {
    Seq::new(avail.len(), |i: int| avail[i] && !sel.contains(i))
}

/// Eligible slot indices are in range, available, locatable, and strictly
/// ascending.
pub proof fn lemma_eligible_upto_props(
    avail: Seq<bool>,
    custody: Seq<Seq<u8>>,
    attached: Seq<Seq<u8>>,
    n: int,
)
    requires
        n <= avail.len(),
        n <= custody.len(),
    ensures
        forall|k: int|
            0 <= k < eligible_upto(avail, custody, attached, n).len() ==> 0 <= #[trigger] eligible_upto(
                avail,
                custody,
                attached,
                n,
            )[k] < n,
        forall|k: int|
            0 <= k < eligible_upto(avail, custody, attached, n).len() ==> avail[#[trigger] eligible_upto(
                avail,
                custody,
                attached,
                n,
            )[k]] && attached.contains(custody[eligible_upto(avail, custody, attached, n)[k]]),
        forall|k1: int, k2: int|
            0 <= k1 < k2 < eligible_upto(avail, custody, attached, n).len()
                ==> #[trigger] eligible_upto(avail, custody, attached, n)[k1]
                < #[trigger] eligible_upto(avail, custody, attached, n)[k2],
    decreases n,
{
    if n > 0 {
        lemma_eligible_upto_props(avail, custody, attached, n - 1);
        let e = eligible_upto(avail, custody, attached, n);
        let prev = eligible_upto(avail, custody, attached, n - 1);
        if avail[n - 1] && attached.contains(custody[n - 1]) {
            assert(e == prev.push(n - 1));
            assert forall|k: int| 0 <= k < e.len() implies 0 <= #[trigger] e[k] < n && avail[e[k]]
                && attached.contains(custody[e[k]]) by {
                if k < prev.len() {
                    assert(e[k] == prev[k]);
                } else {
                    assert(e[k] == n - 1);
                }
            }
            assert forall|k1: int, k2: int| 0 <= k1 < k2 < e.len() implies #[trigger] e[k1]
                < #[trigger] e[k2] by {
                if k2 < prev.len() {
                    assert(e[k1] == prev[k1] && e[k2] == prev[k2]);
                } else {
                    assert(e[k1] == prev[k1] && e[k2] == n - 1);
                }
            }
        } else {
            assert(e == prev);
        }
    }
}

/// Every available-and-locatable slot below `n` appears among the eligible
/// slots.
pub proof fn lemma_eligible_upto_complete(
    avail: Seq<bool>,
    custody: Seq<Seq<u8>>,
    attached: Seq<Seq<u8>>,
    n: int,
    i: int,
)
    requires
        0 <= i < n,
        avail[i],
        attached.contains(custody[i]),
    ensures
        exists|k: int|
            0 <= k < eligible_upto(avail, custody, attached, n).len() && eligible_upto(
                avail,
                custody,
                attached,
                n,
            )[k] == i,
    decreases n,
{
    let e = eligible_upto(avail, custody, attached, n);
    if i == n - 1 {
        assert(e[e.len() - 1] == i);
    } else {
        lemma_eligible_upto_complete(avail, custody, attached, n - 1, i);
        let prev = eligible_upto(avail, custody, attached, n - 1);
        let k = choose|k: int| 0 <= k < prev.len() && prev[k] == i;
        assert(e[k] == i);
    }
}

/// Membership in one more taken element.
proof fn lemma_take_succ_contains(s: Seq<int>, j: int, x: int)
    requires
        0 <= j < s.len(),
    ensures
        s.take(j + 1).contains(x) <==> (s.take(j).contains(x) || x == s[j]),
{
    assert(s.take(j + 1) =~= s.take(j).push(s[j]));
    if s.take(j).contains(x) {
        let k = choose|k: int| 0 <= k < s.take(j).len() && s.take(j)[k] == x;
        assert(s.take(j + 1)[k] == x);
    }
    if x == s[j] {
        assert(s.take(j + 1)[j] == x);
    }
    if s.take(j + 1).contains(x) && !(x == s[j]) {
        let k = choose|k: int| 0 <= k < s.take(j + 1).len() && #[trigger] s.take(j + 1)[k] == x;
        assert(s.take(j)[k] == x);
    }
}

/// Law: index determinism.  The selection taken by a successful redemption
/// consists of the lowest-indexed available-and-locatable slots: every such
/// slot left out of the selection lies above every selected slot.
pub proof fn lemma_index_determinism(s: HookState, attached: Seq<Seq<u8>>, units: int, i: int)
    requires
        s.wf(),
        0 <= units <= eligible_slots(s, attached).len(),
        0 <= i < POOL_SLOTS,
        s.avail()[i],
        attached.contains(s.custody()[i]),
        !eligible_slots(s, attached).take(units).contains(i),
    ensures
        forall|k: int|
            0 <= k < units ==> #[trigger] eligible_slots(s, attached).take(units)[k] < i,
{
    let e = eligible_slots(s, attached);
    lemma_eligible_upto_props(s.avail(), s.custody(), attached, POOL_SLOTS as int);
    lemma_eligible_upto_complete(s.avail(), s.custody(), attached, POOL_SLOTS as int, i);
    let p = choose|p: int| 0 <= p < e.len() && e[p] == i;
    if p < units {
        assert(e.take(units)[p] == i);
        assert(e.take(units).contains(i));
    }
    assert forall|k: int| 0 <= k < units implies #[trigger] e.take(units)[k] < i by {
        assert(e.take(units)[k] == e[k]);
        assert(e[k] < e[p]);
    }
}

/// Number of eligible slots when every available slot is locatable: exactly
/// the number of available slots.
pub proof fn lemma_eligible_count(
    avail: Seq<bool>,
    custody: Seq<Seq<u8>>,
    attached: Seq<Seq<u8>>,
    n: int,
)
    requires
        0 <= n <= avail.len(),
        n <= custody.len(),
        forall|i: int| 0 <= i < n && avail[i] ==> attached.contains(#[trigger] custody[i]),
    ensures
        eligible_upto(avail, custody, attached, n).len() == count_true(avail.take(n)),
    decreases n,
{
    if n > 0 {
        lemma_eligible_count(avail, custody, attached, n - 1);
        assert(avail.take(n).drop_last() =~= avail.take(n - 1));
        assert(avail.take(n).last() == avail[n - 1]);
    } else {
        assert(avail.take(0) =~= Seq::<bool>::empty());
    }
}

/// Law: exact exhaustion.  When every available slot's custody account is
/// attached, the eligible slots are exactly the available ones, so by the
/// callback's contract a transfer of exactly that many units succeeds and
/// leaves no slot available, while one more unit fails and changes nothing.
pub proof fn lemma_exact_exhaustion(s: HookState, attached: Seq<Seq<u8>>)
    requires
        s.wf(),
        forall|i: int|
            0 <= i < POOL_SLOTS && s.avail()[i] ==> attached.contains(#[trigger] s.custody()[i]),
    ensures
        eligible_slots(s, attached).len() == s.available_count(),
{
    lemma_eligible_count(s.avail(), s.custody(), attached, POOL_SLOTS as int);
    assert(s.avail().take(POOL_SLOTS as int) =~= s.avail());
}

/// Failure of the redemption callback: fewer available-and-locatable slots
/// than requested units.
#[derive(Clone, Copy, Debug, PartialEq, Eq, Structural)]
pub enum RedeemError {
    InsufficientRedeemableAssets,
}

/// One performed redemption: the slot that was redeemed and the position,
/// among the attached accounts, of its custody account.
#[derive(Clone, Copy, Debug, PartialEq, Eq, Structural)]
pub struct Redemption {
    pub slot: usize,
    pub attached_index: usize,
}

/// The slot indices of a redemption list.
pub open spec fn slots_of(reds: Seq<Redemption>) -> Seq<int> {
    reds.map_values(|rd: Redemption| rd.slot as int)
}

/// The first index among the attached accounts whose identifier equals
/// `id`, if any.
pub fn locate_account(attached: &Vec<AccountId>, id: &AccountId) -> (r: Option<usize>)
    ensures
        r matches Some(j) ==> j < attached@.len() && attached@[j as int]@ == id@ && (forall|q: int|
            0 <= q < j ==> attached@[q]@ != id@),
        r is Some <==> ids_view(attached@).contains(id@),
{
    let n = attached.len();
    let mut k: usize = 0;
    while k < n
        invariant
            n == attached@.len(),
            k <= n,
            forall|q: int| 0 <= q < k ==> attached@[q]@ != id@,
        decreases n - k,
    {
        if attached[k].same_as(id) {
            proof {
                assert(ids_view(attached@)[k as int] == id@);
            }
            return Some(k);
        }
        k += 1;
    }
    proof {
        if ids_view(attached@).contains(id@) {
            let q = choose|q: int|
                0 <= q < ids_view(attached@).len() && ids_view(attached@)[q] == id@;
            assert(attached@[q]@ == id@);
        }
    }
    None
}

/// The prefix of the eligible slots that a request for `units` redemptions
/// selects: all of them if fewer are eligible, else the first `units`.
spec fn selection_of(e: Seq<int>, units: int) -> Seq<int> {
    if e.len() <= units {
        e
    } else {
        e.take(units)
    }
}

/// The redemption callback.  Computes how many whole redemption units
/// `amount` represents, scans the slots in ascending index order, and
/// redeems each available slot whose custody account is among `attached`
/// until the unit count is reached.  On success the selected slots are
/// marked unavailable; on failure nothing changes.
pub fn transfer_hook(state: &mut HookState, amount: u64, attached: &Vec<AccountId>) -> (r: Result<
    Vec<Redemption>,
    RedeemError,
>)
    requires
        old(state).wf(),
    ensures
        final(state).wf(),
        final(state).authority == old(state).authority,
        final(state).slot_custody_account == old(state).slot_custody_account,
        r matches Ok(reds) ==> ({
            let units = spec_units_of(amount);
            let sel = eligible_slots(*old(state), ids_view(attached@)).take(units);
            &&& units <= eligible_slots(*old(state), ids_view(attached@)).len()
            &&& reds@.len() == units
            &&& slots_of(reds@) == sel
            &&& forall|j: int|
                0 <= j < reds@.len() ==> {
                    &&& (#[trigger] reds@[j]).slot < POOL_SLOTS
                    &&& reds@[j].attached_index < attached@.len()
                    &&& attached@[reds@[j].attached_index as int]@ == old(state).custody()[reds@[j].slot as int]
                }
            &&& final(state).avail() == masked_avail(old(state).avail(), sel)
            &&& final(state).available_count() == old(state).available_count() - units
        }),
        r matches Err(e) ==> ({
            &&& e == RedeemError::InsufficientRedeemableAssets
            &&& eligible_slots(*old(state), ids_view(attached@)).len() < spec_units_of(amount)
            &&& *final(state) == *old(state)
        }),
        spec_units_of(amount) == 0 ==> (r matches Ok(reds) && reds@.len() == 0 && *final(state)
            == *old(state)),
{
    let units_u64: u64 = amount / REDEMPTION_UNIT_THRESHOLD;
    let ghost units: int = spec_units_of(amount);
    let ghost avail0: Seq<bool> = old(state).avail();
    let ghost custody0: Seq<Seq<u8>> = old(state).custody();
    let ghost att: Seq<Seq<u8>> = ids_view(attached@);

    if units_u64 == 0 {
        let reds: Vec<Redemption> = Vec::new();
        proof {
            assert(slots_of(reds@) =~= eligible_slots(*old(state), att).take(0));
            assert(state.avail() =~= masked_avail(avail0, eligible_slots(*old(state), att).take(0)));
        }
        return Ok(reds);
    }

    let mut selected: Vec<Redemption> = Vec::new();
    let mut slot: usize = 0;
    while slot < POOL_SLOTS
        invariant
            old(state).wf(),
            *state == *old(state),
            units == spec_units_of(amount),
            units == units_u64 as int,
            units > 0,
            avail0 == old(state).avail(),
            custody0 == old(state).custody(),
            att == ids_view(attached@),
            slot <= POOL_SLOTS,
            slots_of(selected@) == selection_of(
                eligible_upto(avail0, custody0, att, slot as int),
                units,
            ),
            selected@.len() <= units,
            forall|j: int|
                0 <= j < selected@.len() ==> {
                    &&& (#[trigger] selected@[j]).slot < POOL_SLOTS
                    &&& selected@[j].attached_index < attached@.len()
                    &&& attached@[selected@[j].attached_index as int]@ == custody0[selected@[j].slot as int]
                },
        decreases POOL_SLOTS - slot,
    {
        let ghost e_here: Seq<int> = eligible_upto(avail0, custody0, att, slot as int);
        let ghost e_next: Seq<int> = eligible_upto(avail0, custody0, att, slot as int + 1);
        if (selected.len() as u64) < units_u64 {
            if state.slot_available[slot] {
                match locate_account(attached, &state.slot_custody_account[slot]) {
                    Some(ai) => {
                        let ghost sel_before: Seq<Redemption> = selected@;
                        let red = Redemption { slot, attached_index: ai };
                        selected.push(red);
                        proof {
                            assert(custody0[slot as int] == state.slot_custody_account@[slot as int]@);
                            assert(att.contains(custody0[slot as int]));
                            assert(e_next == e_here.push(slot as int));
                            assert(e_here.len() < units);
                            assert(slots_of(sel_before.push(red)) =~= slots_of(sel_before).push(
                                slot as int,
                            ));
                            assert(selection_of(e_next, units) == e_next);
                        }
                    },
                    None => {
                        proof {
                            assert(custody0[slot as int] == state.slot_custody_account@[slot as int]@);
                            assert(!att.contains(custody0[slot as int]));
                            assert(e_next == e_here);
                        }
                    },
                }
            } else {
                proof {
                    assert(!avail0[slot as int]);
                    assert(e_next == e_here);
                }
            }
        } else {
            proof {
                assert(selected@.len() == units);
                assert(selection_of(e_here, units).len() == units);
                assert(e_here.len() >= units);
                if avail0[slot as int] && att.contains(custody0[slot as int]) {
                    assert(e_next == e_here.push(slot as int));
                    assert(e_next.take(units) =~= e_here.take(units));
                    if e_here.len() == units {
                        assert(e_here.take(units) =~= e_here);
                    }
                    assert(selection_of(e_next, units) == selection_of(e_here, units));
                } else {
                    assert(e_next == e_here);
                }
            }
        }
        slot += 1;
    }

    let ghost e_all: Seq<int> = eligible_slots(*old(state), att);

    if (selected.len() as u64) < units_u64 {
        proof {
            assert(slots_of(selected@).len() == selected@.len());
            assert(selection_of(e_all, units).len() < units);
            assert(e_all.len() < units);
        }
        return Err(RedeemError::InsufficientRedeemableAssets);
    }

    proof {
        assert(selected@.len() == units);
        assert(selection_of(e_all, units).len() == units);
        assert(e_all.len() >= units);
        if e_all.len() == units {
            assert(e_all.take(units) =~= e_all);
        }
        assert(slots_of(selected@) == e_all.take(units));
        lemma_eligible_upto_props(avail0, custody0, att, POOL_SLOTS as int);
    }

    let ghost sel: Seq<int> = slots_of(selected@);
    let units_usize: usize = selected.len();
    let mut j: usize = 0;
    while j < units_usize
        invariant
            old(state).wf(),
            state.wf(),
            state.authority == old(state).authority,
            state.slot_custody_account == old(state).slot_custody_account,
            avail0 == old(state).avail(),
            units_usize == selected@.len(),
            units_usize as int == units,
            j <= units_usize,
            sel == slots_of(selected@),
            forall|k: int| 0 <= k < sel.len() ==> 0 <= #[trigger] sel[k] < POOL_SLOTS,
            forall|k: int| 0 <= k < sel.len() ==> avail0[#[trigger] sel[k]],
            forall|k1: int, k2: int|
                0 <= k1 < k2 < sel.len() ==> #[trigger] sel[k1] < #[trigger] sel[k2],
            state.avail() == masked_avail(avail0, sel.take(j as int)),
            count_true(state.avail()) == count_true(avail0) - j,
        decreases units_usize - j,
    {
        let slot_j = selected[j].slot;
        proof {
            assert(sel[j as int] == slot_j as int);
            assert(!sel.take(j as int).contains(slot_j as int)) by {
                if sel.take(j as int).contains(slot_j as int) {
                    let k = choose|k: int|
                        0 <= k < sel.take(j as int).len() && sel.take(j as int)[k] == slot_j as int;
                    assert(sel[k] == sel[j as int]);
                    assert(sel[k] < sel[j as int]);
                }
            }
            assert(state.avail()[slot_j as int] == (avail0[slot_j as int] && !sel.take(
                j as int,
            ).contains(slot_j as int)));
            assert(state.avail()[slot_j as int]);
        }
        state.mark_slot_redeemed(slot_j);
        proof {
            assert forall|i: int| 0 <= i < POOL_SLOTS implies state.avail()[i] == (avail0[i]
                && !sel.take(j + 1).contains(i)) by {
                lemma_take_succ_contains(sel, j as int, i);
            }
            assert(state.avail() =~= masked_avail(avail0, sel.take(j + 1)));
        }
        j += 1;
    }

    proof {
        assert(sel.take(units_usize as int) =~= sel);
        assert(state.avail() == masked_avail(avail0, eligible_slots(*old(state), att).take(units)));
    }
    Ok(selected)
}

} // verus!
