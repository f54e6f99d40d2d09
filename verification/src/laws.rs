//! Proof machinery about the ledger's aggregates, and the public laws that
//! relate its operations.

use crate::contract::RentACarContract;
use crate::types::CarEntry;
use vstd::prelude::*;

verus! {

/// Updating one entry changes the summed earnings by the difference of that
/// entry's withdrawable balance.
pub proof fn lemma_sum_avail_update(s: Seq<CarEntry>, i: int, e: CarEntry)
    requires
        0 <= i < s.len(),
    ensures
        RentACarContract::sum_avail(s.update(i, e)) == RentACarContract::sum_avail(s)
            - s[i].car.available_to_withdraw + e.car.available_to_withdraw,
    decreases s.len(),
{
    if i == 0 {
        assert(s.update(0, e).drop_first() =~= s.drop_first());
    } else {
        lemma_sum_avail_update(s.drop_first(), i - 1, e);
        assert(s.update(i, e).drop_first() =~= s.drop_first().update(i - 1, e));
    }
}

/// Appending an entry grows the summed earnings by its withdrawable balance.
pub proof fn lemma_sum_avail_push(s: Seq<CarEntry>, e: CarEntry)
    ensures
        RentACarContract::sum_avail(s.push(e)) == RentACarContract::sum_avail(s)
            + e.car.available_to_withdraw,
    decreases s.len(),
{
    if s.len() == 0 {
        assert(s.push(e)[0] == e);
        assert(s.push(e).drop_first() =~= Seq::<CarEntry>::empty());
        assert(RentACarContract::sum_avail(Seq::<CarEntry>::empty()) == 0);
    } else {
        lemma_sum_avail_push(s.drop_first(), e);
        assert(s.push(e)[0] == s[0]);
        assert(s.push(e).drop_first() =~= s.drop_first().push(e));
        assert(RentACarContract::sum_avail(s.push(e)) == s.push(e)[0].car.available_to_withdraw
            + RentACarContract::sum_avail(s.push(e).drop_first()));
    }
}

/// Removing an entry shrinks the summed earnings by its withdrawable balance.
pub proof fn lemma_sum_avail_remove(s: Seq<CarEntry>, i: int)
    requires
        0 <= i < s.len(),
    ensures
        RentACarContract::sum_avail(s.remove(i)) == RentACarContract::sum_avail(s)
            - s[i].car.available_to_withdraw,
    decreases s.len(),
{
    if i == 0 {
        assert(s.remove(0) =~= s.drop_first());
    } else {
        lemma_sum_avail_remove(s.drop_first(), i - 1);
        assert(s.remove(i).drop_first() =~= s.drop_first().remove(i - 1));
    }
}

/// If every entry's withdrawable balance is non-negative, so is the sum.
pub proof fn lemma_sum_avail_nonneg(s: Seq<CarEntry>)
    requires
        forall|i: int| 0 <= i < s.len() ==> s[i].car.available_to_withdraw >= 0,
    ensures
        RentACarContract::sum_avail(s) >= 0,
    decreases s.len(),
{
    if s.len() > 0 {
        lemma_sum_avail_nonneg(s.drop_first());
    }
}

/// In a ledger with unique car keys, the entry at any index is the record
/// that the owner-keyed view reports.
pub proof fn lemma_car_at_index(c: RentACarContract, i: int)
    requires
        c.cars_unique(),
        0 <= i < c.cars@.len(),
    ensures
        c.cars_has(c.cars@[i].owner),
        c.car_of(c.cars@[i].owner) == c.cars@[i].car,
{
    assert(c.cars_has(c.cars@[i].owner));
    let k = choose|k: int|
        0 <= k < c.cars@.len() && c.cars@[k].owner == c.cars@[i].owner;
    assert(k == i);
}

/// In a ledger with unique rental keys, the entry at any index is the record
/// that the pair-keyed view reports.
pub proof fn lemma_rental_at_index(c: RentACarContract, i: int)
    requires
        c.rentals_unique(),
        0 <= i < c.rentals@.len(),
    ensures
        c.rental_has(c.rentals@[i].renter, c.rentals@[i].owner),
        c.rental_of(c.rentals@[i].renter, c.rentals@[i].owner) == c.rentals@[i].rental,
{
    assert(c.rental_has(c.rentals@[i].renter, c.rentals@[i].owner));
    let k = choose|k: int|
        0 <= k < c.rentals@.len() && c.rentals@[k].renter == c.rentals@[i].renter
            && c.rentals@[k].owner == c.rentals@[i].owner;
    assert(k == i);
}

/// Two ledgers with the same car records present the same owner-keyed view.
pub proof fn lemma_car_view_preserved(a: RentACarContract, b: RentACarContract)
    requires
        a.cars_unique(),
        b.cars == a.cars,
    ensures
        forall|o: u64| b.cars_has(o) == a.cars_has(o),
        forall|o: u64| a.cars_has(o) ==> b.car_of(o) == a.car_of(o),
{
    assert forall|o: u64| b.cars_has(o) == a.cars_has(o) by {
        if a.cars_has(o) {
            let k = choose|k: int| 0 <= k < a.cars@.len() && a.cars@[k].owner == o;
            assert(b.cars@[k].owner == o);
        }
        if b.cars_has(o) {
            let k = choose|k: int| 0 <= k < b.cars@.len() && b.cars@[k].owner == o;
            assert(a.cars@[k].owner == o);
        }
    }
    assert forall|o: u64| a.cars_has(o) implies b.car_of(o) == a.car_of(o) by {
        let ka = choose|k: int| 0 <= k < a.cars@.len() && a.cars@[k].owner == o;
        assert(b.cars@[ka].owner == o);
        let kb = choose|k: int| 0 <= k < b.cars@.len() && b.cars@[k].owner == o;
        assert(a.cars@[kb].owner == o);
        assert(ka == kb);
    }
}

/// Two ledgers with the same rental records present the same pair-keyed view.
pub proof fn lemma_rental_view_preserved(a: RentACarContract, b: RentACarContract)
    requires
        a.rentals_unique(),
        b.rentals == a.rentals,
    ensures
        forall|r: u64, o: u64| b.rental_has(r, o) == a.rental_has(r, o),
        forall|r: u64, o: u64| a.rental_has(r, o) ==> b.rental_of(r, o) == a.rental_of(r, o),
{
    assert forall|r: u64, o: u64| b.rental_has(r, o) == a.rental_has(r, o) by {
        if a.rental_has(r, o) {
            let k = choose|k: int|
                0 <= k < a.rentals@.len() && a.rentals@[k].renter == r && a.rentals@[k].owner == o;
            assert(b.rentals@[k].renter == r && b.rentals@[k].owner == o);
        }
        if b.rental_has(r, o) {
            let k = choose|k: int|
                0 <= k < b.rentals@.len() && b.rentals@[k].renter == r && b.rentals@[k].owner == o;
            assert(a.rentals@[k].renter == r && a.rentals@[k].owner == o);
        }
    }
    assert forall|r: u64, o: u64| a.rental_has(r, o) implies b.rental_of(r, o) == a.rental_of(
        r,
        o,
    ) by {
        let ka = choose|k: int|
            0 <= k < a.rentals@.len() && a.rentals@[k].renter == r && a.rentals@[k].owner == o;
        assert(b.rentals@[ka].renter == r && b.rentals@[ka].owner == o);
        let kb = choose|k: int|
            0 <= k < b.rentals@.len() && b.rentals@[k].renter == r && b.rentals@[k].owner == o;
        assert(a.rentals@[kb].renter == r && a.rentals@[kb].owner == o);
        assert(ka == kb);
    }
}

/// Exclusivity carries over to any ledger whose active rentals are a subset
/// of the old ones and whose cars those rentals point at are unchanged.
pub proof fn lemma_exclusive_preserved(a: RentACarContract, b: RentACarContract)
    requires
        a.rentals_exclusive(),
        forall|r: u64, o: u64| b.rental_active(r, o) ==> a.rental_active(r, o),
        forall|r: u64, o: u64|
            b.rental_active(r, o) ==> b.cars_has(o) == a.cars_has(o) && b.car_of(o) == a.car_of(o),
    ensures
        b.rentals_exclusive(),
{
    assert forall|r: u64, o: u64|
        b.rental_active(r, o) implies b.cars_has(o) && b.car_of(o).car_status
        == crate::types::CarStatus::Rented by {
        assert(a.rental_active(r, o));
    }
    assert forall|r1: u64, r2: u64, o: u64|
        b.rental_active(r1, o) && b.rental_active(r2, o) implies r1 == r2 by {
        assert(a.rental_active(r1, o));
        assert(a.rental_active(r2, o));
    }
}

/// Law: the charge of a rental splits exactly. The commission is the floor
/// of `amount * pct / 100`, the owner's share is what remains, and the two
/// parts add back to the full amount with no rounding loss.
pub proof fn lemma_commission_split(c: RentACarContract, owner: u64, days: u32)
    ensures
        c.rental_commission(owner, days) == c.rental_amount(owner, days) * (
        c.admin_commission as int) / 100,
        (c.rental_amount(owner, days) - c.rental_commission(owner, days)) + c.rental_commission(
            owner,
            days,
        ) == c.rental_amount(owner, days),
{
}

/// Law: in a well-formed, solvent ledger the admin's earmarked funds never
/// exceed the funds the contract holds.
pub proof fn lemma_admin_within_treasury(c: RentACarContract)
    requires
        c.wf(),
        c.solvent(),
    ensures
        c.admin_balance <= c.contract_balance,
{
    assert forall|i: int| 0 <= i < c.cars@.len() implies c.cars@[i].car.available_to_withdraw
        >= 0 by {
        lemma_car_at_index(c, i);
    }
    lemma_sum_avail_nonneg(c.cars@);
}

} // verus!
