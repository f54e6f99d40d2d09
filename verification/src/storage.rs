//! Accessors over the ledger's state domains, mirroring the storage layer of
//! the contract: admin and token identities, commission, balances, car and
//! rental records.
//!
//! The record accessors state their effect pointwise over the owner-keyed
//! (respectively pair-keyed) view of the ledger, so that the operations built
//! on them can reason about records as a map.

use crate::contract::RentACarContract;
use crate::laws::{
    lemma_car_at_index, lemma_rental_at_index, lemma_sum_avail_push, lemma_sum_avail_remove,
    lemma_sum_avail_update,
};
use crate::types::{Car, CarEntry, Rental, RentalEntry};
use vstd::pervasive::unreached;
use vstd::prelude::*;

verus! {

/// The admin identity has been set.
pub fn has_admin(ledger: &RentACarContract) -> (r: bool)
    ensures
        r == ledger.admin.is_some(),
{
    ledger.admin.is_some()
}

/// The admin identity.
pub fn read_admin(ledger: &RentACarContract) -> (r: u64)
    requires
        ledger.admin.is_some(),
    ensures
        r == ledger.admin.unwrap(),
{
    ledger.admin.unwrap()
}

/// Records the admin identity.
pub fn write_admin(ledger: &mut RentACarContract, admin: u64)
    ensures
        final(ledger).admin == Some(admin),
        final(ledger).token == old(ledger).token,
        final(ledger).admin_commission == old(ledger).admin_commission,
        final(ledger).contract_balance == old(ledger).contract_balance,
        final(ledger).admin_balance == old(ledger).admin_balance,
        final(ledger).cars == old(ledger).cars,
        final(ledger).rentals == old(ledger).rentals,
{
    ledger.admin = Some(admin);
}

/// The payment-token identity.
pub fn read_token(ledger: &RentACarContract) -> (r: u64)
    requires
        ledger.token.is_some(),
    ensures
        r == ledger.token.unwrap(),
{
    ledger.token.unwrap()
}

/// Records the payment-token identity.
pub fn write_token(ledger: &mut RentACarContract, token: u64)
    ensures
        final(ledger).token == Some(token),
        final(ledger).admin == old(ledger).admin,
        final(ledger).admin_commission == old(ledger).admin_commission,
        final(ledger).contract_balance == old(ledger).contract_balance,
        final(ledger).admin_balance == old(ledger).admin_balance,
        final(ledger).cars == old(ledger).cars,
        final(ledger).rentals == old(ledger).rentals,
{
    ledger.token = Some(token);
}

/// The commission percentage, 0 when never set.
pub fn read_admin_commission(ledger: &RentACarContract) -> (r: i128)
    ensures
        r == ledger.admin_commission,
{
    ledger.admin_commission
}

/// Records the commission percentage.
pub fn write_admin_commission(ledger: &mut RentACarContract, commission: i128)
    ensures
        final(ledger).admin_commission == commission,
        final(ledger).admin == old(ledger).admin,
        final(ledger).token == old(ledger).token,
        final(ledger).contract_balance == old(ledger).contract_balance,
        final(ledger).admin_balance == old(ledger).admin_balance,
        final(ledger).cars == old(ledger).cars,
        final(ledger).rentals == old(ledger).rentals,
{
    ledger.admin_commission = commission;
}

/// The funds earmarked for the admin, 0 when never written.
pub fn read_admin_balance(ledger: &RentACarContract) -> (r: i128)
    ensures
        r == ledger.admin_balance,
{
    ledger.admin_balance
}

/// Records the admin's earmarked funds.
pub fn write_admin_balance(ledger: &mut RentACarContract, amount: i128)
    ensures
        final(ledger).admin_balance == amount,
        final(ledger).admin == old(ledger).admin,
        final(ledger).token == old(ledger).token,
        final(ledger).admin_commission == old(ledger).admin_commission,
        final(ledger).contract_balance == old(ledger).contract_balance,
        final(ledger).cars == old(ledger).cars,
        final(ledger).rentals == old(ledger).rentals,
{
    ledger.admin_balance = amount;
}

/// The total funds held by the contract, 0 when never written.
pub fn read_contract_balance(ledger: &RentACarContract) -> (r: i128)
    ensures
        r == ledger.contract_balance,
{
    ledger.contract_balance
}

/// Records the total funds held by the contract.
pub fn write_contract_balance(ledger: &mut RentACarContract, amount: i128)
    ensures
        final(ledger).contract_balance == amount,
        final(ledger).admin == old(ledger).admin,
        final(ledger).token == old(ledger).token,
        final(ledger).admin_commission == old(ledger).admin_commission,
        final(ledger).admin_balance == old(ledger).admin_balance,
        final(ledger).cars == old(ledger).cars,
        final(ledger).rentals == old(ledger).rentals,
{
    ledger.contract_balance = amount;
}

/// Position of the car record keyed by `owner`, if one exists.
fn car_index(ledger: &RentACarContract, owner: u64) -> (r: Option<usize>)
    ensures
        match r {
            Some(i) => i < ledger.cars@.len() && ledger.cars@[i as int].owner == owner,
            None => !ledger.cars_has(owner),
        },
{
    let mut i: usize = 0;
    while i < ledger.cars.len()
        invariant
            i <= ledger.cars@.len(),
            forall|j: int| 0 <= j < i ==> ledger.cars@[j].owner != owner,
        decreases ledger.cars@.len() - i,
    {
        if ledger.cars[i].owner == owner {
            return Some(i);
        }
        i = i + 1;
    }
    None
}

/// A car record exists for `owner`.
pub fn has_car(ledger: &RentACarContract, owner: u64) -> (r: bool)
    ensures
        r == ledger.cars_has(owner),
{
    match car_index(ledger, owner) {
        Some(i) => {
            proof {
                assert(ledger.cars_has(owner));
            }
            true
        },
        None => false,
    }
}

/// The car record keyed by `owner`.
pub fn read_car(ledger: &RentACarContract, owner: u64) -> (r: Car)
    requires
        ledger.cars_unique(),
        ledger.cars_has(owner),
    ensures
        r == ledger.car_of(owner),
{
    match car_index(ledger, owner) {
        Some(i) => {
            proof {
                lemma_car_at_index(*ledger, i as int);
            }
            ledger.cars[i].car
        },
        None => unreached(),
    }
}

/// Creates or overwrites the car record keyed by `owner`. All other records
/// and domains are untouched; the summed owner earnings change by the
/// difference on this one record.
pub fn write_car(ledger: &mut RentACarContract, owner: u64, car: &Car)
    requires
        old(ledger).cars_unique(),
    ensures
        final(ledger).cars_unique(),
        final(ledger).cars_has(owner),
        final(ledger).car_of(owner) == *car,
        forall|o2: u64| o2 != owner ==> final(ledger).cars_has(o2) == old(ledger).cars_has(o2),
        forall|o2: u64|
            o2 != owner && old(ledger).cars_has(o2) ==> final(ledger).car_of(o2) == old(ledger).car_of(o2),
        RentACarContract::sum_avail(final(ledger).cars@) == RentACarContract::sum_avail(
            old(ledger).cars@,
        ) + car.available_to_withdraw - (if old(ledger).cars_has(owner) {
            old(ledger).car_of(owner).available_to_withdraw
        } else {
            0
        }),
        ((forall|i: int| 0 <= i < old(ledger).cars@.len() ==> old(ledger).cars@[i].car.price_per_day > 0)
            && car.price_per_day > 0) ==> (forall|i: int|
            0 <= i < final(ledger).cars@.len() ==> final(ledger).cars@[i].car.price_per_day > 0),
        final(ledger).admin == old(ledger).admin,
        final(ledger).token == old(ledger).token,
        final(ledger).admin_commission == old(ledger).admin_commission,
        final(ledger).contract_balance == old(ledger).contract_balance,
        final(ledger).admin_balance == old(ledger).admin_balance,
        final(ledger).rentals == old(ledger).rentals,
{
    let entry = CarEntry { owner, car: *car };
    match car_index(ledger, owner) {
        Some(i) => {
            proof {
                lemma_car_at_index(*ledger, i as int);
                lemma_sum_avail_update(ledger.cars@, i as int, entry);
            }
            ledger.cars[i] = entry;
            proof {
                assert forall|a: int, b: int|
                    0 <= a < ledger.cars@.len() && 0 <= b < ledger.cars@.len() && a
                        != b implies ledger.cars@[a].owner != ledger.cars@[b].owner by {
                    assert(ledger.cars@[a].owner == old(ledger).cars@[a].owner);
                    assert(ledger.cars@[b].owner == old(ledger).cars@[b].owner);
                }
                lemma_car_at_index(*ledger, i as int);
                assert forall|o2: u64|
                    o2 != owner && old(ledger).cars_has(o2) implies ledger.cars_has(o2)
                        && ledger.car_of(o2) == old(ledger).car_of(o2) by {
                    let k = choose|k: int|
                        0 <= k < old(ledger).cars@.len() && old(ledger).cars@[k].owner == o2;
                    assert(k != i);
                    assert(ledger.cars@[k] == old(ledger).cars@[k]);
                    lemma_car_at_index(*ledger, k);
                    lemma_car_at_index(*old(ledger), k);
                }
                assert forall|o2: u64|
                    o2 != owner && ledger.cars_has(o2) implies old(ledger).cars_has(o2) by {
                    let k = choose|k: int|
                        0 <= k < ledger.cars@.len() && ledger.cars@[k].owner == o2;
                    assert(k != i);
                    assert(old(ledger).cars@[k].owner == o2);
                }
            }
        },
        None => {
            proof {
                lemma_sum_avail_push(ledger.cars@, entry);
            }
            ledger.cars.push(entry);
            proof {
                let n = old(ledger).cars@.len() as int;
                assert forall|a: int, b: int|
                    0 <= a < ledger.cars@.len() && 0 <= b < ledger.cars@.len() && a
                        != b implies ledger.cars@[a].owner != ledger.cars@[b].owner by {
                    if a < n && b < n {
                        assert(ledger.cars@[a] == old(ledger).cars@[a]);
                        assert(ledger.cars@[b] == old(ledger).cars@[b]);
                    } else if a == n {
                        assert(ledger.cars@[b] == old(ledger).cars@[b]);
                        assert(old(ledger).cars@[b].owner != owner);
                    } else {
                        assert(ledger.cars@[a] == old(ledger).cars@[a]);
                        assert(old(ledger).cars@[a].owner != owner);
                    }
                }
                lemma_car_at_index(*ledger, n);
                assert forall|o2: u64|
                    o2 != owner && old(ledger).cars_has(o2) implies ledger.cars_has(o2)
                        && ledger.car_of(o2) == old(ledger).car_of(o2) by {
                    let k = choose|k: int|
                        0 <= k < old(ledger).cars@.len() && old(ledger).cars@[k].owner == o2;
                    assert(ledger.cars@[k] == old(ledger).cars@[k]);
                    lemma_car_at_index(*ledger, k);
                    lemma_car_at_index(*old(ledger), k);
                }
                assert forall|o2: u64|
                    o2 != owner && ledger.cars_has(o2) implies old(ledger).cars_has(o2) by {
                    let k = choose|k: int|
                        0 <= k < ledger.cars@.len() && ledger.cars@[k].owner == o2;
                    assert(k != n);
                    assert(ledger.cars@[k] == old(ledger).cars@[k]);
                }
            }
        },
    }
}

/// Deletes the car record keyed by `owner`. All other records and domains are
/// untouched; the summed owner earnings shrink by this record's balance.
pub fn remove_car(ledger: &mut RentACarContract, owner: u64)
    requires
        old(ledger).cars_unique(),
        old(ledger).cars_has(owner),
    ensures
        final(ledger).cars_unique(),
        !final(ledger).cars_has(owner),
        forall|o2: u64| o2 != owner ==> final(ledger).cars_has(o2) == old(ledger).cars_has(o2),
        forall|o2: u64|
            o2 != owner && old(ledger).cars_has(o2) ==> final(ledger).car_of(o2) == old(ledger).car_of(o2),
        RentACarContract::sum_avail(final(ledger).cars@) == RentACarContract::sum_avail(
            old(ledger).cars@,
        ) - old(ledger).car_of(owner).available_to_withdraw,
        (forall|i: int| 0 <= i < old(ledger).cars@.len() ==> old(ledger).cars@[i].car.price_per_day > 0)
            ==> (forall|i: int|
            0 <= i < final(ledger).cars@.len() ==> final(ledger).cars@[i].car.price_per_day > 0),
        final(ledger).admin == old(ledger).admin,
        final(ledger).token == old(ledger).token,
        final(ledger).admin_commission == old(ledger).admin_commission,
        final(ledger).contract_balance == old(ledger).contract_balance,
        final(ledger).admin_balance == old(ledger).admin_balance,
        final(ledger).rentals == old(ledger).rentals,
{
    match car_index(ledger, owner) {
        Some(i) => {
            proof {
                lemma_car_at_index(*ledger, i as int);
                lemma_sum_avail_remove(ledger.cars@, i as int);
                ledger.cars@.remove_ensures(i as int);
            }
            let _ = ledger.cars.remove(i);
            proof {
                let n = old(ledger).cars@.len() as int;
                assert forall|a: int, b: int|
                    0 <= a < ledger.cars@.len() && 0 <= b < ledger.cars@.len() && a
                        != b implies ledger.cars@[a].owner != ledger.cars@[b].owner by {
                    let a0 = if a < i { a } else { a + 1 };
                    let b0 = if b < i { b } else { b + 1 };
                    assert(ledger.cars@[a] == old(ledger).cars@[a0]);
                    assert(ledger.cars@[b] == old(ledger).cars@[b0]);
                }
                assert forall|k: int|
                    0 <= k < ledger.cars@.len() implies ledger.cars@[k].owner != owner by {
                    let k0 = if k < i { k } else { k + 1 };
                    assert(ledger.cars@[k] == old(ledger).cars@[k0]);
                    assert(k0 != i);
                }
                assert forall|o2: u64|
                    o2 != owner && old(ledger).cars_has(o2) implies ledger.cars_has(o2)
                        && ledger.car_of(o2) == old(ledger).car_of(o2) by {
                    let k0 = choose|k0: int|
                        0 <= k0 < old(ledger).cars@.len() && old(ledger).cars@[k0].owner == o2;
                    assert(k0 != i);
                    let k = if k0 < i { k0 } else { k0 - 1 };
                    assert(ledger.cars@[k] == old(ledger).cars@[k0]);
                    lemma_car_at_index(*ledger, k);
                    lemma_car_at_index(*old(ledger), k0);
                }
                assert forall|o2: u64|
                    o2 != owner && ledger.cars_has(o2) implies old(ledger).cars_has(o2) by {
                    let k = choose|k: int|
                        0 <= k < ledger.cars@.len() && ledger.cars@[k].owner == o2;
                    let k0 = if k < i { k } else { k + 1 };
                    assert(ledger.cars@[k] == old(ledger).cars@[k0]);
                }
                assert forall|k: int|
                    0 <= k < ledger.cars@.len() implies ledger.cars@[k].car == old(
                        ledger,
                    ).cars@[if k < i {
                        k
                    } else {
                        k + 1
                    }].car by {
                    let k0 = if k < i { k } else { k + 1 };
                    assert(ledger.cars@[k] == old(ledger).cars@[k0]);
                }
            }
        },
        None => {
            proof {
                assert(false);
            }
        },
    }
}

/// Position of the rental record keyed by the (renter, owner) pair, if one
/// exists.
fn rental_index(ledger: &RentACarContract, renter: u64, owner: u64) -> (r: Option<usize>)
    ensures
        match r {
            Some(i) => i < ledger.rentals@.len() && ledger.rentals@[i as int].renter == renter
                && ledger.rentals@[i as int].owner == owner,
            None => !ledger.rental_has(renter, owner),
        },
{
    let mut i: usize = 0;
    while i < ledger.rentals.len()
        invariant
            i <= ledger.rentals@.len(),
            forall|j: int|
                0 <= j < i ==> !(ledger.rentals@[j].renter == renter && ledger.rentals@[j].owner
                    == owner),
        decreases ledger.rentals@.len() - i,
    {
        if ledger.rentals[i].renter == renter && ledger.rentals[i].owner == owner {
            return Some(i);
        }
        i = i + 1;
    }
    None
}

/// A rental record exists for the (renter, owner) pair.
pub fn has_rental(ledger: &RentACarContract, renter: u64, owner: u64) -> (r: bool)
    ensures
        r == ledger.rental_has(renter, owner),
{
    match rental_index(ledger, renter, owner) {
        Some(i) => {
            proof {
                assert(ledger.rental_has(renter, owner));
            }
            true
        },
        None => false,
    }
}

/// The rental record keyed by the (renter, owner) pair.
pub fn read_rental(ledger: &RentACarContract, renter: u64, owner: u64) -> (r: Rental)
    requires
        ledger.rentals_unique(),
        ledger.rental_has(renter, owner),
    ensures
        r == ledger.rental_of(renter, owner),
{
    match rental_index(ledger, renter, owner) {
        Some(i) => {
            proof {
                lemma_rental_at_index(*ledger, i as int);
            }
            ledger.rentals[i].rental
        },
        None => unreached(),
    }
}

/// Creates or overwrites the rental record keyed by the (renter, owner)
/// pair. All other records and domains are untouched.
pub fn write_rental(ledger: &mut RentACarContract, renter: u64, owner: u64, rental: &Rental)
    requires
        old(ledger).rentals_unique(),
    ensures
        final(ledger).rentals_unique(),
        final(ledger).rental_has(renter, owner),
        final(ledger).rental_of(renter, owner) == *rental,
        forall|r2: u64, o2: u64|
            !(r2 == renter && o2 == owner) ==> final(ledger).rental_has(r2, o2) == old(ledger).rental_has(r2, o2),
        forall|r2: u64, o2: u64|
            !(r2 == renter && o2 == owner) && old(ledger).rental_has(r2, o2) ==> final(ledger).rental_of(r2, o2) == old(ledger).rental_of(r2, o2),
        final(ledger).admin == old(ledger).admin,
        final(ledger).token == old(ledger).token,
        final(ledger).admin_commission == old(ledger).admin_commission,
        final(ledger).contract_balance == old(ledger).contract_balance,
        final(ledger).admin_balance == old(ledger).admin_balance,
        final(ledger).cars == old(ledger).cars,
{
    let entry = RentalEntry { renter, owner, rental: *rental };
    match rental_index(ledger, renter, owner) {
        Some(i) => {
            ledger.rentals[i] = entry;
            proof {
                assert forall|a: int, b: int|
                    0 <= a < ledger.rentals@.len() && 0 <= b < ledger.rentals@.len() && a
                        != b implies !(ledger.rentals@[a].renter == ledger.rentals@[b].renter
                        && ledger.rentals@[a].owner == ledger.rentals@[b].owner) by {
                    assert(ledger.rentals@[a].renter == old(ledger).rentals@[a].renter
                        && ledger.rentals@[a].owner == old(ledger).rentals@[a].owner);
                    assert(ledger.rentals@[b].renter == old(ledger).rentals@[b].renter
                        && ledger.rentals@[b].owner == old(ledger).rentals@[b].owner);
                }
                lemma_rental_at_index(*ledger, i as int);
                assert forall|r2: u64, o2: u64|
                    !(r2 == renter && o2 == owner) && old(ledger).rental_has(
                        r2,
                        o2,
                    ) implies ledger.rental_has(r2, o2) && ledger.rental_of(r2, o2) == old(ledger).rental_of(r2, o2) by {
                    let k = choose|k: int|
                        0 <= k < old(ledger).rentals@.len() && old(ledger).rentals@[k].renter == r2
                            && old(ledger).rentals@[k].owner == o2;
                    assert(k != i);
                    assert(ledger.rentals@[k] == old(ledger).rentals@[k]);
                    lemma_rental_at_index(*ledger, k);
                    lemma_rental_at_index(*old(ledger), k);
                }
                assert forall|r2: u64, o2: u64|
                    !(r2 == renter && o2 == owner) && ledger.rental_has(r2, o2) implies old(ledger).rental_has(r2, o2) by {
                    let k = choose|k: int|
                        0 <= k < ledger.rentals@.len() && ledger.rentals@[k].renter == r2
                            && ledger.rentals@[k].owner == o2;
                    assert(k != i);
                    assert(old(ledger).rentals@[k].renter == r2 && old(ledger).rentals@[k].owner
                        == o2);
                }
            }
        },
        None => {
            ledger.rentals.push(entry);
            proof {
                let n = old(ledger).rentals@.len() as int;
                assert forall|a: int, b: int|
                    0 <= a < ledger.rentals@.len() && 0 <= b < ledger.rentals@.len() && a
                        != b implies !(ledger.rentals@[a].renter == ledger.rentals@[b].renter
                        && ledger.rentals@[a].owner == ledger.rentals@[b].owner) by {
                    if a < n && b < n {
                        assert(ledger.rentals@[a] == old(ledger).rentals@[a]);
                        assert(ledger.rentals@[b] == old(ledger).rentals@[b]);
                    } else if a == n {
                        assert(ledger.rentals@[b] == old(ledger).rentals@[b]);
                        assert(!(old(ledger).rentals@[b].renter == renter
                            && old(ledger).rentals@[b].owner == owner));
                    } else {
                        assert(ledger.rentals@[a] == old(ledger).rentals@[a]);
                        assert(!(old(ledger).rentals@[a].renter == renter
                            && old(ledger).rentals@[a].owner == owner));
                    }
                }
                lemma_rental_at_index(*ledger, n);
                assert forall|r2: u64, o2: u64|
                    !(r2 == renter && o2 == owner) && old(ledger).rental_has(
                        r2,
                        o2,
                    ) implies ledger.rental_has(r2, o2) && ledger.rental_of(r2, o2) == old(ledger).rental_of(r2, o2) by {
                    let k = choose|k: int|
                        0 <= k < old(ledger).rentals@.len() && old(ledger).rentals@[k].renter == r2
                            && old(ledger).rentals@[k].owner == o2;
                    assert(ledger.rentals@[k] == old(ledger).rentals@[k]);
                    lemma_rental_at_index(*ledger, k);
                    lemma_rental_at_index(*old(ledger), k);
                }
                assert forall|r2: u64, o2: u64|
                    !(r2 == renter && o2 == owner) && ledger.rental_has(r2, o2) implies old(ledger).rental_has(r2, o2) by {
                    let k = choose|k: int|
                        0 <= k < ledger.rentals@.len() && ledger.rentals@[k].renter == r2
                            && ledger.rentals@[k].owner == o2;
                    assert(k != n);
                    assert(ledger.rentals@[k] == old(ledger).rentals@[k]);
                }
            }
        },
    }
}

/// Deletes the rental record keyed by the (renter, owner) pair. All other
/// records and domains are untouched.
pub fn remove_rental(ledger: &mut RentACarContract, renter: u64, owner: u64)
    requires
        old(ledger).rentals_unique(),
        old(ledger).rental_has(renter, owner),
    ensures
        final(ledger).rentals_unique(),
        !final(ledger).rental_has(renter, owner),
        forall|r2: u64, o2: u64|
            !(r2 == renter && o2 == owner) ==> final(ledger).rental_has(r2, o2) == old(ledger).rental_has(r2, o2),
        forall|r2: u64, o2: u64|
            !(r2 == renter && o2 == owner) && old(ledger).rental_has(r2, o2) ==> final(ledger).rental_of(r2, o2) == old(ledger).rental_of(r2, o2),
        final(ledger).admin == old(ledger).admin,
        final(ledger).token == old(ledger).token,
        final(ledger).admin_commission == old(ledger).admin_commission,
        final(ledger).contract_balance == old(ledger).contract_balance,
        final(ledger).admin_balance == old(ledger).admin_balance,
        final(ledger).cars == old(ledger).cars,
{
    match rental_index(ledger, renter, owner) {
        Some(i) => {
            proof {
                ledger.rentals@.remove_ensures(i as int);
            }
            let _ = ledger.rentals.remove(i);
            proof {
                assert forall|a: int, b: int|
                    0 <= a < ledger.rentals@.len() && 0 <= b < ledger.rentals@.len() && a
                        != b implies !(ledger.rentals@[a].renter == ledger.rentals@[b].renter
                        && ledger.rentals@[a].owner == ledger.rentals@[b].owner) by {
                    let a0 = if a < i { a } else { a + 1 };
                    let b0 = if b < i { b } else { b + 1 };
                    assert(ledger.rentals@[a] == old(ledger).rentals@[a0]);
                    assert(ledger.rentals@[b] == old(ledger).rentals@[b0]);
                }
                assert forall|k: int|
                    0 <= k < ledger.rentals@.len() implies !(ledger.rentals@[k].renter == renter
                        && ledger.rentals@[k].owner == owner) by {
                    let k0 = if k < i { k } else { k + 1 };
                    assert(ledger.rentals@[k] == old(ledger).rentals@[k0]);
                    assert(k0 != i);
                }
                assert forall|r2: u64, o2: u64|
                    !(r2 == renter && o2 == owner) && old(ledger).rental_has(
                        r2,
                        o2,
                    ) implies ledger.rental_has(r2, o2) && ledger.rental_of(r2, o2) == old(ledger).rental_of(r2, o2) by {
                    let k0 = choose|k0: int|
                        0 <= k0 < old(ledger).rentals@.len() && old(ledger).rentals@[k0].renter
                            == r2 && old(ledger).rentals@[k0].owner == o2;
                    assert(k0 != i);
                    let k = if k0 < i { k0 } else { k0 - 1 };
                    assert(ledger.rentals@[k] == old(ledger).rentals@[k0]);
                    lemma_rental_at_index(*ledger, k);
                    lemma_rental_at_index(*old(ledger), k0);
                }
                assert forall|r2: u64, o2: u64|
                    !(r2 == renter && o2 == owner) && ledger.rental_has(r2, o2) implies old(ledger).rental_has(r2, o2) by {
                    let k = choose|k: int|
                        0 <= k < ledger.rentals@.len() && ledger.rentals@[k].renter == r2
                            && ledger.rentals@[k].owner == o2;
                    let k0 = if k < i { k } else { k + 1 };
                    assert(ledger.rentals@[k] == old(ledger).rentals@[k0]);
                }
            }
        },
        None => {
            proof {
                assert(false);
            }
        },
    }
}

} // verus!
