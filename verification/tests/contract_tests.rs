use rent_a_car::contract::RentACarContract;
use rent_a_car::storage::{read_car, read_contract_balance, read_rental};
use rent_a_car::types::{CarStatus, Error, Party};

fn fresh_contract() -> RentACarContract {
    let mut contract = RentACarContract::new();
    contract.__constructor(1, 2).unwrap();
    contract
}

#[test]
fn test_set_admin_commission() {
    let mut contract = fresh_contract();

    let commission: i128 = 10; // 10%
    contract.set_admin_commission(commission).unwrap();

    let stored_commission = contract.get_admin_commission();
    assert_eq!(stored_commission, commission);
}

#[test]
fn test_rental_with_commission() {
    let mut contract = fresh_contract();

    let owner: u64 = 3;
    let renter: u64 = 4;
    let price_per_day: i128 = 1500;
    let total_days: u32 = 3;
    let commission: i128 = 10; // 10%

    contract.set_admin_commission(commission).unwrap();
    contract.add_car(owner, price_per_day).unwrap();

    contract.rental(renter, owner, total_days).unwrap();

    let total_amount: i128 = price_per_day * total_days as i128;
    let expected_commission: i128 = (total_amount * commission) / 100;

    let admin_balance = contract.get_admin_balance();
    assert_eq!(admin_balance, expected_commission);

    let car_status = contract.get_car_status(owner).unwrap();
    assert_eq!(car_status, CarStatus::Rented);
}

#[test]
fn test_constructor_admin_token_conflict() {
    let mut contract = RentACarContract::new();
    assert_eq!(contract.__constructor(7, 7), Err(Error::AdminTokenConflict));
    assert!(contract.admin.is_none());
    assert!(contract.token.is_none());
}

#[test]
fn test_constructor_twice() {
    let mut contract = RentACarContract::new();
    assert_eq!(contract.__constructor(1, 2), Ok(()));
    assert_eq!(contract.__constructor(3, 4), Err(Error::ContractInitialized));
    assert_eq!(contract.admin, Some(1));
    assert_eq!(contract.token, Some(2));
}

#[test]
fn test_rental_scenario() {
    let mut contract = fresh_contract();
    let owner: u64 = 3;
    let renter: u64 = 4;

    contract.set_admin_commission(10).unwrap();
    contract.add_car(owner, 1000).unwrap();
    let transfer = contract.rental(renter, owner, 5).unwrap();

    assert_eq!(transfer.from, Party::Account(renter));
    assert_eq!(transfer.to, Party::Contract);
    assert_eq!(transfer.amount, 5000);

    let rental = read_rental(&contract, renter, owner);
    assert_eq!(rental.amount, 5000);
    assert_eq!(rental.commission, 500);
    assert_eq!(rental.total_days_to_rent, 5);
    assert!(rental.is_active);

    assert_eq!(read_car(&contract, owner).available_to_withdraw, 4500);
    assert_eq!(read_contract_balance(&contract), 5000);
    assert_eq!(contract.get_admin_balance(), 500);
    assert_eq!(contract.get_car_status(owner), Ok(CarStatus::Rented));
}

#[test]
fn test_payout_owner_before_return() {
    let mut contract = fresh_contract();
    let owner: u64 = 3;
    let renter: u64 = 4;

    contract.set_admin_commission(10).unwrap();
    contract.add_car(owner, 1000).unwrap();
    contract.rental(renter, owner, 5).unwrap();

    assert_eq!(contract.payout_owner(owner, 4500), Err(Error::CarNotReturned));
    assert_eq!(read_car(&contract, owner).available_to_withdraw, 4500);
}

#[test]
fn test_payout_owner_after_return() {
    let mut contract = fresh_contract();
    let owner: u64 = 3;
    let renter: u64 = 4;

    contract.set_admin_commission(10).unwrap();
    contract.add_car(owner, 1000).unwrap();
    contract.rental(renter, owner, 5).unwrap();
    contract.return_car(renter, owner).unwrap();

    let transfer = contract.payout_owner(owner, 4500).unwrap();
    assert_eq!(transfer.from, Party::Contract);
    assert_eq!(transfer.to, Party::Account(owner));
    assert_eq!(transfer.amount, 4500);

    assert_eq!(read_contract_balance(&contract), 500);
    assert_eq!(read_car(&contract, owner).available_to_withdraw, 0);

    assert_eq!(contract.payout_owner(owner, 1), Err(Error::InsufficientBalance));
}

#[test]
fn test_rental_zero_days() {
    let mut contract = fresh_contract();
    let owner: u64 = 3;
    let renter: u64 = 4;

    contract.add_car(owner, 1000).unwrap();
    assert_eq!(contract.rental(renter, owner, 0), Err(Error::RentalDurationCannotBeZero));

    assert_eq!(contract.get_car_status(owner), Ok(CarStatus::Available));
    assert_eq!(read_contract_balance(&contract), 0);
    assert_eq!(contract.get_admin_balance(), 0);
}

#[test]
fn test_self_rental_not_allowed() {
    let mut contract = fresh_contract();

    // No car listed at all: the self-rental check still comes first.
    assert_eq!(contract.rental(5, 5, 3), Err(Error::SelfRentalNotAllowed));

    contract.add_car(5, 1000).unwrap();
    assert_eq!(contract.rental(5, 5, 3), Err(Error::SelfRentalNotAllowed));
}

#[test]
fn test_rental_car_not_found() {
    let mut contract = fresh_contract();
    assert_eq!(contract.rental(4, 3, 2), Err(Error::CarNotFound));
}

#[test]
fn test_rental_already_rented() {
    let mut contract = fresh_contract();
    let owner: u64 = 3;

    contract.add_car(owner, 1000).unwrap();
    contract.rental(4, owner, 2).unwrap();

    assert_eq!(contract.rental(5, owner, 1), Err(Error::CarAlreadyRented));
    assert_eq!(contract.rental(4, owner, 1), Err(Error::CarAlreadyRented));
}

#[test]
fn test_add_car_validation() {
    let mut contract = fresh_contract();

    assert_eq!(contract.add_car(3, 0), Err(Error::AmountMustBePositive));
    assert_eq!(contract.add_car(3, -5), Err(Error::AmountMustBePositive));

    contract.add_car(3, 1000).unwrap();
    assert_eq!(contract.add_car(3, 2000), Err(Error::CarAlreadyExist));
    assert_eq!(read_car(&contract, 3).price_per_day, 1000);
}

#[test]
fn test_get_car_status_not_found() {
    let contract = fresh_contract();
    assert_eq!(contract.get_car_status(9), Err(Error::CarNotFound));
}

#[test]
fn test_set_admin_commission_negative() {
    let mut contract = fresh_contract();
    assert_eq!(contract.set_admin_commission(-1), Err(Error::AmountMustBePositive));
    assert_eq!(contract.get_admin_commission(), 0);
}

#[test]
fn test_remove_car() {
    let mut contract = fresh_contract();
    contract.add_car(3, 1000).unwrap();

    assert_eq!(contract.remove_car(3), Ok(()));
    assert_eq!(contract.get_car_status(3), Err(Error::CarNotFound));
    assert_eq!(contract.remove_car(3), Err(Error::CarNotFound));
}

#[test]
fn test_return_car_not_found() {
    let mut contract = fresh_contract();
    let owner: u64 = 3;
    let renter: u64 = 4;

    assert_eq!(contract.return_car(renter, owner), Err(Error::RentalNotFound));

    contract.add_car(owner, 1000).unwrap();
    contract.rental(renter, owner, 2).unwrap();
    contract.return_car(renter, owner).unwrap();

    // The record stays, inactive: a second return finds no active rental.
    assert_eq!(contract.return_car(renter, owner), Err(Error::RentalNotFound));
    assert!(!read_rental(&contract, renter, owner).is_active);
}

#[test]
fn test_payout_admin_flow() {
    let mut contract = fresh_contract();
    let owner: u64 = 3;
    let renter: u64 = 4;

    contract.set_admin_commission(10).unwrap();
    contract.add_car(owner, 1000).unwrap();
    contract.rental(renter, owner, 5).unwrap();

    assert_eq!(contract.payout_admin(0), Err(Error::AmountMustBePositive));
    assert_eq!(contract.payout_admin(501), Err(Error::InsufficientBalance));

    let transfer = contract.payout_admin(500).unwrap();
    assert_eq!(transfer.from, Party::Contract);
    assert_eq!(transfer.to, Party::Account(1));
    assert_eq!(transfer.amount, 500);

    assert_eq!(contract.get_admin_balance(), 0);
    assert_eq!(read_contract_balance(&contract), 4500);
    assert_eq!(contract.payout_admin(1), Err(Error::InsufficientBalance));
}

#[test]
fn test_commission_above_hundred_starves_treasury() {
    // A commission percentage above 100 earmarks more than the rental brings
    // in, so the treasury can no longer cover the admin's whole earmark.
    let mut contract = fresh_contract();
    let owner: u64 = 3;
    let renter: u64 = 4;

    contract.set_admin_commission(200).unwrap();
    contract.add_car(owner, 100).unwrap();
    contract.rental(renter, owner, 1).unwrap();

    assert_eq!(contract.get_admin_balance(), 200);
    assert_eq!(read_contract_balance(&contract), 100);
    assert_eq!(read_car(&contract, owner).available_to_withdraw, -100);

    // Within the earmark but beyond what the contract holds.
    assert_eq!(contract.payout_admin(150), Err(Error::BalanceNotAvailableForAmountRequested));
}

#[test]
fn test_payout_owner_treasury_short() {
    let mut contract = fresh_contract();
    let owner_a: u64 = 3;
    let owner_b: u64 = 5;
    let renter: u64 = 4;

    // Owner A earns 100 with no commission.
    contract.add_car(owner_a, 100).unwrap();
    contract.rental(renter, owner_a, 1).unwrap();
    contract.return_car(renter, owner_a).unwrap();

    // A second rental at 200% drains the treasury through the admin payout.
    contract.set_admin_commission(200).unwrap();
    contract.add_car(owner_b, 100).unwrap();
    contract.rental(renter, owner_b, 1).unwrap();
    contract.payout_admin(200).unwrap();

    assert_eq!(read_contract_balance(&contract), 0);
    assert_eq!(read_car(&contract, owner_a).available_to_withdraw, 100);
    assert_eq!(
        contract.payout_owner(owner_a, 50),
        Err(Error::BalanceNotAvailableForAmountRequested)
    );
}

#[test]
fn test_commission_split_exact() {
    let mut contract = fresh_contract();
    let owner: u64 = 3;
    let renter: u64 = 4;

    contract.set_admin_commission(7).unwrap();
    contract.add_car(owner, 333).unwrap();
    let transfer = contract.rental(renter, owner, 3).unwrap();

    // amount 999, commission floor(999 * 7 / 100) = 69, owner share 930.
    assert_eq!(transfer.amount, 999);
    let rental = read_rental(&contract, renter, owner);
    assert_eq!(rental.commission, 69);
    assert_eq!(read_car(&contract, owner).available_to_withdraw, 930);
    assert_eq!(contract.get_admin_balance(), 69);
    assert_eq!(rental.commission + read_car(&contract, owner).available_to_withdraw, rental.amount);
}

#[test]
fn test_reads_mutate_nothing() {
    let mut contract = fresh_contract();
    contract.set_admin_commission(10).unwrap();
    contract.add_car(3, 1000).unwrap();
    contract.rental(4, 3, 5).unwrap();

    let first_status = contract.get_car_status(3);
    let first_commission = contract.get_admin_commission();
    let first_balance = contract.get_admin_balance();
    let first_treasury = read_contract_balance(&contract);

    assert_eq!(contract.get_car_status(3), first_status);
    assert_eq!(contract.get_admin_commission(), first_commission);
    assert_eq!(contract.get_admin_balance(), first_balance);
    assert_eq!(read_contract_balance(&contract), first_treasury);
}

#[test]
fn test_rental_overwrites_prior_record() {
    let mut contract = fresh_contract();
    let owner: u64 = 3;
    let renter: u64 = 4;

    contract.add_car(owner, 1000).unwrap();
    contract.rental(renter, owner, 2).unwrap();
    contract.return_car(renter, owner).unwrap();

    contract.set_admin_commission(10).unwrap();
    contract.rental(renter, owner, 4).unwrap();

    let rental = read_rental(&contract, renter, owner);
    assert_eq!(rental.total_days_to_rent, 4);
    assert_eq!(rental.amount, 4000);
    assert_eq!(rental.commission, 400);
    assert!(rental.is_active);
    assert_eq!(read_contract_balance(&contract), 6000);
}
