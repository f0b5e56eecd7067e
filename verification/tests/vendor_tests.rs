use fast_buka::datatypes::{FastBukaError, OrderStatus};
use fast_buka::ledger::TokenLedger;
use fast_buka::FastBukaContract;

const CONTRACT: u64 = 1000;
const TOKEN: u64 = 7;

#[test]
fn test_get_vendor_pending_orders() {
    let admin: u64 = 1;
    let mut contract = FastBukaContract::__constructor(CONTRACT, admin);

    let user1: u64 = 2;
    let vendor1: u64 = 3;
    let vendor2: u64 = 5;

    let mut usdc_token = TokenLedger::new(TOKEN);
    assert!(usdc_token.mint(user1, 2000));

    let _order1_id = contract
        .create_order(&mut usdc_token, user1, TOKEN, vendor1, 500, 50, 0)
        .unwrap();
    let _order2_id = contract
        .create_order(&mut usdc_token, user1, TOKEN, vendor1, 300, 30, 0)
        .unwrap();
    let __order2_id = contract
        .create_order(&mut usdc_token, user1, TOKEN, vendor1, 300, 30, 0)
        .unwrap();

    let _order3_id = contract
        .create_order(&mut usdc_token, user1, TOKEN, vendor2, 300, 30, 0)
        .unwrap();

    let vendor_orders = contract.get_vendor_pending_orders(vendor1).unwrap();
    assert_eq!(vendor_orders.len(), 3, "Expected 2 orders for vendor1");

    let vendor_orders = contract.get_vendor_pending_orders(vendor2).unwrap();
    assert_eq!(vendor_orders.len(), 1, "Expected 2 orders for vendor2");
}

#[test]
fn test_get_vendor_no_found_orders() {
    let admin: u64 = 1;
    let mut contract = FastBukaContract::__constructor(CONTRACT, admin);

    let user1: u64 = 2;
    let vendor1: u64 = 3;
    let vendor2: u64 = 5;

    let mut usdc_token = TokenLedger::new(TOKEN);
    assert!(usdc_token.mint(user1, 2000));

    let _order1_id = contract
        .create_order(&mut usdc_token, user1, TOKEN, vendor1, 500, 50, 0)
        .unwrap();

    let r = contract.get_vendor_pending_orders(vendor2);
    assert!(matches!(r, Err(FastBukaError::OrderNotFound)));
}

#[test]
fn test_update_order_status_by_vendor() {
    let admin: u64 = 1;
    let mut contract = FastBukaContract::__constructor(CONTRACT, admin);

    let user: u64 = 2;
    let vendor: u64 = 3;

    let mut usdc_token = TokenLedger::new(TOKEN);
    let total_amount: i128 = 1000;
    let rider_fee: i128 = 100;

    assert!(usdc_token.mint(user, total_amount));

    let order_id = contract
        .create_order(&mut usdc_token, user, TOKEN, vendor, total_amount, rider_fee, 0)
        .unwrap();

    let confirmation = contract.update_order_status(order_id, vendor, 42).unwrap();
    println!("Confirmation code: {:?}", confirmation);
    let updated_order = contract.get_order(order_id).unwrap();

    assert_eq!(updated_order.status, OrderStatus::ReadyForPickup);
    assert!(updated_order.confirmation_number.is_some());
}

#[test]
fn test_update_order_status_by_wrong_vendor() {
    let admin: u64 = 1;
    let mut contract = FastBukaContract::__constructor(CONTRACT, admin);

    let user: u64 = 2;
    let vendor: u64 = 3;
    let wrong_vendor: u64 = 6;

    let mut usdc_token = TokenLedger::new(TOKEN);
    let total_amount: i128 = 1000;
    let rider_fee: i128 = 100;

    assert!(usdc_token.mint(user, total_amount));

    let order_id = contract
        .create_order(&mut usdc_token, user, TOKEN, vendor, total_amount, rider_fee, 0)
        .unwrap();

    let r = contract.update_order_status(order_id, wrong_vendor, 42);
    assert_eq!(r, Err(FastBukaError::UnauthorizedAccess));
}
