use fast_buka::datatypes::{FastBukaError, OrderStatus};
use fast_buka::ledger::TokenLedger;
use fast_buka::FastBukaContract;

const CONTRACT: u64 = 1000;
const TOKEN: u64 = 7;

#[test]
fn test_rider_pickup_flow() {
    let admin: u64 = 1;
    let mut contract = FastBukaContract::__constructor(CONTRACT, admin);

    let user: u64 = 2;
    let vendor: u64 = 3;
    let rider: u64 = 4;

    let mut usdc_token = TokenLedger::new(TOKEN);
    let total_amount: i128 = 1000;
    let rider_fee: i128 = 100;
    assert!(usdc_token.mint(user, total_amount));

    let order_id = contract
        .create_order(&mut usdc_token, user, TOKEN, vendor, total_amount, rider_fee, 0)
        .unwrap();

    let confirmation = contract.update_order_status(order_id, vendor, 42).unwrap();
    println!("Confirmation code: {:?}", confirmation);

    contract.pickup_order(order_id, rider).unwrap();
    let order = contract.get_order(order_id).unwrap();
    let rider_confirm_no = contract.get_confirmation_number_rider(order_id).unwrap();
    println!("rider_confirm_no: {}", rider_confirm_no);

    assert_eq!(order.status, OrderStatus::PickedUp);
    assert_eq!(order.rider, Some(rider));

    contract.rider_confirms_delivery(order_id, rider).unwrap();
    let order = contract.get_order(order_id).unwrap();
    assert_eq!(order.status, OrderStatus::Delivered);
}

#[test]
fn test_rider_dispute() {
    let admin: u64 = 1;
    let mut contract = FastBukaContract::__constructor(CONTRACT, admin);

    let user: u64 = 2;
    let vendor: u64 = 3;
    let rider: u64 = 4;
    let reason = String::from("Order details incorrect");

    let mut usdc_token = TokenLedger::new(TOKEN);
    let total_amount: i128 = 1000;
    let rider_fee: i128 = 100;
    assert!(usdc_token.mint(user, total_amount));

    let order_id = contract
        .create_order(&mut usdc_token, user, TOKEN, vendor, total_amount, rider_fee, 0)
        .unwrap();
    let confirmation = contract.update_order_status(order_id, vendor, 42).unwrap();
    println!("Confirmation code: {:?}", confirmation);

    contract.pickup_order(order_id, rider).unwrap();
    let order = contract.get_order(order_id).unwrap();
    let rider_confirm_no = contract.get_confirmation_number_rider(order_id).unwrap();
    println!("rider_confirm_no: {}", rider_confirm_no);

    assert_eq!(order.status, OrderStatus::PickedUp);
    assert_eq!(order.rider, Some(rider));

    contract.rider_confirms_delivery(order_id, rider).unwrap();
    let order = contract.get_order(order_id).unwrap();
    assert_eq!(order.status, OrderStatus::Delivered);

    contract.rider_raise_dispute(order_id, rider, reason).unwrap();

    let order = contract.get_order(order_id).unwrap();
    assert_eq!(order.status, OrderStatus::Disputed);
}

#[test]
fn test_pickup_order_not_ready() {
    let admin: u64 = 1;
    let mut contract = FastBukaContract::__constructor(CONTRACT, admin);

    let user: u64 = 2;
    let vendor: u64 = 3;
    let rider: u64 = 4;

    let mut usdc_token = TokenLedger::new(TOKEN);
    let total_amount: i128 = 1000;
    let rider_fee: i128 = 100;
    assert!(usdc_token.mint(user, total_amount));

    let order_id = contract
        .create_order(&mut usdc_token, user, TOKEN, vendor, total_amount, rider_fee, 0)
        .unwrap();

    let r = contract.pickup_order(order_id, rider);
    assert_eq!(r, Err(FastBukaError::OrderNotReady));
}

#[test]
fn test_dispute_before_delivery() {
    let admin: u64 = 1;
    let mut contract = FastBukaContract::__constructor(CONTRACT, admin);

    let user: u64 = 2;
    let vendor: u64 = 3;
    let rider: u64 = 4;
    let reason = String::from("Order details incorrect");

    let mut usdc_token = TokenLedger::new(TOKEN);
    let total_amount: i128 = 1000;
    let rider_fee: i128 = 100;
    assert!(usdc_token.mint(user, total_amount));

    let order_id = contract
        .create_order(&mut usdc_token, user, TOKEN, vendor, total_amount, rider_fee, 0)
        .unwrap();
    let confirmation = contract.update_order_status(order_id, vendor, 42).unwrap();
    println!("Confirmation code: {:?}", confirmation);

    contract.pickup_order(order_id, rider).unwrap();
    let order = contract.get_order(order_id).unwrap();
    let rider_confirm_no = contract.get_confirmation_number_rider(order_id).unwrap();
    println!("rider_confirm_no: {}", rider_confirm_no);

    assert_eq!(order.status, OrderStatus::PickedUp);
    assert_eq!(order.rider, Some(rider));

    let r = contract.rider_raise_dispute(order_id, rider, reason);
    assert_eq!(r, Err(FastBukaError::OrderNotDelivered));
}
