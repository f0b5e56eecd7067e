use fast_buka::datatypes::{FastBukaError, OrderStatus};
use fast_buka::ledger::TokenLedger;
use fast_buka::FastBukaContract;

const CONTRACT: u64 = 1000;
const TOKEN: u64 = 7;

#[test]
fn test_customer_complete_order() {
    let admin: u64 = 1;
    let mut contract = FastBukaContract::__constructor(CONTRACT, admin);

    let user: u64 = 2;
    let vendor: u64 = 3;
    let rider: u64 = 4;

    let mut usdc_token = TokenLedger::new(TOKEN);
    let total_amount: i128 = 1000;
    let rider_fee: i128 = 100;

    assert!(usdc_token.mint(user, total_amount));
    let initial_vendor_balance = usdc_token.balance(vendor);
    let initial_rider_balance = usdc_token.balance(rider);

    let order_id = contract
        .create_order(&mut usdc_token, user, TOKEN, vendor, total_amount, rider_fee, 0)
        .unwrap();

    contract.update_order_status(order_id, vendor, 42).unwrap();
    contract.pickup_order(order_id, rider).unwrap();
    contract.rider_confirms_delivery(order_id, rider).unwrap();

    let order = contract.get_order(order_id).unwrap();
    assert_eq!(order.status, OrderStatus::Delivered);

    contract.user_confirms_order(&mut usdc_token, order_id, user).unwrap();

    let completed_order = contract.get_order(order_id).unwrap();
    assert_eq!(completed_order.status, OrderStatus::Completed);

    let final_vendor_balance = usdc_token.balance(vendor);
    let final_rider_balance = usdc_token.balance(rider);

    assert_eq!(final_vendor_balance, initial_vendor_balance + (total_amount - rider_fee));
    assert_eq!(final_rider_balance, initial_rider_balance + rider_fee);
}

#[test]
fn test_check_order_status_by_user() {
    let admin: u64 = 1;
    let mut contract = FastBukaContract::__constructor(CONTRACT, admin);

    let user: u64 = 2;
    let vendor: u64 = 3;
    let rider: u64 = 4;

    let mut usdc_token = TokenLedger::new(TOKEN);
    let total_amount: i128 = 1000;
    let rider_fee: i128 = 100;
    assert!(usdc_token.mint(user, total_amount));

    let order_id = contract
        .create_order(&mut usdc_token, user, TOKEN, vendor, total_amount, rider_fee, 0)
        .unwrap();

    let status = contract.check_order_status(user, order_id).unwrap();
    assert_eq!(status, OrderStatus::Waiting);
    let order = contract.get_order(order_id).unwrap();
    assert_eq!(order.status, OrderStatus::Waiting);

    let confirmation = contract.update_order_status(order_id, vendor, 42).unwrap();
    println!("Confirmation code: {:?}", confirmation);

    let status = contract.check_order_status(user, order_id).unwrap();
    assert_eq!(status, OrderStatus::ReadyForPickup);
    let order = contract.get_order(order_id).unwrap();
    assert_eq!(order.status, OrderStatus::ReadyForPickup);

    contract.pickup_order(order_id, rider).unwrap();
    let order = contract.get_order(order_id).unwrap();
    let rider_confirm_no = contract.get_confirmation_number_rider(order_id).unwrap();
    println!("rider_confirm_no: {}", rider_confirm_no);

    contract.check_order_status(user, order_id).unwrap();
    assert_eq!(order.status, OrderStatus::PickedUp);
    assert_eq!(order.rider, Some(rider));

    contract.rider_confirms_delivery(order_id, rider).unwrap();
    let order = contract.get_order(order_id).unwrap();

    contract.check_order_status(user, order_id).unwrap();
    assert_eq!(order.status, OrderStatus::Delivered);

    contract.user_confirms_order(&mut usdc_token, order_id, user).unwrap();
    let order = contract.get_order(order_id).unwrap();

    contract.check_order_status(user, order_id).unwrap();
    assert_eq!(order.status, OrderStatus::Completed);
}

#[test]
fn test_raise_dispute_when_order_not_delivered() {
    let admin: u64 = 1;
    let mut contract = FastBukaContract::__constructor(CONTRACT, admin);

    let user: u64 = 2;
    let vendor: u64 = 3;
    let rider: u64 = 4;

    let mut usdc_token = TokenLedger::new(TOKEN);
    let total_amount: i128 = 1000;
    let rider_fee: i128 = 100;
    assert!(usdc_token.mint(user, total_amount));
    let reason = String::from("Issues with Order, food bad");

    let order_id = contract
        .create_order(&mut usdc_token, user, TOKEN, vendor, total_amount, rider_fee, 0)
        .unwrap();

    let confirmation = contract.update_order_status(order_id, vendor, 42).unwrap();
    println!("Confirmation code: {:?}", confirmation);

    contract.pickup_order(order_id, rider).unwrap();
    contract.get_order(order_id).unwrap();

    let r = contract.customer_raise_dispute(order_id, user, reason);
    assert_eq!(r, Err(FastBukaError::OrderNotDelivered));
}

#[test]
fn test_get_confirmation_number_customer() {
    let admin: u64 = 1;
    let mut contract = FastBukaContract::__constructor(CONTRACT, admin);

    let user: u64 = 2;
    let vendor: u64 = 3;

    let mut usdc_token = TokenLedger::new(TOKEN);
    let total_amount: i128 = 1000;
    let rider_fee: i128 = 100;
    assert!(usdc_token.mint(user, total_amount));

    let order_id = contract
        .create_order(&mut usdc_token, user, TOKEN, vendor, total_amount, rider_fee, 0)
        .unwrap();

    let confirmation = contract.update_order_status(order_id, vendor, 42).unwrap();

    let customer_confirmation = contract.get_confirmation_number_customer(user, order_id).unwrap();
    assert_eq!(customer_confirmation, confirmation);
}
