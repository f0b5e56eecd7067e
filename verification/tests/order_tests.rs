use fast_buka::datatypes::OrderStatus;
use fast_buka::ledger::TokenLedger;
use fast_buka::FastBukaContract;

const CONTRACT: u64 = 1000;
const TOKEN: u64 = 7;

#[test]
fn test_create_order() {
    let mut contract = FastBukaContract::__constructor(CONTRACT, 1);

    let user: u64 = 2;
    let vendor: u64 = 3;
    let total_amount: i128 = 1000;
    let rider_fee: i128 = 100;

    let mut usdc_token = TokenLedger::new(TOKEN);
    assert!(usdc_token.mint(user, total_amount));

    assert_eq!(usdc_token.balance(user), total_amount);
    assert_eq!(usdc_token.balance(CONTRACT), 0);

    let order_id = contract
        .create_order(&mut usdc_token, user, TOKEN, vendor, total_amount, rider_fee, 0)
        .unwrap();
    assert_eq!(order_id, 1);
}

#[test]
fn test_create_order_and_get_order() {
    let mut contract = FastBukaContract::__constructor(CONTRACT, 1);

    let user: u64 = 2;
    let vendor: u64 = 3;
    let total_amount: i128 = 1000;
    let rider_fee: i128 = 100;

    let mut usdc_token = TokenLedger::new(TOKEN);
    assert!(usdc_token.mint(user, total_amount));

    let order_id = contract
        .create_order(&mut usdc_token, user, TOKEN, vendor, total_amount, rider_fee, 0)
        .unwrap();

    let order_count = contract.get_order_count();
    assert_eq!(order_count, 1);

    let order = contract.get_order(order_id).unwrap();
    assert_eq!(order.id, order_id);
    assert_eq!(order.amount, total_amount);
    assert_eq!(order.status, OrderStatus::Waiting);
}

#[test]
fn test_get_all_orders() {
    let mut contract = FastBukaContract::__constructor(CONTRACT, 1);

    let user1: u64 = 2;
    let user2: u64 = 5;
    let vendor: u64 = 3;

    let mut usdc_token = TokenLedger::new(TOKEN);

    let amount1: i128 = 1000;
    let amount2: i128 = 2000;
    assert!(usdc_token.mint(user1, amount1));
    assert!(usdc_token.mint(user2, amount2));

    let order1_id = contract
        .create_order(&mut usdc_token, user1, TOKEN, vendor, amount1, 100, 0)
        .unwrap();
    let order2_id = contract
        .create_order(&mut usdc_token, user2, TOKEN, vendor, amount2, 200, 0)
        .unwrap();
    assert_eq!(order1_id, 1);
    assert_eq!(order2_id, 2);

    let orders = contract.get_all_orders().unwrap();
    assert_eq!(orders.len(), 2);
    assert_eq!(orders.get(0).unwrap().amount, amount1);
    assert_eq!(orders.get(1).unwrap().amount, amount2);
}
