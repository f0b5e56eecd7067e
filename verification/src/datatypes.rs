use vstd::prelude::*;

verus! {

/// Error taxonomy of the engine. Every operation surfaces failures as one of
/// these typed values; no failure is swallowed.
#[derive(Clone, Copy, Debug, PartialEq, Eq, Structural)]
pub enum FastBukaError {
    InvalidAmount,
    InvalidStatus,
    InvalidCaller,
    InvalidConfirmationNumber,
    OrderNotFound,
    OrderNotReady,
    InvalidStatusTransition,
    UnauthorizedAccess,
    VendorPaymentFailed,
    DisputeAlreadyExists,
    DisputeNotFound,
    NotAdmin,
    AlreadyResolved,
    InsufficientBalance,
    OrderNotDelivered,
    CalculationError,
    RiderPaymentFailed,
    DepositPaymentFailed,
    AlreadyAdmin,
    CustomerPaymentFailed,
    InsufficientFundsInContract,
    OrderNotPickedUp,
    OrderNotCompleted,
}

/// Progression of an order. `Completed`, `Resolved` and `Cancelled` are
/// terminal; `Cancelled` is reserved and never produced by any transition.
#[derive(Clone, Copy, Debug, PartialEq, Eq, Structural)]
pub enum OrderStatus {
    Waiting,
    ReadyForPickup,
    PickedUp,
    Delivered,
    Completed,
    Cancelled,
    Disputed,
    Resolved,
}

/// The three fault policies an admin may choose when settling a dispute.
#[derive(Clone, Copy, Debug, PartialEq, Eq, Structural)]
pub enum DisputeResolution {
    VendorFault,
    RiderFault,
    CustomerFault,
}

/// Payload published when an order is created.
#[derive(Clone, Copy, Debug)]
pub struct OrderCreatedEvent {
    pub count: u128,
    pub user: u64,
    pub vendor: u64,
    pub amount: u128,
}

/// Payload published when an order's status advances.
#[derive(Clone, Copy, Debug)]
pub struct OrderStatusUpdatedEvent {
    pub order_id: u128,
    pub old_status: OrderStatus,
    pub new_status: OrderStatus,
}

/// Payload published when a vendor generates a pickup confirmation code.
#[derive(Clone, Copy, Debug)]
pub struct ConfirmationGeneratedEvent {
    pub order_id: u128,
    pub vendor: u64,
}

/// Payload published when a rider picks an order up.
#[derive(Clone, Copy, Debug)]
pub struct OrderPickedUpEvent {
    pub order_id: u128,
    pub rider: u64,
}

/// Payload published when a dispute is raised.
#[derive(Clone, Copy, Debug)]
pub struct DisputeEvent {
    pub order_id: u128,
    pub initiator: u64,
}

/// Payload published when a dispute is resolved.
#[derive(Clone, Copy, Debug)]
pub struct DisputeResolvedEvent {
    pub order_id: u128,
    pub resolution: DisputeResolution,
    pub admin: u64,
}

/// The central entity: one order, custodied by the engine from creation until
/// a terminal transfer. Account and asset identifiers are the plain numeric
/// principals the host hands the engine.
#[derive(Clone, Copy, Debug)]
pub struct Order {
    pub id: u128,
    pub user: u64,
    pub token: u64,
    pub vendor: u64,
    pub amount: i128,
    pub rider_fee: i128,
    pub status: OrderStatus,
    pub rider: Option<u64>,
    pub created_at: u64,
    pub confirmation_number: Option<u32>,
}

/// Token allowance value, kept for completeness of the storage data model.
#[derive(Clone, Copy, Debug)]
pub struct AllowanceValue {
    pub amount: i128,
    pub expiration_ledger: u32,
}

/// Key of a token allowance entry.
#[derive(Clone, Copy, Debug)]
pub struct AllowanceDataKey {
    pub from: u64,
    pub spender: u64,
}

/// An order's amounts are valid when the total is strictly positive and the
/// rider's share lies between zero and the total.
pub open spec fn amounts_valid(amount: i128, rider_fee: i128) -> bool {
    amount > 0 && 0 <= rider_fee <= amount
}

/// A rider is assigned exactly from pickup onwards.
pub open spec fn status_has_rider(s: OrderStatus) -> bool {
    match s {
        OrderStatus::PickedUp => true,
        OrderStatus::Delivered => true,
        OrderStatus::Completed => true,
        OrderStatus::Disputed => true,
        OrderStatus::Resolved => true,
        _ => false,
    }
}

/// A confirmation code exists exactly from the moment the vendor marks the
/// order ready.
pub open spec fn status_past_ready(s: OrderStatus) -> bool {
    s == OrderStatus::ReadyForPickup || status_has_rider(s)
}

/// The lowest and highest values a confirmation code may take.
pub open spec fn confirmation_in_range(c: u32) -> bool {
    1000 <= c <= 9999
}

/// Well-formedness of a single order: valid amounts, a rider exactly from
/// pickup onwards, and a confirmation code in range exactly from readiness
/// onwards. Every order the engine stores satisfies this.
pub open spec fn order_wf(o: Order) -> bool {
    &&& o.id >= 1
    &&& amounts_valid(o.amount, o.rider_fee)
    &&& o.rider.is_some() <==> status_has_rider(o.status)
    &&& o.confirmation_number.is_some() <==> status_past_ready(o.status)
    &&& o.confirmation_number.is_some() ==> confirmation_in_range(o.confirmation_number.unwrap())
}

/// The transition table of the order state machine. A status may only ever
/// advance along one of these six edges.
pub open spec fn can_transition(from: OrderStatus, to: OrderStatus) -> bool {
    ||| (from == OrderStatus::Waiting && to == OrderStatus::ReadyForPickup)
    ||| (from == OrderStatus::ReadyForPickup && to == OrderStatus::PickedUp)
    ||| (from == OrderStatus::PickedUp && to == OrderStatus::Delivered)
    ||| (from == OrderStatus::Delivered && to == OrderStatus::Completed)
    ||| (from == OrderStatus::Delivered && to == OrderStatus::Disputed)
    ||| (from == OrderStatus::Disputed && to == OrderStatus::Resolved)
}

/// What each party is owed when a dispute over `(amount, rider_fee)` is
/// settled under `resolution`: the customer's, the vendor's and the rider's
/// shares, in that order.
pub open spec fn spec_resolution_payouts(
    resolution: DisputeResolution,
    amount: i128,
    rider_fee: i128,
) -> (int, int, int) {
    match resolution {
        DisputeResolution::VendorFault => (amount - rider_fee, 0, rider_fee as int),
        DisputeResolution::RiderFault => (rider_fee as int, amount - rider_fee, 0),
        DisputeResolution::CustomerFault => (0, amount - rider_fee, rider_fee as int),
    }
}

/// Fault-split conservation: under every fault policy the three payouts are
/// individually non-negative and sum to exactly the custodied amount, so a
/// resolution neither mints nor burns funds.
pub proof fn lemma_resolution_conserves_amount(
    resolution: DisputeResolution,
    amount: i128,
    rider_fee: i128,
)
    requires
        amounts_valid(amount, rider_fee),
    ensures
        ({
            let (customer, vendor, rider) = spec_resolution_payouts(resolution, amount, rider_fee);
            customer >= 0 && vendor >= 0 && rider >= 0 && customer + vendor + rider == amount
        }),
{
}

/// Validates the amounts an order is created with: rejects a non-positive
/// total and a rider share outside `[0, total]`.
pub fn validate_order_amounts(total_amount: i128, rider_fee: i128) -> (r: Result<
    (),
    FastBukaError,
>)
    ensures
        r is Ok <==> amounts_valid(total_amount, rider_fee),
        r is Err ==> r == Err::<(), FastBukaError>(FastBukaError::InvalidAmount),
{
    if total_amount <= 0 || rider_fee < 0 || rider_fee > total_amount {
        Err(FastBukaError::InvalidAmount)
    } else {
        Ok(())
    }
}

/// On normal completion the vendor is owed the total minus the rider's share
/// and the rider is owed that share; the two together release exactly the
/// custodied amount. Underflow of the subtraction is reported, never wrapped.
pub fn settlement_amounts(amount: i128, rider_fee: i128) -> (r: Result<
    (i128, i128),
    FastBukaError,
>)
    ensures
        match r {
            Ok(parts) => {
                &&& i128::MIN <= amount - rider_fee <= i128::MAX
                &&& parts.0 == amount - rider_fee
                &&& parts.1 == rider_fee
            },
            Err(e) => {
                &&& e == FastBukaError::CalculationError
                &&& !(i128::MIN <= amount - rider_fee <= i128::MAX)
            },
        },
{
    match amount.checked_sub(rider_fee) {
        Some(vendor_amount) => Ok((vendor_amount, rider_fee)),
        None => Err(FastBukaError::CalculationError),
    }
}

/// Executable form of `spec_resolution_payouts`, with the same checked
/// subtraction as the settlement path.
pub fn resolution_payouts(
    resolution: DisputeResolution,
    amount: i128,
    rider_fee: i128,
) -> (r: Result<(i128, i128, i128), FastBukaError>)
    ensures
        match r {
            Ok(parts) => {
                &&& i128::MIN <= amount - rider_fee <= i128::MAX
                &&& (parts.0 as int, parts.1 as int, parts.2 as int)
                    == spec_resolution_payouts(resolution, amount, rider_fee)
            },
            Err(e) => {
                &&& e == FastBukaError::CalculationError
                &&& !(i128::MIN <= amount - rider_fee <= i128::MAX)
            },
        },
{
    let (counterparty_amount, rider_amount) = settlement_amounts(amount, rider_fee)?;
    match resolution {
        DisputeResolution::VendorFault => Ok((counterparty_amount, 0, rider_amount)),
        DisputeResolution::RiderFault => Ok((rider_amount, counterparty_amount, 0)),
        DisputeResolution::CustomerFault => Ok((0, counterparty_amount, rider_amount)),
    }
}

} // verus!
