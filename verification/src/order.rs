use vstd::prelude::*;

use crate::datatypes::{
    amounts_valid, can_transition, order_wf, settlement_amounts, FastBukaError,
    Order, OrderStatus,
};
use crate::ledger::TokenLedger;
use crate::FastBukaContract;

verus! {

/// The balance movement a successful deposit causes: the customer pays the
/// order total into the engine's custody account.
pub open spec fn deposit_delta(user: u64, contract: u64, amount: i128, a: u64) -> int {
    (if a == user { -(amount as int) } else { 0 }) + (if a == contract { amount as int } else { 0 })
}

/// The balance movement a successful normal settlement of `o` causes: the
/// vendor receives the total minus the rider's share, the rider receives that
/// share, and the engine's custody account pays out exactly the total.
pub open spec fn settlement_delta(o: Order, contract: u64, a: u64) -> int {
    (if a == o.vendor { o.amount - o.rider_fee } else { 0 })
    + (if o.rider.is_some() && a == o.rider.unwrap() { o.rider_fee as int } else { 0 })
    + (if a == contract { -(o.amount as int) } else { 0 })
}

/// Whether a transfer of `amount` from `from` to `to` succeeds on `l`.
pub open spec fn transfer_ok(l: TokenLedger, from: u64, to: u64, amount: int) -> bool {
    0 <= amount <= l.bal(from) && (from == to || l.bal(to) + amount <= i128::MAX)
}

/// An account's balance after a successful transfer on `l`.
pub open spec fn bal_after(l: TokenLedger, from: u64, to: u64, amount: int, a: u64) -> int {
    l.bal(a) + (if a == to { amount } else { 0 }) - (if a == from { amount } else { 0 })
}

/// Whether the rider's settlement leg of `o` succeeds on the ledger the
/// vendor's leg leaves behind.
pub open spec fn settlement_leg2_ok(l: TokenLedger, contract: u64, o: Order) -> bool {
    let rider = o.rider.unwrap();
    let bal_contract = bal_after(l, contract, o.vendor, o.amount - o.rider_fee, contract);
    let bal_rider = bal_after(l, contract, o.vendor, o.amount - o.rider_fee, rider);
    0 <= o.rider_fee <= bal_contract && (contract == rider || bal_rider + o.rider_fee
        <= i128::MAX)
}

/// Whether both settlement legs of `o` succeed on `l`: first the vendor's,
/// then, on the ledger the vendor's leg leaves behind, the rider's.
pub open spec fn settlement_ok(l: TokenLedger, contract: u64, o: Order) -> bool {
    &&& transfer_ok(l, contract, o.vendor, o.amount - o.rider_fee)
    &&& o.rider.is_some()
    &&& settlement_leg2_ok(l, contract, o)
}

/// The order-level part of normal completion: validates that the caller is
/// the order's customer and that the order is `Delivered`, computes the
/// settlement split, and marks the order `Completed`. The caller performs
/// the two payout transfers; if either fails, the updated order must be
/// discarded rather than persisted.
pub fn settle_order(order: &mut Order, caller: u64) -> (r: Result<(i128, i128, u64), FastBukaError>)
    requires
        order_wf(*old(order)),
    ensures
        order_wf(*final(order)),
        r is Ok <==> caller == old(order).user && old(order).status == OrderStatus::Delivered,
        match r {
            Ok(parts) => {
                &&& parts.0 == old(order).amount - old(order).rider_fee
                &&& parts.1 == old(order).rider_fee
                &&& Some(parts.2) == old(order).rider
                &&& *final(order) == Order { status: OrderStatus::Completed, ..*old(order) }
                &&& can_transition(old(order).status, final(order).status)
            },
            Err(e) => {
                &&& *final(order) == *old(order)
                &&& (e == FastBukaError::UnauthorizedAccess <==> caller != old(order).user)
                &&& (e == FastBukaError::OrderNotDelivered <==> caller == old(order).user && old(
                    order,
                ).status != OrderStatus::Delivered)
            },
        },
{
    if caller != order.user {
        return Err(FastBukaError::UnauthorizedAccess);
    }
    if order.status != OrderStatus::Delivered {
        return Err(FastBukaError::OrderNotDelivered);
    }
    let (vendor_amount, rider_amount) = match settlement_amounts(order.amount, order.rider_fee) {
        Ok(parts) => parts,
        Err(e) => { return Err(e); },
    };
    let rider = match order.rider {
        Some(rd) => rd,
        None => { return Err(FastBukaError::OrderNotDelivered); },
    };
    order.status = OrderStatus::Completed;
    Ok((vendor_amount, rider_amount, rider))
}

impl FastBukaContract {
    /// Current value of the order counter: the number of orders created so
    /// far, `0` if none.
    pub fn get_order_count(&self) -> (r: u128)
        ensures
            r == self.spec_order_count(),
            r <= usize::MAX,
    {
        self.orders.len() as u128
    }

    /// Creates an order: validates the amounts, collects the total from the
    /// customer into the engine's custody account, and records the new order
    /// under the next sequential id with status `Waiting`. Fails without any
    /// state change when the amounts are invalid, the customer's balance is
    /// insufficient, or the deposit transfer cannot be performed; succeeds in
    /// every other case.
    pub fn create_order(
        &mut self,
        ledger: &mut TokenLedger,
        user: u64,
        token: u64,
        vendor: u64,
        total_amount: i128,
        rider_fee: i128,
        timestamp: u64,
    ) -> (r: Result<u128, FastBukaError>)
        requires
            old(self).wf(),
            old(ledger).wf(),
            old(ledger).token == token,
        ensures
            final(self).wf(),
            final(ledger).wf(),
            final(ledger).token == old(ledger).token,
            final(self).address == old(self).address,
            final(self).admins@ == old(self).admins@,
            final(self).disputed@ == old(self).disputed@,
            r is Ok <==> amounts_valid(total_amount, rider_fee) && old(ledger).bal(user)
                >= total_amount && (user == old(self).address || old(ledger).bal(old(self).address)
                + total_amount <= i128::MAX),
            match r {
                Ok(id) => {
                    &&& id == old(self).spec_order_count() + 1
                    &&& final(self).orders@ == old(self).orders@.push(
                        Order {
                            id,
                            user,
                            token,
                            vendor,
                            amount: total_amount,
                            rider_fee,
                            status: OrderStatus::Waiting,
                            rider: None,
                            created_at: timestamp,
                            confirmation_number: None,
                        },
                    )
                    &&& forall|a: u64|
                        #[trigger] final(ledger).bal(a) == old(ledger).bal(a) + deposit_delta(
                            user,
                            old(self).address,
                            total_amount,
                            a,
                        )
                },
                Err(e) => {
                    &&& *final(self) == *old(self)
                    &&& *final(ledger) == *old(ledger)
                    &&& (e == FastBukaError::InvalidAmount <==> !amounts_valid(
                        total_amount,
                        rider_fee,
                    ))
                    &&& (e == FastBukaError::InsufficientBalance <==> amounts_valid(
                        total_amount,
                        rider_fee,
                    ) && old(ledger).bal(user) < total_amount)
                    &&& (e == FastBukaError::DepositPaymentFailed <==> amounts_valid(
                        total_amount,
                        rider_fee,
                    ) && old(ledger).bal(user) >= total_amount && !(user == old(self).address || old(
                        ledger,
                    ).bal(old(self).address) + total_amount <= i128::MAX))
                },
            },
    {
        match crate::datatypes::validate_order_amounts(total_amount, rider_fee) {
            Ok(_) => {},
            Err(e) => { return Err(e); },
        };
        let user_balance = ledger.balance(user);
        if user_balance < total_amount {
            return Err(FastBukaError::InsufficientBalance);
        }
        if !ledger.transfer(user, self.address, total_amount) {
            return Err(FastBukaError::DepositPaymentFailed);
        }
        let count = self.get_order_count();
        let id = count + 1;
        let order = Order {
            id,
            user,
            token,
            vendor,
            amount: total_amount,
            rider_fee,
            status: OrderStatus::Waiting,
            rider: None,
            created_at: timestamp,
            confirmation_number: None,
        };
        self.orders.push(order);
        proof {
            assert forall|i: int| 0 <= i < self.orders@.len() implies order_wf(
                #[trigger] self.orders@[i],
            ) && self.orders@[i].id == i + 1 by {
                if i < old(self).orders@.len() {
                    assert(self.orders@[i] == old(self).orders@[i]);
                }
            }
            assert forall|i: int|
                0 <= i < self.orders@.len() && (#[trigger] self.orders@[i]).status
                    == OrderStatus::Disputed implies self.disputed@.contains(
                self.orders@[i].id,
            ) by {
                if i < old(self).orders@.len() {
                    assert(old(self).orders@[i].status == OrderStatus::Disputed);
                }
            }
            assert forall|i: int| 0 <= i < self.disputed@.len() implies {
                let d = #[trigger] self.disputed@[i];
                1 <= d <= self.orders@.len() && self.orders@[d as int - 1].status
                    == OrderStatus::Disputed
            } by {
                let d = self.disputed@[i];
                assert(1 <= d <= old(self).orders@.len());
                assert(self.orders@[d as int - 1] == old(self).orders@[d as int - 1]);
            }
        }
        Ok(id)
    }

    /// Looks an order up by id; fails with `OrderNotFound` exactly when no
    /// order with that id exists.
    pub fn get_order(&self, order_id: u128) -> (r: Result<Order, FastBukaError>)
        ensures
            match r {
                Ok(o) => self.has_order(order_id) && o == self.spec_order(order_id),
                Err(e) => e == FastBukaError::OrderNotFound && !self.has_order(order_id),
            },
    {
        if 1 <= order_id && order_id <= self.orders.len() as u128 {
            Ok(self.orders[(order_id - 1) as usize])
        } else {
            Err(FastBukaError::OrderNotFound)
        }
    }

    /// Returns every existing order, in ascending id order; fails with
    /// `OrderNotFound` exactly when no order exists yet.
    pub fn get_all_orders(&self) -> (r: Result<Vec<Order>, FastBukaError>)
        ensures
            match r {
                Ok(v) => v@ == self.orders@ && v@.len() > 0,
                Err(e) => e == FastBukaError::OrderNotFound && self.orders@.len() == 0,
            },
    {
        let mut out: Vec<Order> = Vec::new();
        let mut i: usize = 0;
        while i < self.orders.len()
            invariant
                0 <= i <= self.orders@.len(),
                out@ == self.orders@.subrange(0, i as int),
            decreases self.orders@.len() - i,
        {
            out.push(self.orders[i]);
            i = i + 1;
        }
        proof {
            assert(out@ =~= self.orders@);
        }
        if out.is_empty() {
            return Err(FastBukaError::OrderNotFound);
        }
        Ok(out)
    }

    /// Settles a delivered order on the customer's confirmation: pays the
    /// vendor the total minus the rider's share, pays the rider that share,
    /// and marks the order `Completed`. Only the order's customer may trigger
    /// it, only from `Delivered`, and either both transfers happen or, on any
    /// failure, no balance and no order changes.
    pub fn complete_order(
        &mut self,
        ledger: &mut TokenLedger,
        order_id: u128,
        caller: u64,
    ) -> (r: Result<(), FastBukaError>)
        requires
            old(self).wf(),
            old(ledger).wf(),
        ensures
            final(self).wf(),
            final(ledger).wf(),
            final(ledger).token == old(ledger).token,
            final(self).address == old(self).address,
            final(self).admins@ == old(self).admins@,
            final(self).disputed@ == old(self).disputed@,
            r is Ok <==> old(self).has_order(order_id) && caller == old(self).spec_order(
                order_id,
            ).user && old(self).spec_order(order_id).status == OrderStatus::Delivered
                && settlement_ok(*old(ledger), old(self).address, old(self).spec_order(order_id)),
            match r {
                Ok(_) => {
                    &&& final(self).orders@ == old(self).orders@.update(
                        order_id as int - 1,
                        Order {
                            status: OrderStatus::Completed,
                            ..old(self).spec_order(order_id)
                        },
                    )
                    &&& can_transition(
                        old(self).spec_order(order_id).status,
                        OrderStatus::Completed,
                    )
                    &&& forall|a: u64|
                        #[trigger] final(ledger).bal(a) == old(ledger).bal(a) + settlement_delta(
                            old(self).spec_order(order_id),
                            old(self).address,
                            a,
                        )
                },
                Err(e) => {
                    &&& *final(self) == *old(self)
                    &&& forall|a: u64| #[trigger] final(ledger).bal(a) == old(ledger).bal(a)
                    &&& (e == FastBukaError::OrderNotFound <==> !old(self).has_order(order_id))
                    &&& (e == FastBukaError::UnauthorizedAccess <==> old(self).has_order(order_id)
                        && caller != old(self).spec_order(order_id).user)
                    &&& (e == FastBukaError::OrderNotDelivered <==> old(self).has_order(order_id)
                        && caller == old(self).spec_order(order_id).user && old(self).spec_order(
                        order_id,
                    ).status != OrderStatus::Delivered)
                    &&& {
                        let prechecks = old(self).has_order(order_id) && caller == old(
                            self,
                        ).spec_order(order_id).user && old(self).spec_order(order_id).status
                            == OrderStatus::Delivered;
                        let o = old(self).spec_order(order_id);
                        &&& (e == FastBukaError::VendorPaymentFailed <==> prechecks && !transfer_ok(
                            *old(ledger),
                            old(self).address,
                            o.vendor,
                            o.amount - o.rider_fee,
                        ))
                        &&& (e == FastBukaError::RiderPaymentFailed <==> prechecks && transfer_ok(
                            *old(ledger),
                            old(self).address,
                            o.vendor,
                            o.amount - o.rider_fee,
                        ) && !settlement_leg2_ok(*old(ledger), old(self).address, o))
                    }
                },
            },
    {
        let mut order = match self.get_order(order_id) {
            Ok(o) => o,
            Err(e) => { return Err(e); },
        };
        proof {
            assert(order_wf(order));
        }
        let (vendor_amount, rider_amount, rider) = match settle_order(&mut order, caller) {
            Ok(parts) => parts,
            Err(e) => { return Err(e); },
        };
        if !ledger.transfer(self.address, order.vendor, vendor_amount) {
            return Err(FastBukaError::VendorPaymentFailed);
        }
        if !ledger.transfer(self.address, rider, rider_amount) {
            let undone = ledger.transfer(order.vendor, self.address, vendor_amount);
            proof {
                assert(undone);
            }
            return Err(FastBukaError::RiderPaymentFailed);
        }
        let n = self.orders.len();
        proof {
            assert(order_id - 1 < n);
        }
        let idx = (order_id - 1) as usize;
        self.orders[idx] = order;
        proof {
            self.lemma_update_keeps_wf(*old(self), idx);
        }
        Ok(())
    }
}

} // verus!
