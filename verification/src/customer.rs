use vstd::prelude::*;

use crate::datatypes::{can_transition, order_wf, FastBukaError, Order, OrderStatus};
use crate::ledger::TokenLedger;
use crate::order::{settlement_delta, settlement_ok};
use crate::FastBukaContract;

verus! {

/// The customer's dispute step: validates that the caller is the order's
/// customer and that the order is `Delivered`, then marks it `Disputed`.
/// The caller must add the order's id to the disputed-order index alongside.
pub fn customer_marks_disputed(order: &mut Order, caller: u64) -> (r: Result<(), FastBukaError>)
    requires
        order_wf(*old(order)),
    ensures
        order_wf(*final(order)),
        r is Ok <==> caller == old(order).user && old(order).status == OrderStatus::Delivered,
        match r {
            Ok(_) => {
                &&& *final(order) == Order { status: OrderStatus::Disputed, ..*old(order) }
                &&& can_transition(old(order).status, final(order).status)
            },
            Err(e) => {
                &&& *final(order) == *old(order)
                &&& (e == FastBukaError::UnauthorizedAccess <==> caller != old(order).user)
                &&& (e == FastBukaError::OrderNotDelivered <==> caller == old(order).user && old(
                    order,
                ).status != OrderStatus::Delivered)
            },
        },
{
    if caller != order.user {
        return Err(FastBukaError::UnauthorizedAccess);
    }
    if order.status != OrderStatus::Delivered {
        return Err(FastBukaError::OrderNotDelivered);
    }
    order.status = OrderStatus::Disputed;
    Ok(())
}

impl FastBukaContract {
    /// Hands the customer the pickup confirmation code of an order of theirs
    /// that is ready for pickup. Fails exactly when the order does not
    /// exist, the caller is not the order's customer, or the order is not
    /// `ReadyForPickup`.
    pub fn get_confirmation_number_customer(&self, customer: u64, order_id: u128) -> (r: Result<
        u32,
        FastBukaError,
    >)
        requires
            self.wf(),
        ensures
            match r {
                Ok(c) => {
                    &&& self.has_order(order_id)
                    &&& customer == self.spec_order(order_id).user
                    &&& self.spec_order(order_id).status == OrderStatus::ReadyForPickup
                    &&& Some(c) == self.spec_order(order_id).confirmation_number
                },
                Err(e) => {
                    &&& (e == FastBukaError::OrderNotFound <==> !self.has_order(order_id))
                    &&& (e == FastBukaError::UnauthorizedAccess <==> self.has_order(order_id)
                        && customer != self.spec_order(order_id).user)
                    &&& (e == FastBukaError::OrderNotReady <==> self.has_order(order_id)
                        && customer == self.spec_order(order_id).user && self.spec_order(
                        order_id,
                    ).status != OrderStatus::ReadyForPickup)
                    &&& (e == FastBukaError::OrderNotFound || e == FastBukaError::UnauthorizedAccess
                        || e == FastBukaError::OrderNotReady)
                },
            },
    {
        let order = match self.get_order(order_id) {
            Ok(o) => o,
            Err(e) => { return Err(e); },
        };
        if customer != order.user {
            return Err(FastBukaError::UnauthorizedAccess);
        }
        if order.status != OrderStatus::ReadyForPickup {
            return Err(FastBukaError::OrderNotReady);
        }
        proof {
            assert(order_wf(order));
        }
        match order.confirmation_number {
            Some(c) => Ok(c),
            None => Err(FastBukaError::InvalidConfirmationNumber),
        }
    }

    /// Tells the customer the current status of an order of theirs. Fails
    /// exactly when the order does not exist or the caller is not the
    /// order's customer.
    pub fn check_order_status(&self, customer: u64, order_id: u128) -> (r: Result<
        OrderStatus,
        FastBukaError,
    >)
        ensures
            match r {
                Ok(s) => {
                    &&& self.has_order(order_id)
                    &&& customer == self.spec_order(order_id).user
                    &&& s == self.spec_order(order_id).status
                },
                Err(e) => {
                    &&& (e == FastBukaError::OrderNotFound <==> !self.has_order(order_id))
                    &&& (e == FastBukaError::UnauthorizedAccess <==> self.has_order(order_id)
                        && customer != self.spec_order(order_id).user)
                    &&& (e == FastBukaError::OrderNotFound || e == FastBukaError::UnauthorizedAccess)
                },
            },
    {
        let order = match self.get_order(order_id) {
            Ok(o) => o,
            Err(e) => { return Err(e); },
        };
        if customer != order.user {
            return Err(FastBukaError::UnauthorizedAccess);
        }
        Ok(order.status)
    }

    /// The customer raises a dispute over a delivered order of theirs: the
    /// order moves to `Disputed` and its id is added to the disputed-order
    /// index. Fails without any state change when the order does not exist,
    /// the caller is not the order's customer, or the order is not
    /// `Delivered`.
    pub fn customer_raise_dispute(&mut self, order_id: u128, address: u64, reason: String) -> (r:
        Result<(), FastBukaError>)
        requires
            old(self).wf(),
        ensures
            final(self).wf(),
            final(self).address == old(self).address,
            final(self).admins@ == old(self).admins@,
            r is Ok <==> old(self).has_order(order_id) && address == old(self).spec_order(
                order_id,
            ).user && old(self).spec_order(order_id).status == OrderStatus::Delivered,
            match r {
                Ok(_) => {
                    &&& final(self).orders@ == old(self).orders@.update(
                        order_id as int - 1,
                        Order { status: OrderStatus::Disputed, ..old(self).spec_order(order_id) },
                    )
                    &&& final(self).disputed@ == old(self).disputed@.push(order_id)
                    &&& can_transition(
                        old(self).spec_order(order_id).status,
                        OrderStatus::Disputed,
                    )
                },
                Err(e) => {
                    &&& *final(self) == *old(self)
                    &&& (e == FastBukaError::OrderNotFound <==> !old(self).has_order(order_id))
                    &&& (e == FastBukaError::UnauthorizedAccess <==> old(self).has_order(order_id)
                        && address != old(self).spec_order(order_id).user)
                    &&& (e == FastBukaError::OrderNotDelivered <==> old(self).has_order(order_id)
                        && address == old(self).spec_order(order_id).user && old(self).spec_order(
                        order_id,
                    ).status != OrderStatus::Delivered)
                },
            },
    {
        let mut order = match self.get_order(order_id) {
            Ok(o) => o,
            Err(e) => { return Err(e); },
        };
        proof {
            assert(order_wf(order));
        }
        match customer_marks_disputed(&mut order, address) {
            Ok(_) => {},
            Err(e) => { return Err(e); },
        };
        let n = self.orders.len();
        proof {
            assert(order_id - 1 < n);
        }
        let idx = (order_id - 1) as usize;
        self.orders[idx] = order;
        self.disputed.push(order_id);
        proof {
            self.lemma_dispute_keeps_wf(*old(self), idx);
        }
        Ok(())
    }

    /// The customer confirms a delivered order, which settles it: the
    /// interface name for the completion trigger of `complete_order`.
    pub fn user_confirms_order(
        &mut self,
        ledger: &mut TokenLedger,
        order_id: u128,
        customer: u64,
    ) -> (r: Result<(), FastBukaError>)
        requires
            old(self).wf(),
            old(ledger).wf(),
        ensures
            final(self).wf(),
            final(ledger).wf(),
            final(ledger).token == old(ledger).token,
            final(self).address == old(self).address,
            final(self).admins@ == old(self).admins@,
            final(self).disputed@ == old(self).disputed@,
            r is Ok <==> old(self).has_order(order_id) && customer == old(self).spec_order(
                order_id,
            ).user && old(self).spec_order(order_id).status == OrderStatus::Delivered
                && settlement_ok(*old(ledger), old(self).address, old(self).spec_order(order_id)),
            match r {
                Ok(_) => {
                    &&& final(self).orders@ == old(self).orders@.update(
                        order_id as int - 1,
                        Order {
                            status: OrderStatus::Completed,
                            ..old(self).spec_order(order_id)
                        },
                    )
                    &&& forall|a: u64|
                        #[trigger] final(ledger).bal(a) == old(ledger).bal(a) + settlement_delta(
                            old(self).spec_order(order_id),
                            old(self).address,
                            a,
                        )
                },
                Err(e) => {
                    &&& *final(self) == *old(self)
                    &&& forall|a: u64| #[trigger] final(ledger).bal(a) == old(ledger).bal(a)
                    &&& (e == FastBukaError::OrderNotFound <==> !old(self).has_order(order_id))
                    &&& (e == FastBukaError::UnauthorizedAccess <==> old(self).has_order(order_id)
                        && customer != old(self).spec_order(order_id).user)
                    &&& (e == FastBukaError::OrderNotDelivered <==> old(self).has_order(order_id)
                        && customer == old(self).spec_order(order_id).user && old(self).spec_order(
                        order_id,
                    ).status != OrderStatus::Delivered)
                },
            },
    {
        self.complete_order(ledger, order_id, customer)
    }
}

} // verus!
