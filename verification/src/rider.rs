use vstd::prelude::*;

use crate::datatypes::{can_transition, order_wf, FastBukaError, Order, OrderStatus};
use crate::FastBukaContract;

verus! {

/// The pickup step: any authorized rider may take an order that is
/// `ReadyForPickup`, becoming its assigned rider for the rest of its life.
/// Fails without mutating the order when it is in any other status.
pub fn assign_rider(order: &mut Order, rider: u64) -> (r: Result<(), FastBukaError>)
    requires
        order_wf(*old(order)),
    ensures
        order_wf(*final(order)),
        r is Ok <==> old(order).status == OrderStatus::ReadyForPickup,
        match r {
            Ok(_) => {
                &&& *final(order) == Order {
                    status: OrderStatus::PickedUp,
                    rider: Some(rider),
                    ..*old(order)
                }
                &&& can_transition(old(order).status, final(order).status)
            },
            Err(e) => {
                &&& *final(order) == *old(order)
                &&& e == FastBukaError::OrderNotReady
            },
        },
{
    if order.status != OrderStatus::ReadyForPickup {
        return Err(FastBukaError::OrderNotReady);
    }
    order.rider = Some(rider);
    order.status = OrderStatus::PickedUp;
    Ok(())
}

/// The delivery step: the assigned rider, and nobody else, moves an order
/// from `PickedUp` to `Delivered`. Fails without mutating the order when the
/// order is in any other status or the caller is not the assigned rider.
pub fn mark_delivered(order: &mut Order, caller: u64) -> (r: Result<(), FastBukaError>)
    requires
        order_wf(*old(order)),
    ensures
        order_wf(*final(order)),
        r is Ok <==> old(order).status == OrderStatus::PickedUp && old(order).rider == Some(caller),
        match r {
            Ok(_) => {
                &&& *final(order) == Order { status: OrderStatus::Delivered, ..*old(order) }
                &&& can_transition(old(order).status, final(order).status)
            },
            Err(e) => {
                &&& *final(order) == *old(order)
                &&& (e == FastBukaError::InvalidStatus <==> old(order).status
                    != OrderStatus::PickedUp)
                &&& (e == FastBukaError::UnauthorizedAccess <==> old(order).status
                    == OrderStatus::PickedUp && old(order).rider != Some(caller))
            },
        },
{
    if order.status != OrderStatus::PickedUp {
        return Err(FastBukaError::InvalidStatus);
    }
    let assigned = match order.rider {
        Some(rd) => rd,
        None => { return Err(FastBukaError::InvalidStatus); },
    };
    if caller != assigned {
        return Err(FastBukaError::UnauthorizedAccess);
    }
    order.status = OrderStatus::Delivered;
    Ok(())
}

/// The rider's dispute step: validates that the caller is the order's
/// assigned rider and that the order is `Delivered`, then marks it
/// `Disputed`. The caller must add the order's id to the disputed-order
/// index alongside.
pub fn rider_marks_disputed(order: &mut Order, caller: u64) -> (r: Result<(), FastBukaError>)
    requires
        order_wf(*old(order)),
    ensures
        order_wf(*final(order)),
        r is Ok <==> old(order).rider == Some(caller) && old(order).status
            == OrderStatus::Delivered,
        match r {
            Ok(_) => {
                &&& *final(order) == Order { status: OrderStatus::Disputed, ..*old(order) }
                &&& can_transition(old(order).status, final(order).status)
            },
            Err(e) => {
                &&& *final(order) == *old(order)
                &&& (e == FastBukaError::UnauthorizedAccess <==> old(order).rider != Some(caller))
                &&& (e == FastBukaError::OrderNotDelivered <==> old(order).rider == Some(caller)
                    && old(order).status != OrderStatus::Delivered)
            },
        },
{
    let matches_rider = match order.rider {
        Some(rd) => rd == caller,
        None => false,
    };
    if !matches_rider {
        return Err(FastBukaError::UnauthorizedAccess);
    }
    if order.status != OrderStatus::Delivered {
        return Err(FastBukaError::OrderNotDelivered);
    }
    order.status = OrderStatus::Disputed;
    Ok(())
}

impl FastBukaContract {
    /// A rider takes a ready order: assigns the caller as the order's rider
    /// and moves it to `PickedUp`. Fails without any state change when the
    /// order does not exist or is not `ReadyForPickup`.
    pub fn pickup_order(&mut self, order_id: u128, rider: u64) -> (r: Result<(), FastBukaError>)
        requires
            old(self).wf(),
        ensures
            final(self).wf(),
            final(self).address == old(self).address,
            final(self).admins@ == old(self).admins@,
            final(self).disputed@ == old(self).disputed@,
            r is Ok <==> old(self).has_order(order_id) && old(self).spec_order(order_id).status
                == OrderStatus::ReadyForPickup,
            match r {
                Ok(_) => final(self).orders@ == old(self).orders@.update(
                    order_id as int - 1,
                    Order {
                        status: OrderStatus::PickedUp,
                        rider: Some(rider),
                        ..old(self).spec_order(order_id)
                    },
                ),
                Err(e) => {
                    &&& *final(self) == *old(self)
                    &&& (e == FastBukaError::OrderNotFound <==> !old(self).has_order(order_id))
                    &&& (e == FastBukaError::OrderNotReady <==> old(self).has_order(order_id)
                        && old(self).spec_order(order_id).status != OrderStatus::ReadyForPickup)
                },
            },
    {
        let mut order = match self.get_order(order_id) {
            Ok(o) => o,
            Err(e) => { return Err(e); },
        };
        match assign_rider(&mut order, rider) {
            Ok(_) => {},
            Err(e) => { return Err(e); },
        };
        let n = self.orders.len();
        proof {
            assert(order_id - 1 < n);
        }
        let idx = (order_id - 1) as usize;
        self.orders[idx] = order;
        proof {
            self.lemma_update_keeps_wf(*old(self), idx);
        }
        Ok(())
    }

    /// Hands the assigned rider the pickup confirmation code of an order it
    /// has picked up. Fails exactly when the order does not exist or is not
    /// `PickedUp`.
    pub fn get_confirmation_number_rider(&self, order_id: u128) -> (r: Result<u32, FastBukaError>)
        requires
            self.wf(),
        ensures
            match r {
                Ok(c) => {
                    &&& self.has_order(order_id)
                    &&& self.spec_order(order_id).status == OrderStatus::PickedUp
                    &&& Some(c) == self.spec_order(order_id).confirmation_number
                },
                Err(e) => {
                    &&& (e == FastBukaError::OrderNotFound <==> !self.has_order(order_id))
                    &&& (e == FastBukaError::OrderNotPickedUp <==> self.has_order(order_id)
                        && self.spec_order(order_id).status != OrderStatus::PickedUp)
                    &&& (e == FastBukaError::OrderNotFound || e == FastBukaError::OrderNotPickedUp)
                },
            },
    {
        let order = match self.get_order(order_id) {
            Ok(o) => o,
            Err(e) => { return Err(e); },
        };
        if order.status != OrderStatus::PickedUp {
            return Err(FastBukaError::OrderNotPickedUp);
        }
        proof {
            assert(order_wf(order));
        }
        match order.confirmation_number {
            Some(c) => Ok(c),
            None => Err(FastBukaError::InvalidConfirmationNumber),
        }
    }

    /// The assigned rider confirms delivery, moving the order from
    /// `PickedUp` to `Delivered`. Fails without any state change when the
    /// order does not exist, is in another status, or the caller is not the
    /// order's assigned rider.
    pub fn rider_confirms_delivery(&mut self, order_id: u128, caller: u64) -> (r: Result<
        (),
        FastBukaError,
    >)
        requires
            old(self).wf(),
        ensures
            final(self).wf(),
            final(self).address == old(self).address,
            final(self).admins@ == old(self).admins@,
            final(self).disputed@ == old(self).disputed@,
            r is Ok <==> old(self).has_order(order_id) && old(self).spec_order(order_id).status
                == OrderStatus::PickedUp && old(self).spec_order(order_id).rider == Some(caller),
            match r {
                Ok(_) => final(self).orders@ == old(self).orders@.update(
                    order_id as int - 1,
                    Order { status: OrderStatus::Delivered, ..old(self).spec_order(order_id) },
                ),
                Err(e) => {
                    &&& *final(self) == *old(self)
                    &&& (e == FastBukaError::OrderNotFound <==> !old(self).has_order(order_id))
                    &&& (e == FastBukaError::InvalidStatus <==> old(self).has_order(order_id)
                        && old(self).spec_order(order_id).status != OrderStatus::PickedUp)
                    &&& (e == FastBukaError::UnauthorizedAccess <==> old(self).has_order(order_id)
                        && old(self).spec_order(order_id).status == OrderStatus::PickedUp && old(
                        self,
                    ).spec_order(order_id).rider != Some(caller))
                },
            },
    {
        let mut order = match self.get_order(order_id) {
            Ok(o) => o,
            Err(e) => { return Err(e); },
        };
        match mark_delivered(&mut order, caller) {
            Ok(_) => {},
            Err(e) => { return Err(e); },
        };
        let n = self.orders.len();
        proof {
            assert(order_id - 1 < n);
        }
        let idx = (order_id - 1) as usize;
        self.orders[idx] = order;
        proof {
            self.lemma_update_keeps_wf(*old(self), idx);
        }
        Ok(())
    }

    /// The assigned rider raises a dispute over a delivered order: the order
    /// moves to `Disputed` and its id is added to the disputed-order index.
    /// Fails without any state change when the order does not exist, the
    /// caller is not the order's assigned rider, or the order is not
    /// `Delivered`.
    pub fn rider_raise_dispute(&mut self, order_id: u128, address: u64, reason: String) -> (r:
        Result<(), FastBukaError>)
        requires
            old(self).wf(),
        ensures
            final(self).wf(),
            final(self).address == old(self).address,
            final(self).admins@ == old(self).admins@,
            r is Ok <==> old(self).has_order(order_id) && old(self).spec_order(order_id).rider
                == Some(address) && old(self).spec_order(order_id).status == OrderStatus::Delivered,
            match r {
                Ok(_) => {
                    &&& final(self).orders@ == old(self).orders@.update(
                        order_id as int - 1,
                        Order { status: OrderStatus::Disputed, ..old(self).spec_order(order_id) },
                    )
                    &&& final(self).disputed@ == old(self).disputed@.push(order_id)
                    &&& can_transition(
                        old(self).spec_order(order_id).status,
                        OrderStatus::Disputed,
                    )
                },
                Err(e) => {
                    &&& *final(self) == *old(self)
                    &&& (e == FastBukaError::OrderNotFound <==> !old(self).has_order(order_id))
                    &&& (e == FastBukaError::UnauthorizedAccess <==> old(self).has_order(order_id)
                        && old(self).spec_order(order_id).rider != Some(address))
                    &&& (e == FastBukaError::OrderNotDelivered <==> old(self).has_order(order_id)
                        && old(self).spec_order(order_id).rider == Some(address) && old(
                        self,
                    ).spec_order(order_id).status != OrderStatus::Delivered)
                },
            },
    {
        let mut order = match self.get_order(order_id) {
            Ok(o) => o,
            Err(e) => { return Err(e); },
        };
        proof {
            assert(order_wf(order));
        }
        match rider_marks_disputed(&mut order, address) {
            Ok(_) => {},
            Err(e) => { return Err(e); },
        };
        let n = self.orders.len();
        proof {
            assert(order_id - 1 < n);
        }
        let idx = (order_id - 1) as usize;
        self.orders[idx] = order;
        self.disputed.push(order_id);
        proof {
            self.lemma_dispute_keeps_wf(*old(self), idx);
        }
        Ok(())
    }
}

} // verus!
