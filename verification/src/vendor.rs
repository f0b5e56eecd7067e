use vstd::prelude::*;

use crate::datatypes::{
    can_transition, confirmation_in_range, order_wf, FastBukaError, Order, OrderStatus,
};
use crate::FastBukaContract;

verus! {

/// The orders that belong to one vendor, in stored order.
pub open spec fn orders_of_vendor(s: Seq<Order>, vendor: u64) -> Seq<Order> {
    s.filter(|o: Order| o.vendor == vendor)
}

/// The one step a vendor may take on an order it owns: from `Waiting` to
/// `ReadyForPickup`, generating and storing the pickup confirmation code for
/// the given ledger sequence number. Fails without mutating the order when
/// the caller is not the order's vendor or the order is not `Waiting`.
pub fn vendor_marks_ready(order: &mut Order, vendor: u64, sequence: u32) -> (r: Result<
    u32,
    FastBukaError,
>)
    requires
        order_wf(*old(order)),
    ensures
        order_wf(*final(order)),
        r is Ok <==> vendor == old(order).vendor && old(order).status == OrderStatus::Waiting,
        match r {
            Ok(c) => {
                &&& old(order).status == OrderStatus::Waiting
                &&& vendor == old(order).vendor
                &&& c == 1000 + sequence % 9000
                &&& *final(order) == Order {
                    status: OrderStatus::ReadyForPickup,
                    confirmation_number: Some(c),
                    ..*old(order)
                }
                &&& can_transition(old(order).status, final(order).status)
            },
            Err(e) => {
                &&& *final(order) == *old(order)
                &&& (e == FastBukaError::UnauthorizedAccess <==> vendor != old(order).vendor)
                &&& (e == FastBukaError::InvalidStatus <==> vendor == old(order).vendor && old(
                    order,
                ).status != OrderStatus::Waiting)
            },
        },
{
    if vendor != order.vendor {
        return Err(FastBukaError::UnauthorizedAccess);
    }
    if order.status != OrderStatus::Waiting {
        return Err(FastBukaError::InvalidStatus);
    }
    let confirmation_number = FastBukaContract::generate_confirmation_number(sequence);
    order.confirmation_number = Some(confirmation_number);
    order.status = OrderStatus::ReadyForPickup;
    Ok(confirmation_number)
}

impl FastBukaContract {
    /// Derives a pickup confirmation code from a ledger sequence number:
    /// reduced modulo 9000 and offset by 1000, so it always lands in
    /// `[1000, 9999]`. The code coordinates a physical hand-over; it is
    /// derivable from public ledger state and is no secret.
    pub fn generate_confirmation_number(sequence: u32) -> (r: u32)
        ensures
            r == 1000 + sequence % 9000,
            confirmation_in_range(r),
    {
        1000 + sequence % 9000
    }

    /// Marks an order ready for pickup on behalf of its vendor, storing and
    /// returning the generated confirmation code. Fails without any state
    /// change when the order does not exist, the caller is not the order's
    /// vendor, or the order is not `Waiting`.
    pub fn update_order_status(&mut self, order_id: u128, vendor: u64, sequence: u32) -> (r: Result<
        u32,
        FastBukaError,
    >)
        requires
            old(self).wf(),
        ensures
            final(self).wf(),
            final(self).address == old(self).address,
            final(self).admins@ == old(self).admins@,
            final(self).disputed@ == old(self).disputed@,
            r is Ok <==> old(self).has_order(order_id) && vendor == old(self).spec_order(
                order_id,
            ).vendor && old(self).spec_order(order_id).status == OrderStatus::Waiting,
            match r {
                Ok(c) => {
                    &&& old(self).has_order(order_id)
                    &&& old(self).spec_order(order_id).status == OrderStatus::Waiting
                    &&& vendor == old(self).spec_order(order_id).vendor
                    &&& c == 1000 + sequence % 9000
                    &&& final(self).orders@ == old(self).orders@.update(
                        order_id as int - 1,
                        Order {
                            status: OrderStatus::ReadyForPickup,
                            confirmation_number: Some(c),
                            ..old(self).spec_order(order_id)
                        },
                    )
                    &&& can_transition(
                        old(self).spec_order(order_id).status,
                        OrderStatus::ReadyForPickup,
                    )
                },
                Err(e) => {
                    &&& *final(self) == *old(self)
                    &&& (e == FastBukaError::OrderNotFound <==> !old(self).has_order(order_id))
                    &&& (e == FastBukaError::UnauthorizedAccess <==> old(self).has_order(order_id)
                        && vendor != old(self).spec_order(order_id).vendor)
                    &&& (e == FastBukaError::InvalidStatus <==> old(self).has_order(order_id)
                        && vendor == old(self).spec_order(order_id).vendor && old(self).spec_order(
                        order_id,
                    ).status != OrderStatus::Waiting)
                },
            },
    {
        let mut order = match self.get_order(order_id) {
            Ok(o) => o,
            Err(e) => { return Err(e); },
        };
        let confirmation_number = match vendor_marks_ready(&mut order, vendor, sequence) {
            Ok(c) => c,
            Err(e) => { return Err(e); },
        };
        let n = self.orders.len();
        proof {
            assert(order_id - 1 < n);
        }
        let idx = (order_id - 1) as usize;
        self.orders[idx] = order;
        proof {
            self.lemma_update_keeps_wf(*old(self), idx);
        }
        Ok(confirmation_number)
    }

    /// Returns every order belonging to the given vendor, in ascending id
    /// order; fails with `OrderNotFound` exactly when the vendor has none.
    pub fn get_vendor_pending_orders(&self, vendor: u64) -> (r: Result<Vec<Order>, FastBukaError>)
        ensures
            match r {
                Ok(v) => {
                    &&& v@ == orders_of_vendor(self.orders@, vendor)
                    &&& v@.len() > 0
                },
                Err(e) => {
                    &&& e == FastBukaError::OrderNotFound
                    &&& orders_of_vendor(self.orders@, vendor).len() == 0
                },
            },
    {
        let mut out: Vec<Order> = Vec::new();
        let mut i: usize = 0;
        proof {
            reveal(Seq::filter);
        }
        while i < self.orders.len()
            invariant
                0 <= i <= self.orders@.len(),
                out@ == orders_of_vendor(self.orders@.subrange(0, i as int), vendor),
            decreases self.orders@.len() - i,
        {
            let order = self.orders[i];
            proof {
                reveal(Seq::filter);
                assert(self.orders@.subrange(0, i + 1).drop_last() =~= self.orders@.subrange(
                    0,
                    i as int,
                ));
                assert(self.orders@.subrange(0, i + 1).last() == order);
            }
            if order.vendor == vendor {
                out.push(order);
            }
            i = i + 1;
        }
        proof {
            assert(self.orders@.subrange(0, self.orders@.len() as int) =~= self.orders@);
        }
        if out.is_empty() {
            return Err(FastBukaError::OrderNotFound);
        }
        Ok(out)
    }
}

} // verus!
