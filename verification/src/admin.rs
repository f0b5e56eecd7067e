use vstd::prelude::*;

use crate::datatypes::{
    order_wf, resolution_payouts, spec_resolution_payouts, DisputeResolution, FastBukaError, Order,
    OrderStatus,
};
use crate::ledger::TokenLedger;
use crate::order::{bal_after, deposit_delta, settlement_delta, transfer_ok};
use crate::FastBukaContract;

verus! {

/// First settlement leg of a dispute resolution: who is paid first, and how
/// much. The customer's refund leg comes first except under `CustomerFault`,
/// where the vendor is paid first.
pub open spec fn resolution_leg1(o: Order, resolution: DisputeResolution) -> (u64, int) {
    match resolution {
        DisputeResolution::VendorFault => (o.user, o.amount - o.rider_fee),
        DisputeResolution::RiderFault => (o.user, o.rider_fee as int),
        DisputeResolution::CustomerFault => (o.vendor, o.amount - o.rider_fee),
    }
}

/// Second settlement leg of a dispute resolution: who is paid after the
/// first leg, and how much.
pub open spec fn resolution_leg2(o: Order, resolution: DisputeResolution) -> (u64, int) {
    match resolution {
        DisputeResolution::VendorFault => (o.rider.unwrap(), o.rider_fee as int),
        DisputeResolution::RiderFault => (o.vendor, o.amount - o.rider_fee),
        DisputeResolution::CustomerFault => (o.rider.unwrap(), o.rider_fee as int),
    }
}

/// Whether the second leg succeeds on the ledger the first leg leaves
/// behind.
pub open spec fn resolution_leg2_ok(
    l: TokenLedger,
    contract: u64,
    o: Order,
    resolution: DisputeResolution,
) -> bool {
    let (to1, amt1) = resolution_leg1(o, resolution);
    let (to2, amt2) = resolution_leg2(o, resolution);
    0 <= amt2 <= bal_after(l, contract, to1, amt1, contract) && (contract == to2 || bal_after(
        l,
        contract,
        to1,
        amt1,
        to2,
    ) + amt2 <= i128::MAX)
}

/// Whether both settlement legs of a dispute resolution succeed on `l`.
pub open spec fn resolution_ok(
    l: TokenLedger,
    contract: u64,
    o: Order,
    resolution: DisputeResolution,
) -> bool {
    let (to1, amt1) = resolution_leg1(o, resolution);
    transfer_ok(l, contract, to1, amt1) && resolution_leg2_ok(l, contract, o, resolution)
}

/// The error a failing first leg surfaces as.
pub open spec fn resolution_leg1_error(resolution: DisputeResolution) -> FastBukaError {
    match resolution {
        DisputeResolution::CustomerFault => FastBukaError::VendorPaymentFailed,
        _ => FastBukaError::CustomerPaymentFailed,
    }
}

/// The error a failing second leg surfaces as.
pub open spec fn resolution_leg2_error(resolution: DisputeResolution) -> FastBukaError {
    match resolution {
        DisputeResolution::RiderFault => FastBukaError::VendorPaymentFailed,
        _ => FastBukaError::RiderPaymentFailed,
    }
}

/// The balance movement a successful dispute resolution causes: each party
/// receives its fault-policy share and the engine's custody account pays out
/// exactly the order's amount.
pub open spec fn resolve_delta(
    o: Order,
    resolution: DisputeResolution,
    contract: u64,
    a: u64,
) -> int {
    let (customer_share, vendor_share, rider_share) = spec_resolution_payouts(
        resolution,
        o.amount,
        o.rider_fee,
    );
    (if a == o.user { customer_share } else { 0 }) + (if a == o.vendor { vendor_share } else { 0 })
        + (if o.rider.is_some() && a == o.rider.unwrap() { rider_share } else { 0 }) - (if a
        == contract { o.amount as int } else { 0 })
}

/// The order-level part of dispute resolution: validates that the order is
/// `Disputed`, computes the two payout legs of the chosen fault policy, and
/// marks the order `Resolved`. The caller performs the transfers; if either
/// fails, the updated order must be discarded rather than persisted.
pub fn settle_resolution(order: &mut Order, resolution: DisputeResolution) -> (r: Result<
    (u64, i128, u64, i128),
    FastBukaError,
>)
    requires
        order_wf(*old(order)),
    ensures
        order_wf(*final(order)),
        r is Ok <==> old(order).status == OrderStatus::Disputed,
        match r {
            Ok(legs) => {
                &&& (legs.0, legs.1 as int) == resolution_leg1(*old(order), resolution)
                &&& (legs.2, legs.3 as int) == resolution_leg2(*old(order), resolution)
                &&& *final(order) == Order { status: OrderStatus::Resolved, ..*old(order) }
                &&& crate::datatypes::can_transition(old(order).status, final(order).status)
            },
            Err(e) => {
                &&& *final(order) == *old(order)
                &&& e == FastBukaError::DisputeNotFound
            },
        },
{
    if order.status != OrderStatus::Disputed {
        return Err(FastBukaError::DisputeNotFound);
    }
    let (customer_amount, vendor_amount, rider_amount) = match resolution_payouts(
        resolution,
        order.amount,
        order.rider_fee,
    ) {
        Ok(parts) => parts,
        Err(_) => { return Err(FastBukaError::DisputeNotFound); },
    };
    let rider = match order.rider {
        Some(rd) => rd,
        None => { return Err(FastBukaError::DisputeNotFound); },
    };
    let legs = match resolution {
        DisputeResolution::VendorFault => (order.user, customer_amount, rider, rider_amount),
        DisputeResolution::RiderFault => (order.user, customer_amount, order.vendor, vendor_amount),
        DisputeResolution::CustomerFault => (order.vendor, vendor_amount, rider, rider_amount),
    };
    order.status = OrderStatus::Resolved;
    Ok(legs)
}

/// Custody invariant: when the custody account is none of an order's
/// parties, a successful deposit raises the custody balance by exactly the
/// order's total and takes exactly that total from the customer, and a
/// successful normal settlement or dispute resolution lowers the custody
/// balance by exactly the same total — never more, never less.
pub proof fn lemma_custody_conservation(o: Order, contract: u64, resolution: DisputeResolution)
    requires
        order_wf(o),
        contract != o.user,
        contract != o.vendor,
        o.rider.is_some() ==> contract != o.rider.unwrap(),
    ensures
        deposit_delta(o.user, contract, o.amount, contract) == o.amount,
        deposit_delta(o.user, contract, o.amount, o.user) == -(o.amount as int),
        settlement_delta(o, contract, contract) == -(o.amount as int),
        resolve_delta(o, resolution, contract, contract) == -(o.amount as int),
{
}

impl FastBukaContract {
    /// Position of a principal in the admin list.
    fn index_of_admin(&self, who: u64) -> (j: usize)
        requires
            self.admins@.contains(who),
        ensures
            j < self.admins@.len(),
            self.admins@[j as int] == who,
    {
        let n = self.admins.len();
        proof {
            let w = choose|k: int| 0 <= k < self.admins@.len() && self.admins@[k] == who;
            assert(n > 0);
        }
        let mut i: usize = 0;
        loop
            invariant
                0 <= i < n,
                n == self.admins@.len(),
                forall|k: int| 0 <= k < i ==> self.admins@[k] != who,
                self.admins@.contains(who),
            decreases n - i,
        {
            if self.admins[i] == who {
                return i;
            }
            proof {
                let w = choose|k: int| 0 <= k < self.admins@.len() && self.admins@[k] == who;
                assert(w > i);
            }
            i = i + 1;
        }
    }

    /// Position of an order id in the disputed-order index.
    fn index_of_disputed(&self, order_id: u128) -> (j: usize)
        requires
            self.disputed@.contains(order_id),
        ensures
            j < self.disputed@.len(),
            self.disputed@[j as int] == order_id,
    {
        let n = self.disputed.len();
        proof {
            let w = choose|k: int| 0 <= k < self.disputed@.len() && self.disputed@[k] == order_id;
            assert(n > 0);
        }
        let mut i: usize = 0;
        loop
            invariant
                0 <= i < n,
                n == self.disputed@.len(),
                forall|k: int| 0 <= k < i ==> self.disputed@[k] != order_id,
                self.disputed@.contains(order_id),
            decreases n - i,
        {
            if self.disputed[i] == order_id {
                return i;
            }
            proof {
                let w = choose|k: int|
                    0 <= k < self.disputed@.len() && self.disputed@[k] == order_id;
                assert(w > i);
            }
            i = i + 1;
        }
    }

    /// Whether a principal is currently an administrator.
    pub fn is_admin(&self, who: u64) -> (r: bool)
        ensures
            r == self.admins@.contains(who),
    {
        let mut i: usize = 0;
        while i < self.admins.len()
            invariant
                0 <= i <= self.admins@.len(),
                forall|k: int| 0 <= k < i ==> self.admins@[k] != who,
            decreases self.admins@.len() - i,
        {
            if self.admins[i] == who {
                proof {
                    assert(self.admins@[i as int] == who);
                }
                return true;
            }
            i = i + 1;
        }
        false
    }

    /// Returns the full admin set, in insertion order.
    pub fn get_admins(&self) -> (r: Vec<u64>)
        ensures
            r@ == self.admins@,
    {
        let mut out: Vec<u64> = Vec::new();
        let mut i: usize = 0;
        while i < self.admins.len()
            invariant
                0 <= i <= self.admins@.len(),
                out@ == self.admins@.subrange(0, i as int),
            decreases self.admins@.len() - i,
        {
            out.push(self.admins[i]);
            i = i + 1;
        }
        proof {
            assert(out@ =~= self.admins@);
        }
        out
    }

    /// An existing admin appends a new admin to the set. Fails without any
    /// state change when the caller is no admin or the new principal already
    /// is one, so the set never holds duplicates.
    pub fn add_admin(&mut self, caller: u64, new_admin: u64) -> (r: Result<(), FastBukaError>)
        requires
            old(self).wf(),
        ensures
            final(self).wf(),
            final(self).address == old(self).address,
            final(self).orders@ == old(self).orders@,
            final(self).disputed@ == old(self).disputed@,
            r is Ok <==> old(self).admins@.contains(caller) && !old(self).admins@.contains(
                new_admin,
            ),
            match r {
                Ok(_) => final(self).admins@ == old(self).admins@.push(new_admin),
                Err(e) => {
                    &&& *final(self) == *old(self)
                    &&& (e == FastBukaError::NotAdmin <==> !old(self).admins@.contains(caller))
                    &&& (e == FastBukaError::AlreadyAdmin <==> old(self).admins@.contains(caller)
                        && old(self).admins@.contains(new_admin))
                },
            },
    {
        if !self.is_admin(caller) {
            return Err(FastBukaError::NotAdmin);
        }
        if self.is_admin(new_admin) {
            return Err(FastBukaError::AlreadyAdmin);
        }
        self.admins.push(new_admin);
        proof {
            assert forall|i: int, j: int|
                0 <= i < j < self.admins@.len() implies self.admins@[i] != self.admins@[j] by {
                if j < old(self).admins@.len() {
                    assert(old(self).admins@[i] != old(self).admins@[j]);
                } else {
                    assert(self.admins@[j] == new_admin);
                    assert(old(self).admins@.contains(old(self).admins@[i]));
                }
            }
        }
        Ok(())
    }

    /// An existing admin removes an admin from the set, by locating and
    /// deleting its position. Fails with `NotAdmin`, without any state
    /// change, when the caller is no admin or the target is none.
    pub fn remove_admin(&mut self, caller: u64, admin_to_remove: u64) -> (r: Result<
        (),
        FastBukaError,
    >)
        requires
            old(self).wf(),
        ensures
            final(self).wf(),
            final(self).address == old(self).address,
            final(self).orders@ == old(self).orders@,
            final(self).disputed@ == old(self).disputed@,
            r is Ok <==> old(self).admins@.contains(caller) && old(self).admins@.contains(
                admin_to_remove,
            ),
            match r {
                Ok(_) => exists|j: int|
                    0 <= j < old(self).admins@.len() && old(self).admins@[j] == admin_to_remove
                        && final(self).admins@ == old(self).admins@.remove(j),
                Err(e) => {
                    &&& *final(self) == *old(self)
                    &&& e == FastBukaError::NotAdmin
                },
            },
    {
        if !self.is_admin(caller) {
            return Err(FastBukaError::NotAdmin);
        }
        if !self.is_admin(admin_to_remove) {
            return Err(FastBukaError::NotAdmin);
        }
        let i = self.index_of_admin(admin_to_remove);
        let ghost j = i as int;
        self.admins.remove(i);
        proof {
            old(self).admins@.remove_ensures(j);
            assert forall|i1: int, i2: int|
                0 <= i1 < i2 < self.admins@.len() implies self.admins@[i1]
                != self.admins@[i2] by {
                let m1 = if i1 < j { i1 } else { i1 + 1 };
                let m2 = if i2 < j { i2 } else { i2 + 1 };
                assert(self.admins@[i1] == old(self).admins@[m1]);
                assert(self.admins@[i2] == old(self).admins@[m2]);
                assert(m1 < m2);
            }
            assert(old(self).admins@[j] == admin_to_remove && self.admins@ == old(
                self,
            ).admins@.remove(j));
        }
        Ok(())
    }

    /// Returns the ids of every order currently under dispute.
    pub fn get_all_disputed_orders(&self) -> (r: Vec<u128>)
        ensures
            r@ == self.disputed@,
    {
        let mut out: Vec<u128> = Vec::new();
        let mut i: usize = 0;
        while i < self.disputed.len()
            invariant
                0 <= i <= self.disputed@.len(),
                out@ == self.disputed@.subrange(0, i as int),
            decreases self.disputed@.len() - i,
        {
            out.push(self.disputed[i]);
            i = i + 1;
        }
        proof {
            assert(out@ =~= self.disputed@);
        }
        out
    }

    /// An admin settles a disputed order under one of the three fault
    /// policies: each party receives its share, the order moves to
    /// `Resolved`, and its id leaves the disputed-order index. Fails without
    /// any state change when the caller is no admin, the order does not
    /// exist, is not `Disputed`, the custody account does not hold the
    /// order's amount, or a payout leg cannot be performed; succeeds in
    /// every other case. Resolution is one-shot: a resolved order is no
    /// longer `Disputed`, so a second attempt fails.
    pub fn resolve_dispute(
        &mut self,
        ledger: &mut TokenLedger,
        order_id: u128,
        resolution: DisputeResolution,
        admin: u64,
    ) -> (r: Result<(), FastBukaError>)
        requires
            old(self).wf(),
            old(ledger).wf(),
        ensures
            final(self).wf(),
            final(ledger).wf(),
            final(ledger).token == old(ledger).token,
            final(self).address == old(self).address,
            final(self).admins@ == old(self).admins@,
            r is Ok <==> old(self).admins@.contains(admin) && old(self).has_order(order_id) && old(
                self,
            ).spec_order(order_id).status == OrderStatus::Disputed && old(ledger).bal(
                old(self).address,
            ) >= old(self).spec_order(order_id).amount && resolution_ok(
                *old(ledger),
                old(self).address,
                old(self).spec_order(order_id),
                resolution,
            ),
            match r {
                Ok(_) => {
                    &&& final(self).orders@ == old(self).orders@.update(
                        order_id as int - 1,
                        Order { status: OrderStatus::Resolved, ..old(self).spec_order(order_id) },
                    )
                    &&& exists|j: int|
                        0 <= j < old(self).disputed@.len() && old(self).disputed@[j] == order_id
                            && final(self).disputed@ == old(self).disputed@.remove(j)
                    &&& forall|a: u64|
                        #[trigger] final(ledger).bal(a) == old(ledger).bal(a) + resolve_delta(
                            old(self).spec_order(order_id),
                            resolution,
                            old(self).address,
                            a,
                        )
                },
                Err(e) => {
                    &&& *final(self) == *old(self)
                    &&& forall|a: u64| #[trigger] final(ledger).bal(a) == old(ledger).bal(a)
                    &&& (e == FastBukaError::NotAdmin <==> !old(self).admins@.contains(admin))
                    &&& (e == FastBukaError::OrderNotFound <==> old(self).admins@.contains(admin)
                        && !old(self).has_order(order_id))
                    &&& (e == FastBukaError::DisputeNotFound <==> old(self).admins@.contains(admin)
                        && old(self).has_order(order_id) && old(self).spec_order(order_id).status
                        != OrderStatus::Disputed)
                    &&& (e == FastBukaError::InsufficientFundsInContract <==> old(
                        self,
                    ).admins@.contains(admin) && old(self).has_order(order_id) && old(
                        self,
                    ).spec_order(order_id).status == OrderStatus::Disputed && old(ledger).bal(
                        old(self).address,
                    ) < old(self).spec_order(order_id).amount)
                    &&& {
                        let prechecks = old(self).admins@.contains(admin) && old(self).has_order(
                            order_id,
                        ) && old(self).spec_order(order_id).status == OrderStatus::Disputed && old(
                            ledger,
                        ).bal(old(self).address) >= old(self).spec_order(order_id).amount;
                        let o = old(self).spec_order(order_id);
                        let (to1, amt1) = resolution_leg1(o, resolution);
                        &&& (e == resolution_leg1_error(resolution) <==> prechecks && !transfer_ok(
                            *old(ledger),
                            old(self).address,
                            to1,
                            amt1,
                        ))
                        &&& (e == resolution_leg2_error(resolution) <==> prechecks && transfer_ok(
                            *old(ledger),
                            old(self).address,
                            to1,
                            amt1,
                        ) && !resolution_leg2_ok(*old(ledger), old(self).address, o, resolution))
                    }
                },
            },
    {
        if !self.is_admin(admin) {
            return Err(FastBukaError::NotAdmin);
        }
        let order = match self.get_order(order_id) {
            Ok(o) => o,
            Err(e) => { return Err(e); },
        };
        proof {
            assert(order_wf(order));
        }
        let mut updated = order;
        let (to1, amt1, to2, amt2) = match settle_resolution(&mut updated, resolution) {
            Ok(legs) => legs,
            Err(e) => { return Err(e); },
        };
        let contract_balance = ledger.balance(self.address);
        if order.amount > contract_balance {
            return Err(FastBukaError::InsufficientFundsInContract);
        }
        if !ledger.transfer(self.address, to1, amt1) {
            return Err(
                match resolution {
                    DisputeResolution::CustomerFault => FastBukaError::VendorPaymentFailed,
                    _ => FastBukaError::CustomerPaymentFailed,
                },
            );
        }
        if !ledger.transfer(self.address, to2, amt2) {
            let undone = ledger.transfer(to1, self.address, amt1);
            proof {
                assert(undone);
            }
            return Err(
                match resolution {
                    DisputeResolution::RiderFault => FastBukaError::VendorPaymentFailed,
                    _ => FastBukaError::RiderPaymentFailed,
                },
            );
        }
        proof {
            assert(old(self).orders@[order_id as int - 1].id == order_id);
            assert(self.disputed@.contains(order_id));
        }
        let j = self.index_of_disputed(order_id);
        let n = self.orders.len();
        proof {
            assert(order_id - 1 < n);
        }
        let idx = (order_id - 1) as usize;
        self.orders[idx] = updated;
        self.disputed.remove(j);
        proof {
            self.lemma_resolve_keeps_wf(*old(self), idx, j as int);
        }
        Ok(())
    }
}

} // verus!
