use vstd::prelude::*;

pub mod admin;
pub mod customer;
pub mod datatypes;
pub mod ledger;
pub mod order;
pub mod rider;
pub mod vendor;

use crate::datatypes::{order_wf, Order, OrderStatus};

verus! {

/// The escrow-backed order-lifecycle engine: the order registry with its
/// monotonic id counter, the admin registry and the disputed-order index.
/// All persistent state is explicit, injected nowhere and hidden nowhere, so
/// every operation is a function of this value, the token ledger handed to it
/// and its plain arguments.
pub struct FastBukaContract {
    /// The engine's own custody account on the token ledger.
    pub address: u64,
    /// Order with id `i + 1` at position `i`; orders are never deleted.
    pub orders: Vec<Order>,
    /// Authorized administrators, in insertion order, without duplicates.
    pub admins: Vec<u64>,
    /// Ids of the orders currently in `Disputed` status.
    pub disputed: Vec<u128>,
}

impl FastBukaContract {
    /// Number of orders created so far; ids run `1..=count`.
    pub open spec fn spec_order_count(self) -> nat {
        self.orders@.len()
    }

    /// The order with the given id, as stored.
    pub open spec fn spec_order(self, order_id: u128) -> Order {
        self.orders@[order_id as int - 1]
    }

    /// Whether an order with this id exists.
    pub open spec fn has_order(self, order_id: u128) -> bool {
        1 <= order_id <= self.orders@.len()
    }

    /// The admin set holds no duplicates.
    pub open spec fn admins_distinct(self) -> bool {
        forall|i: int, j: int|
            0 <= i < j < self.admins@.len() ==> self.admins@[i] != self.admins@[j]
    }

    /// The disputed-order index lists, without duplicates, exactly the ids of
    /// existing orders whose status is `Disputed`.
    pub open spec fn disputed_index_exact(self) -> bool {
        &&& forall|i: int, j: int|
            0 <= i < j < self.disputed@.len() ==> self.disputed@[i] != self.disputed@[j]
        &&& forall|i: int|
            0 <= i < self.disputed@.len() ==> {
                let d = #[trigger] self.disputed@[i];
                &&& 1 <= d <= self.orders@.len()
                &&& self.orders@[d as int - 1].status == OrderStatus::Disputed
            }
        &&& forall|i: int|
            0 <= i < self.orders@.len() && (#[trigger] self.orders@[i]).status
                == OrderStatus::Disputed ==> self.disputed@.contains(self.orders@[i].id)
    }

    /// Well-formedness of the whole engine state: ids are assigned
    /// sequentially from 1 with no gaps or repeats, every stored order is
    /// well formed, the admin set has set semantics, and the disputed-order
    /// index is in lock-step with the orders' statuses.
    pub open spec fn wf(self) -> bool {
        &&& forall|i: int|
            0 <= i < self.orders@.len() ==> (#[trigger] self.orders@[i]).id == i + 1
        &&& forall|i: int| 0 <= i < self.orders@.len() ==> order_wf(#[trigger] self.orders@[i])
        &&& self.admins_distinct()
        &&& self.disputed_index_exact()
    }

    /// Initializes the engine with its custody account and the initializing
    /// principal seeded as the first admin, no orders and no disputes.
    pub fn __constructor(address: u64, admin: u64) -> (s: FastBukaContract)
        ensures
            s.wf(),
            s.address == address,
            s.admins@ == seq![admin],
            s.orders@ == Seq::<Order>::empty(),
            s.disputed@ == Seq::<u128>::empty(),
    {
        let mut admins: Vec<u64> = Vec::new();
        admins.push(admin);
        let s = FastBukaContract { address, orders: Vec::new(), admins, disputed: Vec::new() };
        proof {
            assert(s.admins@ =~= seq![admin]);
        }
        s
    }

    /// Replacing one stored order by a well-formed order with the same id,
    /// without moving it into or out of `Disputed` status and without
    /// touching the other state, keeps the whole engine well formed.
    pub proof fn lemma_update_keeps_wf(self, pre: FastBukaContract, idx: usize)
        requires
            pre.wf(),
            self.address == pre.address,
            self.admins@ == pre.admins@,
            self.disputed@ == pre.disputed@,
            idx < pre.orders@.len(),
            self.orders@ == pre.orders@.update(idx as int, self.orders@[idx as int]),
            order_wf(self.orders@[idx as int]),
            self.orders@[idx as int].id == pre.orders@[idx as int].id,
            (self.orders@[idx as int].status == OrderStatus::Disputed) == (pre.orders@[idx
                as int].status == OrderStatus::Disputed),
        ensures
            self.wf(),
    {
        assert forall|i: int| 0 <= i < self.orders@.len() implies order_wf(
            #[trigger] self.orders@[i],
        ) && self.orders@[i].id == i + 1 by {
            if i != idx {
                assert(self.orders@[i] == pre.orders@[i]);
            }
            assert(pre.orders@[i].id == i + 1);
        }
        assert forall|i: int|
            0 <= i < self.orders@.len() && (#[trigger] self.orders@[i]).status
                == OrderStatus::Disputed implies self.disputed@.contains(self.orders@[i].id) by {
            assert(pre.orders@[i].status == OrderStatus::Disputed);
            assert(pre.disputed@.contains(pre.orders@[i].id));
            assert(pre.orders@[i].id == self.orders@[i].id);
        }
        assert forall|i: int| 0 <= i < self.disputed@.len() implies {
            let d = #[trigger] self.disputed@[i];
            1 <= d <= self.orders@.len() && self.orders@[d as int - 1].status
                == OrderStatus::Disputed
        } by {
            let d = self.disputed@[i];
            assert(pre.disputed@[i] == d);
            assert(1 <= d <= pre.orders@.len());
            assert(pre.orders@[d as int - 1].status == OrderStatus::Disputed);
        }
    }

    /// Moving one stored order into `Disputed` status while appending its id
    /// to the disputed-order index keeps the whole engine well formed.
    pub proof fn lemma_dispute_keeps_wf(self, pre: FastBukaContract, idx: usize)
        requires
            pre.wf(),
            self.address == pre.address,
            self.admins@ == pre.admins@,
            idx < pre.orders@.len(),
            self.orders@ == pre.orders@.update(idx as int, self.orders@[idx as int]),
            order_wf(self.orders@[idx as int]),
            self.orders@[idx as int].id == pre.orders@[idx as int].id,
            self.orders@[idx as int].status == OrderStatus::Disputed,
            pre.orders@[idx as int].status != OrderStatus::Disputed,
            self.disputed@ == pre.disputed@.push(pre.orders@[idx as int].id),
        ensures
            self.wf(),
    {
        let id = pre.orders@[idx as int].id;
        assert(id == idx + 1);
        assert forall|i: int| 0 <= i < self.orders@.len() implies order_wf(
            #[trigger] self.orders@[i],
        ) && self.orders@[i].id == i + 1 by {
            if i != idx {
                assert(self.orders@[i] == pre.orders@[i]);
            }
            assert(pre.orders@[i].id == i + 1);
        }
        assert(!pre.disputed@.contains(id)) by {
            if pre.disputed@.contains(id) {
                let k = choose|k: int| 0 <= k < pre.disputed@.len() && pre.disputed@[k] == id;
                assert(pre.orders@[id as int - 1].status == OrderStatus::Disputed);
            }
        }
        assert forall|i: int, j: int|
            0 <= i < j < self.disputed@.len() implies self.disputed@[i] != self.disputed@[j] by {
            if j < pre.disputed@.len() {
                assert(pre.disputed@[i] != pre.disputed@[j]);
            } else {
                assert(self.disputed@[j] == id);
                assert(pre.disputed@.contains(pre.disputed@[i]));
            }
        }
        assert forall|i: int| 0 <= i < self.disputed@.len() implies {
            let d = #[trigger] self.disputed@[i];
            1 <= d <= self.orders@.len() && self.orders@[d as int - 1].status
                == OrderStatus::Disputed
        } by {
            let d = self.disputed@[i];
            if i < pre.disputed@.len() {
                assert(d == pre.disputed@[i]);
                assert(1 <= d <= pre.orders@.len());
                if d != id {
                    assert(self.orders@[d as int - 1] == pre.orders@[d as int - 1]);
                }
            } else {
                assert(d == id);
            }
        }
        assert forall|i: int|
            0 <= i < self.orders@.len() && (#[trigger] self.orders@[i]).status
                == OrderStatus::Disputed implies self.disputed@.contains(self.orders@[i].id) by {
            if i != idx {
                assert(pre.orders@[i].status == OrderStatus::Disputed);
                assert(pre.disputed@.contains(pre.orders@[i].id));
                let k = choose|k: int|
                    0 <= k < pre.disputed@.len() && pre.disputed@[k] == pre.orders@[i].id;
                assert(self.disputed@[k] == pre.orders@[i].id);
            } else {
                assert(self.disputed@[pre.disputed@.len() as int] == id);
            }
        }
    }

    /// Moving one stored order out of `Disputed` status while removing its
    /// id from the disputed-order index keeps the whole engine well formed.
    pub proof fn lemma_resolve_keeps_wf(self, pre: FastBukaContract, idx: usize, j: int)
        requires
            pre.wf(),
            self.address == pre.address,
            self.admins@ == pre.admins@,
            idx < pre.orders@.len(),
            self.orders@ == pre.orders@.update(idx as int, self.orders@[idx as int]),
            order_wf(self.orders@[idx as int]),
            self.orders@[idx as int].id == pre.orders@[idx as int].id,
            self.orders@[idx as int].status != OrderStatus::Disputed,
            pre.orders@[idx as int].status == OrderStatus::Disputed,
            0 <= j < pre.disputed@.len(),
            pre.disputed@[j] == pre.orders@[idx as int].id,
            self.disputed@ == pre.disputed@.remove(j),
        ensures
            self.wf(),
    {
        let id = pre.orders@[idx as int].id;
        assert(id == idx + 1);
        pre.disputed@.remove_ensures(j);
        assert forall|i: int| 0 <= i < self.orders@.len() implies order_wf(
            #[trigger] self.orders@[i],
        ) && self.orders@[i].id == i + 1 by {
            if i != idx {
                assert(self.orders@[i] == pre.orders@[i]);
            }
            assert(pre.orders@[i].id == i + 1);
        }
        assert forall|i1: int, i2: int|
            0 <= i1 < i2 < self.disputed@.len() implies self.disputed@[i1]
            != self.disputed@[i2] by {
            let m1 = if i1 < j { i1 } else { i1 + 1 };
            let m2 = if i2 < j { i2 } else { i2 + 1 };
            assert(self.disputed@[i1] == pre.disputed@[m1]);
            assert(self.disputed@[i2] == pre.disputed@[m2]);
            assert(m1 < m2);
        }
        assert forall|i: int| 0 <= i < self.disputed@.len() implies {
            let d = #[trigger] self.disputed@[i];
            1 <= d <= self.orders@.len() && self.orders@[d as int - 1].status
                == OrderStatus::Disputed
        } by {
            let m = if i < j { i } else { i + 1 };
            let d = pre.disputed@[m];
            assert(self.disputed@[i] == d);
            assert(1 <= d <= pre.orders@.len());
            assert(pre.orders@[d as int - 1].status == OrderStatus::Disputed);
            assert(m != j);
            assert(d != id);
            assert(self.orders@[d as int - 1] == pre.orders@[d as int - 1]);
        }
        assert forall|i: int|
            0 <= i < self.orders@.len() && (#[trigger] self.orders@[i]).status
                == OrderStatus::Disputed implies self.disputed@.contains(self.orders@[i].id) by {
            assert(i != idx);
            assert(pre.orders@[i].status == OrderStatus::Disputed);
            assert(pre.disputed@.contains(pre.orders@[i].id));
            let k = choose|k: int|
                0 <= k < pre.disputed@.len() && pre.disputed@[k] == pre.orders@[i].id;
            assert(pre.orders@[i].id == i + 1);
            assert(pre.disputed@[k] != id) by {
                assert(pre.orders@[i].id != id);
            }
            assert(k != j);
            let m = if k < j { k } else { k - 1 };
            assert(self.disputed@[m] == pre.disputed@[k]);
            assert(self.disputed@.contains(self.orders@[i].id));
        }
    }

    /// Monotonic ids: in a well-formed engine the stored ids are exactly
    /// `1..=count`, in ascending order, with no gaps and no repeats.
    pub proof fn lemma_monotonic_ids(self)
        requires
            self.wf(),
        ensures
            forall|i: int|
                0 <= i < self.spec_order_count() ==> (#[trigger] self.orders@[i]).id == i + 1,
            forall|i: int, j: int|
                0 <= i < j < self.spec_order_count() ==> self.orders@[i].id < self.orders@[j].id,
    {
    }

    /// Admin set set-semantics: in a well-formed engine no principal appears
    /// twice in the admin list.
    pub proof fn lemma_admin_set_distinct(self)
        requires
            self.wf(),
        ensures
            forall|i: int, j: int|
                0 <= i < j < self.admins@.len() ==> self.admins@[i] != self.admins@[j],
    {
    }
}

} // verus!
