//! The order store: every order ever created, keyed by id and kept in
//! ascending order of id. Orders are inserted and overwritten, never removed.

use crate::helper_utils::{generate_order_subaccount, page_params, validate_page_params};
use crate::order::{
    listed, OrderView, PaymentInfo, PaymentOrder, PaymentStatus, PaymentType, QueryCommonReq,
    QueryOrder, QuerySort,
};
use crate::principal::{Principal, MAX_PRINCIPAL_LEN};
use vstd::prelude::*;

verus! {

/// The ids rise strictly along the sequence, so no id occurs twice.
pub open spec fn ascending(s: Seq<OrderView>) -> bool {
    forall|i: int, j: int| 0 <= i < j < s.len() ==> s[i].id < s[j].id
}

/// Some order in the sequence has this id.
pub open spec fn holds(s: Seq<OrderView>, id: u64) -> bool {
    exists|i: int| 0 <= i < s.len() && s[i].id == id
}

/// The index at which the sequence holds this id, where it holds it.
pub open spec fn index_of(s: Seq<OrderView>, id: u64) -> int {
    choose|i: int| 0 <= i < s.len() && s[i].id == id
}

/// The order with this id, if the sequence holds one.
pub open spec fn lookup(s: Seq<OrderView>, id: u64) -> Option<OrderView> {
    if holds(s, id) {
        Some(s[index_of(s, id)])
    } else {
        None
    }
}

/// In an ascending sequence an id stands at one index only.
pub proof fn lemma_index_of(s: Seq<OrderView>, i: int)
    requires
        ascending(s),
        0 <= i < s.len(),
    ensures
        holds(s, s[i].id),
        index_of(s, s[i].id) == i,
{
    let id = s[i].id;
    assert(holds(s, id));
    let k = index_of(s, id);
    if k < i {
        assert(s[k].id < s[i].id);
    } else if i < k {
        assert(s[i].id < s[k].id);
    }
}

/// In an ascending sequence, the order found under an id is the one that
/// stands at any index carrying that id.
pub proof fn lemma_lookup_at(s: Seq<OrderView>, i: int)
    requires
        ascending(s),
        0 <= i < s.len(),
    ensures
        lookup(s, s[i].id) == Some(s[i]),
{
    lemma_index_of(s, i);
}

/// Where one ascending sequence holds every id of another, an id of the
/// other stands no earlier in it than in the other.
pub proof fn lemma_index_bound(s: Seq<OrderView>, r: Seq<OrderView>, i: int)
    requires
        ascending(s),
        ascending(r),
        forall|k: u64| holds(s, k) ==> holds(r, k),
        0 <= i < s.len(),
    ensures
        holds(r, s[i].id),
        index_of(r, s[i].id) >= i,
    decreases i,
{
    lemma_index_of(s, i);
    assert(holds(r, s[i].id));
    if i > 0 {
        lemma_index_bound(s, r, i - 1);
        let a = index_of(r, s[i - 1].id);
        let b = index_of(r, s[i].id);
        assert(s[i - 1].id < s[i].id);
        if b <= a {
            if b < a {
                assert(r[b].id < r[a].id);
            }
        }
    }
}

/// Two ascending sequences under which every id finds the same order are
/// the same sequence.
pub proof fn law_lookup_determines_orders(s: Seq<OrderView>, r: Seq<OrderView>)
    requires
        ascending(s),
        ascending(r),
        forall|k: u64| lookup(s, k) == lookup(r, k),
    ensures
        s == r,
{
    assert forall|k: u64| holds(s, k) == holds(r, k) by {
        assert(lookup(s, k) == lookup(r, k));
    }
    if s.len() > 0 {
        lemma_index_bound(s, r, s.len() - 1);
    }
    if r.len() > 0 {
        lemma_index_bound(r, s, r.len() - 1);
    }
    assert(s.len() == r.len());
    assert forall|i: int| 0 <= i < s.len() implies s[i] == r[i] by {
        lemma_index_bound(s, r, i);
        let j = index_of(r, s[i].id);
        lemma_index_bound(r, s, j);
        lemma_index_of(s, i);
        assert(j == i);
        lemma_lookup_at(s, i);
        lemma_lookup_at(r, i);
        assert(lookup(s, s[i].id) == lookup(r, s[i].id));
    }
    assert(s =~= r);
}

/// The orders in the order of a listing: by ascending id, which is the order
/// of creation, or the reverse.
pub open spec fn in_listing_order(s: Seq<OrderView>, sort: QuerySort) -> Seq<OrderView> {
    match sort {
        QuerySort::TimeAsc => s,
        QuerySort::TimeDesc => s.reverse(),
    }
}

/// The orders of one payer, in listing order.
pub open spec fn orders_of(s: Seq<OrderView>, payer: Seq<u8>, sort: QuerySort) -> Seq<OrderView> {
    in_listing_order(s, sort).filter(|o: OrderView| o.payer == payer)
}

/// Index of the first entry of a page: `(page - 1) * size` after the page
/// parameters were normalised.
pub open spec fn page_start(page: usize, size: usize) -> int {
    (page_params(page, size).0 - 1) * page_params(page, size).1
}

/// The entries of `mine` that fall on the requested page.
pub open spec fn page_of(mine: Seq<OrderView>, page: usize, size: usize) -> Seq<OrderView> {
    let start = page_start(page, size);
    let end = start + page_params(page, size).1;
    let lo = if start < mine.len() { start } else { mine.len() as int };
    let hi = if end < mine.len() { end } else { mine.len() as int };
    mine.subrange(lo, hi)
}

/// One more order in listing order extends the payer's orders by that order
/// when it is the payer's, and leaves them as they are otherwise.
pub proof fn lemma_orders_step(all: Seq<OrderView>, payer: Seq<u8>, k: int)
    requires
        0 <= k < all.len(),
    ensures
        all.subrange(0, k + 1).filter(|o: OrderView| o.payer == payer) == if all[k].payer
            == payer {
            all.subrange(0, k).filter(|o: OrderView| o.payer == payer).push(all[k])
        } else {
            all.subrange(0, k).filter(|o: OrderView| o.payer == payer)
        },
{
    reveal(Seq::filter);
    assert(all.subrange(0, k + 1).drop_last() =~= all.subrange(0, k));
    assert(all.subrange(0, k + 1).last() == all[k]);
}

/// The durable map from order id to order.
#[derive(Debug)]
pub struct OrderStore {
    pub orders: Vec<PaymentOrder>,
}

impl View for OrderStore {
    type V = Seq<OrderView>;

    open spec fn view(&self) -> Seq<OrderView> {
        self.orders@.map_values(|o: PaymentOrder| o@)
    }
}

impl OrderStore {
    /// Ids ascend strictly and every payer is well formed.
    pub open spec fn wf(&self) -> bool {
        &&& ascending(self@)
        &&& forall|i: int|
            0 <= i < self@.len() ==> (#[trigger] self@[i]).payer.len() <= MAX_PRINCIPAL_LEN
    }

    /// An empty store.
    pub fn new() -> (store: OrderStore)
        ensures
            store@ == Seq::<OrderView>::empty(),
            store.wf(),
    {
        let store = OrderStore { orders: Vec::new() };
        assert(store@ =~= Seq::<OrderView>::empty());
        store
    }

    /// How many orders the store holds.
    pub fn len(&self) -> (n: usize)
        ensures
            n == self@.len(),
    {
        self.orders.len()
    }

    /// The first index whose order has an id of at least `id`, and whether
    /// that order has exactly this id.
    pub fn position(&self, id: u64) -> (at: (usize, bool))
        requires
            self.wf(),
        ensures
            at.0 <= self@.len(),
            forall|j: int| 0 <= j < at.0 ==> self@[j].id < id,
            forall|j: int| at.0 <= j < self@.len() ==> self@[j].id >= id,
            at.1 == (at.0 < self@.len() && self@[at.0 as int].id == id),
            at.1 == holds(self@, id),
    {
        let mut i: usize = 0;
        while i < self.orders.len()
            invariant
                self.wf(),
                i <= self.orders@.len(),
                forall|j: int| 0 <= j < i ==> self@[j].id < id,
            decreases self.orders@.len() - i,
        {
            if self.orders[i].id >= id {
                let found = self.orders[i].id == id;
                assert(self@[i as int].id == self.orders@[i as int].id);
                assert forall|j: int| i <= j < self@.len() implies self@[j].id >= id by {
                    if i < j {
                        assert(self@[i as int].id < self@[j].id);
                    }
                }
                assert(found == holds(self@, id)) by {
                    if !found && holds(self@, id) {
                        let k = index_of(self@, id);
                        if k < i {
                            assert(self@[k].id < id);
                        } else if k > i {
                            assert(self@[i as int].id < self@[k].id);
                        }
                    }
                }
                return (i, found);
            }
            assert(self@[i as int].id == self.orders@[i as int].id);
            i += 1;
        }
        assert(!holds(self@, id));
        (i, false)
    }

    /// The order with this id, if there is one.
    pub fn get_payment_order(&self, id: u64) -> (found: Option<PaymentOrder>)
        requires
            self.wf(),
        ensures
            found.is_some() == holds(self@, id),
            found.is_some() ==> lookup(self@, id) == Some(found.unwrap()@) && found.unwrap().wf(),
            found.is_none() ==> lookup(self@, id).is_none(),
    {
        let (i, present) = self.position(id);
        if present {
            proof {
                lemma_lookup_at(self@, i as int);
            }
            Some(self.orders[i].duplicate())
        } else {
            None
        }
    }

    /// Whether order `order_id` exists, is `Paid`, and was created by
    /// `payer`.
    pub fn check_payment_order(&self, payer: &Principal, order_id: u64) -> (paid: bool)
        requires
            self.wf(),
        ensures
            paid == match lookup(self@, order_id) {
                Some(o) => o.status == PaymentStatus::Paid && o.payer == payer@,
                None => false,
            },
    {
        match self.get_payment_order(order_id) {
            Some(order) => order.status == PaymentStatus::Paid && order.payer.same_as(payer),
            None => false,
        }
    }

    /// Stores an order under its id. An order already stored under that id
    /// is overwritten; every other order stays as it is.
    pub fn insert(&mut self, order: PaymentOrder)
        requires
            old(self).wf(),
            order.wf(),
            old(self)@.len() < usize::MAX,
        ensures
            final(self).wf(),
            lookup(final(self)@, order.id) == Some(order@),
            forall|id: u64| id != order.id ==> #[trigger] lookup(final(self)@, id) == lookup(
                old(self)@,
                id,
            ),
            final(self)@.len() == old(self)@.len() + if holds(old(self)@, order.id) {
                0int
            } else {
                1int
            },
            (forall|j: int| 0 <= j < old(self)@.len() ==> old(self)@[j].id < order.id)
                ==> final(self)@ == old(self)@.push(order@),
    {
        let ghost before = self@;
        let ghost o = order@;
        let (i, present) = self.position(order.id);
        if present {
            self.orders[i] = order;
            assert(self@ =~= before.update(i as int, o));
        } else {
            self.orders.insert(i, order);
            assert(self@ =~= before.insert(i as int, o));
        }
        let ghost after = self@;
        proof {
            if forall|j: int| 0 <= j < before.len() ==> before[j].id < o.id {
                if i < before.len() {
                    assert(before[i as int].id < o.id);
                }
                assert(after =~= before.push(o));
            }
            assert(ascending(after)) by {
                assert forall|a: int, b: int| 0 <= a < b < after.len() implies after[a].id
                    < after[b].id by {
                    if present {
                        assert(after[a].id == before[a].id);
                        assert(after[b].id == before[b].id);
                    } else {
                        let a0 = if a < i { a } else { a - 1 };
                        let b0 = if b < i { b } else { b - 1 };
                        if a != i && b != i {
                            assert(after[a] == before[a0]);
                            assert(after[b] == before[b0]);
                        } else if a == i {
                            assert(after[b] == before[b0]);
                        } else {
                            assert(after[a] == before[a0]);
                        }
                    }
                }
            }
            lemma_lookup_at(after, i as int);
            assert forall|id: u64| id != o.id implies #[trigger] lookup(after, id) == lookup(
                before,
                id,
            ) by {
                if holds(before, id) {
                    let k = index_of(before, id);
                    lemma_lookup_at(before, k);
                    let k1 = if present || k < i { k } else { k + 1 };
                    assert(after[k1] == before[k]);
                    lemma_lookup_at(after, k1);
                } else if holds(after, id) {
                    let k = index_of(after, id);
                    let k0 = if present || k < i { k } else { k - 1 };
                    assert(k != i);
                    assert(before[k0] == after[k]);
                    assert(false);
                }
            }
        }
    }

    /// Creates order `order_id` for `payer`: stores it as `Unpaid`, created
    /// at `now`, with nothing paid, and returns the deposit instructions,
    /// whose recipient is the subaccount derived from payer and id.
    pub fn create_payment_order(
        &mut self,
        order_id: u64,
        payer: Principal,
        source: String,
        token: String,
        amount: u64,
        payment_type: PaymentType,
        now: u64,
    ) -> (info: PaymentInfo)
        requires
            old(self).wf(),
            payer.wf(),
            old(self)@.len() < usize::MAX,
        ensures
            final(self).wf(),
            lookup(final(self)@, order_id) == Some(
                OrderView::fresh(order_id, payer@, source@, token@, amount, payment_type@, now),
            ),
            forall|id: u64| id != order_id ==> #[trigger] lookup(final(self)@, id) == lookup(
                old(self)@,
                id,
            ),
            final(self)@.len() == old(self)@.len() + if holds(old(self)@, order_id) {
                0int
            } else {
                1int
            },
            (forall|j: int| 0 <= j < old(self)@.len() ==> old(self)@[j].id < order_id)
                ==> final(self)@ == old(self)@.push(
                OrderView::fresh(order_id, payer@, source@, token@, amount, payment_type@, now),
            ),
            info.id == order_id,
            info.recipient@ == crate::helper_utils::order_subaccount(payer@, order_id),
            info.token@ == token@,
            info.amount == amount,
            info.payment_type@ == payment_type@,
            info.created_time == now,
    {
        let recipient = generate_order_subaccount(&payer, order_id);
        let info = PaymentInfo {
            id: order_id,
            recipient,
            token: token.clone(),
            amount,
            payment_type: payment_type.duplicate(),
            created_time: now,
        };
        let order = PaymentOrder {
            id: order_id,
            payer,
            amount,
            payment_type,
            source,
            token,
            amount_paid: 0,
            status: PaymentStatus::Unpaid,
            verified_time: None,
            shared_time: None,
            created_time: now,
        };
        self.insert(order);
        info
    }
    /// Lists the orders of `caller`, oldest or newest first as the request
    /// says. Returns how many orders the caller has in all, whether any
    /// lie beyond the requested page, and the entries of that page, each
    /// with its deposit subaccount derived again.
    pub fn limit_orders(&self, caller: &Principal, req: &QueryCommonReq) -> (out: (
        usize,
        bool,
        Vec<QueryOrder>,
    ))
        requires
            self.wf(),
        ensures
            out.0 == orders_of(self@, caller@, req.sort).len(),
            out.1 == (out.0 > page_start(req.page, req.size) + page_params(req.page, req.size).1),
            out.2@.map_values(|q: QueryOrder| q@) == page_of(
                orders_of(self@, caller@, req.sort),
                req.page,
                req.size,
            ).map_values(|o: OrderView| listed(o)),
    {
        let (page, size) = validate_page_params(req.page, req.size);
        let n = self.orders.len();
        let ghost all = in_listing_order(self@, req.sort);
        let ghost pred = |o: OrderView| o.payer == caller@;
        let ghost start = page_start(req.page, req.size);
        // The first index of the page; `None` when it cannot be represented,
        // in which case it lies beyond every possible total.
        let first: Option<usize> = (page - 1).checked_mul(size);
        assert(start == (page - 1) * size);
        let mut data: Vec<QueryOrder> = Vec::new();
        let mut total: usize = 0;
        let mut k: usize = 0;
        proof {
            reveal(Seq::filter);
            assert(all.subrange(0, 0) =~= Seq::<OrderView>::empty());
        }
        while k < n
            invariant
                self.wf(),
                n == self.orders@.len(),
                all == in_listing_order(self@, req.sort),
                all.len() == n,
                pred == (|o: OrderView| o.payer == caller@),
                size == page_params(req.page, req.size).1,
                start == page_start(req.page, req.size),
                start >= 0,
                match first {
                    Some(f) => f == start,
                    None => start > usize::MAX,
                },
                k <= n,
                total == all.subrange(0, k as int).filter(pred).len(),
                total <= k,
                data@.map_values(|q: QueryOrder| q@) == page_of(
                    all.subrange(0, k as int).filter(pred),
                    req.page,
                    req.size,
                ).map_values(|o: OrderView| listed(o)),
            decreases n - k,
        {
            let idx: usize = match req.sort {
                QuerySort::TimeAsc => k,
                QuerySort::TimeDesc => n - 1 - k,
            };
            let order = &self.orders[idx];
            assert(order@ == all[k as int]);
            proof {
                lemma_orders_step(all, caller@, k as int);
            }
            let ghost prev = all.subrange(0, k as int).filter(pred);
            let ghost next = all.subrange(0, k + 1).filter(pred);
            if order.payer.same_as(caller) {
                assert(next == prev.push(all[k as int]));
                let on_page = match first {
                    Some(f) => total >= f && total - f < size,
                    None => false,
                };
                if on_page {
                    let entry = QueryOrder::of_order(order);
                    let ghost shown = data@.map_values(|q: QueryOrder| q@);
                    data.push(entry);
                    assert(data@.map_values(|q: QueryOrder| q@) =~= shown.push(
                        listed(all[k as int]),
                    ));
                    assert(page_of(next, req.page, req.size) =~= page_of(
                        prev,
                        req.page,
                        req.size,
                    ).push(all[k as int]));
                    assert(page_of(next, req.page, req.size).map_values(|o: OrderView| listed(o))
                        =~= page_of(prev, req.page, req.size).map_values(
                        |o: OrderView| listed(o),
                    ).push(listed(all[k as int])));
                } else {
                    assert(page_of(next, req.page, req.size) =~= page_of(
                        prev,
                        req.page,
                        req.size,
                    ));
                }
                total += 1;
            } else {
                assert(next == prev);
            }
            k += 1;
        }
        assert(all.subrange(0, n as int) =~= all);
        assert(start == page_start(req.page, req.size));
        let has_more = match first {
            Some(f) => total > f && total - f > size,
            None => false,
        };
        (total, has_more, data)
    }
}

} // verus!
