//! The order lifecycle engine. It owns the order store and the order
//! counter, and takes each lifecycle operation one step at a time: an
//! operation either ends, or asks for one ledger call and goes on when it is
//! handed the answer. While an operation on an order is under way, no other
//! operation on that order can start.

use crate::error::PaymentError;
use crate::helper_utils::generate_order_subaccount;
use crate::lifecycle::{
    after_balance, after_confirm_start, after_share, begin_verification, check_refund,
    confirm_start, plan_refund, plan_share, process_refund_payment_order, refund_amount,
    refund_check, refund_result, refunded, share_pay, share_plan, verify_payment_order,
    ConfirmStart, SharePlan,
};
use crate::order::{
    instructions, status_step, OrderView, PaymentInfo, PaymentInfoView, PaymentOrder,
    PaymentStatus, PaymentType, PaymentTypeView, QueryCommonReq, QueryOrder,
};
use crate::payment::{
    check_destination, destination_ok, select_token, token_profile, BalanceQuery, Destination,
    Token, TransferRequest,
};
use crate::principal::{Principal, MAX_PRINCIPAL_LEN};
use crate::store::{
    ascending, holds, index_of, lemma_index_of, lookup, orders_of, page_of, OrderStore,
};
use vstd::prelude::*;

verus! {

/// What an order is waiting for.
#[derive(Clone, Copy, Debug, PartialEq, Eq, Structural)]
pub enum Stage {
    /// No operation is under way.
    Idle,
    /// A confirmation waits for the balance.
    ConfirmBalance,
    /// A confirmation waits for the transfer to the treasury.
    ShareTransfer,
    /// A refund waits for the balance.
    RefundBalance,
    /// A refund waits for the transfer of what is left of this balance.
    RefundTransfer(u64),
}

/// What the caller of a lifecycle step has to do next.
#[derive(Debug)]
pub enum Step {
    /// The operation has ended with this result.
    Done(Result<bool, PaymentError>),
    /// Another operation on this order is under way: try again later.
    Busy,
    /// Query this balance and hand it to the matching `with_balance` step.
    QueryBalance(BalanceQuery),
    /// Make this transfer and hand its outcome to the matching
    /// `with_transfer` step.
    Transfer(TransferRequest),
}

/// The mathematical content of a step.
pub enum StepView {
    Done(Result<bool, PaymentError>),
    Busy,
    QueryBalance { token: Token, subaccount: Seq<u8> },
    Transfer { token: Token, from_subaccount: Seq<u8>, to: Option<Seq<u8>>, amount: u64, fee: u64 },
}

impl View for Step {
    type V = StepView;

    open spec fn view(&self) -> StepView {
        match self {
            Step::Done(r) => StepView::Done(*r),
            Step::Busy => StepView::Busy,
            Step::QueryBalance(q) => StepView::QueryBalance {
                token: q.token,
                subaccount: q.subaccount@,
            },
            Step::Transfer(t) => StepView::Transfer {
                token: t.token,
                from_subaccount: t.from_subaccount@,
                to: t.to@,
                amount: t.amount,
                fee: t.fee,
            },
        }
    }
}

/// An order as the engine keeps it: the payer is well formed, and only a
/// `Paid` order carries a sharing time.
pub open spec fn order_sound(o: OrderView) -> bool {
    &&& o.payer.len() <= MAX_PRINCIPAL_LEN
    &&& o.shared_time.is_some() ==> o.status == PaymentStatus::Paid
}

/// A stage that an order in this state can be in.
pub open spec fn stage_fits(o: OrderView, stage: Stage) -> bool {
    match stage {
        Stage::Idle => true,
        Stage::ConfirmBalance => o.status == PaymentStatus::Verifying,
        Stage::ShareTransfer => o.status == PaymentStatus::Paid && o.shared_time.is_none(),
        Stage::RefundBalance => o.status != PaymentStatus::Paid && o.status
            != PaymentStatus::Refunded,
        Stage::RefundTransfer(_) => o.status != PaymentStatus::Paid && o.status
            != PaymentStatus::Refunded,
    }
}

/// The orders with the one under `id` replaced by `o`.
pub open spec fn rewritten(s: Seq<OrderView>, id: u64, o: OrderView) -> Seq<OrderView> {
    Seq::new(s.len(), |i: int| if s[i].id == id { o } else { s[i] })
}

/// The stages with the one of order `id` replaced by `stage`.
pub open spec fn restaged(s: Seq<OrderView>, stages: Seq<Stage>, id: u64, stage: Stage) -> Seq<
    Stage,
> {
    Seq::new(stages.len(), |i: int| if 0 <= i < s.len() && s[i].id == id { stage } else { stages[i] })
}

/// What may become of the orders over any number of operations: none is
/// removed, the terms of each stay as they were, its status follows the
/// status graph, and a `Paid` order is not touched again but to be marked
/// as shared.
pub open spec fn evolves(before: Seq<OrderView>, after: Seq<OrderView>) -> bool {
    &&& before.len() <= after.len()
    &&& forall|i: int|
        0 <= i < before.len() ==> {
            &&& (#[trigger] before[i]).same_terms(after[i])
            &&& status_step(before[i].status, after[i].status)
            &&& before[i].status == PaymentStatus::Paid ==> {
                &&& after[i].amount_paid == before[i].amount_paid
                &&& after[i].verified_time == before[i].verified_time
                &&& before[i].shared_time.is_some() ==> after[i].shared_time
                    == before[i].shared_time
            }
        }
}

/// The step that a starting confirmation hands back.
pub open spec fn confirm_step(o: OrderView, now: u64) -> StepView {
    match confirm_start(o, now) {
        ConfirmStart::AlreadyPaid => StepView::Done(Ok(true)),
        ConfirmStart::Rejected(e) => StepView::Done(Err(e)),
        ConfirmStart::Expired => StepView::Done(Err(PaymentError::TimedOut)),
        ConfirmStart::Query(token) => StepView::QueryBalance {
            token,
            subaccount: o.deposit_account(),
        },
    }
}

/// The stage that a starting confirmation leaves the order in.
pub open spec fn confirm_stage(o: OrderView, now: u64) -> Stage {
    match confirm_start(o, now) {
        ConfirmStart::Query(_) => Stage::ConfirmBalance,
        _ => Stage::Idle,
    }
}

/// The transfer to the treasury that an order's proceeds call for, if any:
/// the token and the net amount.
pub open spec fn share_request(o: OrderView) -> Option<(Token, u64)> {
    match share_plan(o) {
        SharePlan::Send(net) => match token_profile(o.token) {
            Some(token) => Some((token, net)),
            None => None,
        },
        _ => None,
    }
}

/// The order after a confirmation was handed the balance: settled by the
/// balance and, where it is `Paid` with no more than the fee, marked as
/// shared.
pub open spec fn settled(o: OrderView, balance: u64, now: u64) -> OrderView {
    let paid = after_balance(o, balance, now);
    match share_plan(paid) {
        SharePlan::Dust => after_share(paid, false, now),
        _ => paid,
    }
}

/// The stage after a confirmation was handed the balance.
pub open spec fn settle_stage(o: OrderView, balance: u64, now: u64) -> Stage {
    if share_request(after_balance(o, balance, now)).is_some() {
        Stage::ShareTransfer
    } else {
        Stage::Idle
    }
}

/// The step that a confirmation hands back for a balance: failure when the
/// balance does not cover the amount; otherwise the transfer of the net
/// proceeds to the treasury, or success at once when there is nothing to
/// send.
pub open spec fn settle_step(o: OrderView, balance: u64, now: u64) -> StepView {
    let paid = after_balance(o, balance, now);
    if paid.status != PaymentStatus::Paid {
        StepView::Done(Err(PaymentError::InsufficientFunds))
    } else {
        match share_request(paid) {
            Some((token, net)) => StepView::Transfer {
                token,
                from_subaccount: paid.deposit_account(),
                to: None,
                amount: net,
                fee: token.fee_spec(),
            },
            None => StepView::Done(Ok(true)),
        }
    }
}

/// The step that a starting refund hands back once caller and order id were
/// accepted and no other operation is under way.
pub open spec fn refund_step(o: OrderView, caller: Seq<u8>) -> StepView {
    match refund_check(o, caller) {
        Err(e) => StepView::Done(Err(e)),
        Ok(token) => StepView::QueryBalance { token, subaccount: o.deposit_account() },
    }
}

/// The transfer that a refund calls for: token and amount, or why there is
/// none. The balance must cover the fee and the destination must name an
/// account on the token's ledger.
pub open spec fn refund_request(o: OrderView, to: Seq<u8>, balance: u64) -> Result<
    (Token, u64),
    PaymentError,
> {
    match token_profile(o.token) {
        None => Err(PaymentError::UnsupportedToken),
        Some(token) => match refund_amount(o, balance) {
            Err(e) => Err(e),
            Ok(amount) => if destination_ok(token, to) {
                Ok((token, amount))
            } else {
                Err(PaymentError::RemoteCallFailure)
            },
        },
    }
}

/// The step that a refund hands back for a balance.
pub open spec fn refund_balance_step(o: OrderView, to: Seq<u8>, balance: u64) -> StepView {
    match refund_request(o, to, balance) {
        Err(e) => StepView::Done(Err(e)),
        Ok((token, amount)) => StepView::Transfer {
            token,
            from_subaccount: o.deposit_account(),
            to: Some(to),
            amount,
            fee: token.fee_spec(),
        },
    }
}

/// The order after a refund was handed the outcome of its transfer.
pub open spec fn after_refund(o: OrderView, balance: u64, transferred: bool, now: u64) -> OrderView {
    if refund_result(o, o.payer, balance, transferred).is_ok() {
        refunded(o, balance, now)
    } else {
        o
    }
}

/// Orders that an engine can be rebuilt from: ids ascend and lie below
/// the next id, and every order is sound.
pub open spec fn restorable(s: Seq<OrderView>, next_id: u64) -> bool {
    &&& ascending(s)
    &&& forall|i: int| 0 <= i < s.len() ==> (#[trigger] s[i]).id < next_id && order_sound(s[i])
}

/// The content of a step that may be missing.
pub open spec fn step_view(step: Option<Step>) -> Option<StepView> {
    match step {
        Some(s) => Some(s@),
        None => None,
    }
}

/// The lifecycle engine: order store, per-order stages, and the counters.
#[derive(Debug)]
pub struct Engine {
    store: OrderStore,
    stages: Vec<Stage>,
    next_order_id: u64,
    total_orders: u64,
}

impl Engine {
    /// The orders, by ascending id.
    pub closed spec fn orders(&self) -> Seq<OrderView> {
        self.store@
    }

    /// The stage of each order, by the order's index.
    pub closed spec fn stages(&self) -> Seq<Stage> {
        self.stages@
    }

    /// The id that the next order will get.
    pub closed spec fn next_id(&self) -> u64 {
        self.next_order_id
    }

    /// How many orders were created.
    pub closed spec fn total(&self) -> u64 {
        self.total_orders
    }

    /// The stage of the order with this id; `Idle` where there is none.
    pub open spec fn stage_of(&self, id: u64) -> Stage {
        if holds(self.orders(), id) {
            self.stages()[index_of(self.orders(), id)]
        } else {
            Stage::Idle
        }
    }

    /// The engine's invariant: ids ascend and lie below the next id, every
    /// order is sound, and every order has a stage that fits its status.
    pub open spec fn wf(&self) -> bool {
        &&& ascending(self.orders())
        &&& self.stages().len() == self.orders().len()
        &&& forall|i: int|
            0 <= i < self.orders().len() ==> {
                &&& (#[trigger] self.orders()[i]).id < self.next_id()
                &&& order_sound(self.orders()[i])
                &&& stage_fits(self.orders()[i], self.stages()[i])
            }
    }

    /// Nothing but the order under `id` and its stage differs from `old`.
    pub open spec fn same_but(&self, old: &Engine, id: u64, o: OrderView, stage: Stage) -> bool {
        &&& self.orders() == rewritten(old.orders(), id, o)
        &&& self.stages() == restaged(old.orders(), old.stages(), id, stage)
        &&& self.next_id() == old.next_id()
        &&& self.total() == old.total()
    }

    /// No order but the one under `id` differs from `old`, and none was
    /// added.
    pub open spec fn touches(&self, old: &Engine, id: u64) -> bool {
        &&& self.orders().len() == old.orders().len()
        &&& forall|i: int|
            0 <= i < old.orders().len() && old.orders()[i].id != id ==> #[trigger] self.orders()[i]
                == old.orders()[i]
    }

    /// Nothing differs from `old`.
    pub open spec fn same_as(&self, old: &Engine) -> bool {
        &&& self.orders() == old.orders()
        &&& self.stages() == old.stages()
        &&& self.next_id() == old.next_id()
        &&& self.total() == old.total()
    }

    /// What creating an order does to an engine that was `pre`: nothing,
    /// with no instructions handed out, exactly when a counter or the store
    /// has reached the largest value it can hold; otherwise the new order is
    /// appended with the next id, `Unpaid` and idle, both counters go up by
    /// one, and the instructions are those for the new order.
    pub open spec fn created(
        &self,
        pre: &Engine,
        payer: Seq<u8>,
        source: Seq<char>,
        token: Seq<char>,
        amount: u64,
        payment_type: PaymentTypeView,
        now: u64,
        info: Option<PaymentInfoView>,
    ) -> bool {
        let fresh = OrderView::fresh(pre.next_id(), payer, source, token, amount, payment_type, now);
        if pre.next_id() == u64::MAX || pre.total() == u64::MAX || pre.orders().len()
            >= usize::MAX {
            info.is_none() && self.same_as(pre)
        } else {
            &&& self.orders() == pre.orders().push(fresh)
            &&& self.stages() == pre.stages().push(Stage::Idle)
            &&& self.next_id() == pre.next_id() + 1
            &&& self.total() == pre.total() + 1
            &&& info == Some(instructions(fresh))
        }
    }

    /// What starting a confirmation does to an engine that was `pre`, and
    /// the step it hands back.
    pub open spec fn confirm_begun(
        &self,
        pre: &Engine,
        order_id: u64,
        now: u64,
        step: StepView,
    ) -> bool {
        &&& match lookup(pre.orders(), order_id) {
            None => step == StepView::Done(Err(PaymentError::NotFound)) && self.same_as(pre),
            Some(o) => if pre.stage_of(order_id) != Stage::Idle {
                step == StepView::Busy && self.same_as(pre)
            } else {
                &&& step == confirm_step(o, now)
                &&& self.same_but(
                    pre,
                    order_id,
                    after_confirm_start(o, now),
                    confirm_stage(o, now),
                )
                &&& o.status == PaymentStatus::Paid ==> step == StepView::Done(Ok(true))
                    && self.same_as(pre)
                &&& !(confirm_start(o, now) is Query) && !(confirm_start(o, now) is Expired)
                    ==> self.same_as(pre)
            }
        }
    }

    /// What a confirmation does with a balance to an engine that was `pre`,
    /// and the step it hands back.
    pub open spec fn balance_settled(
        &self,
        pre: &Engine,
        order_id: u64,
        balance: u64,
        now: u64,
        step: Option<StepView>,
    ) -> bool {
        &&& step.is_some() == (pre.stage_of(order_id) == Stage::ConfirmBalance)
        &&& step.is_none() ==> self.same_as(pre)
        &&& step.is_some() ==> {
            let o = lookup(pre.orders(), order_id).unwrap();
            &&& step.unwrap() == settle_step(o, balance, now)
            &&& self.same_but(
                pre,
                order_id,
                settled(o, balance, now),
                settle_stage(o, balance, now),
            )
        }
    }

    /// What a confirmation does with the outcome of the transfer to the
    /// treasury to an engine that was `pre`, and the step it hands back.
    pub open spec fn share_ended(
        &self,
        pre: &Engine,
        order_id: u64,
        transferred: bool,
        now: u64,
        step: Option<StepView>,
    ) -> bool {
        &&& step.is_some() == (pre.stage_of(order_id) == Stage::ShareTransfer)
        &&& step.is_none() ==> self.same_as(pre)
        &&& step.is_some() ==> {
            let o = lookup(pre.orders(), order_id).unwrap();
            &&& step.unwrap() == StepView::Done(Ok(true))
            &&& self.same_but(
                pre,
                order_id,
                after_share(o, transferred, now),
                Stage::Idle,
            )
        }
    }

    /// What starting a refund does to an engine that was `pre`, and the step
    /// it hands back.
    pub open spec fn refund_begun(
        &self,
        pre: &Engine,
        order_id: u64,
        caller: Seq<u8>,
        step: StepView,
    ) -> bool {
        &&& self.orders() == pre.orders()
        &&& match lookup(pre.orders(), order_id) {
            None => step == StepView::Done(Err(PaymentError::NotFound)) && self.same_as(pre),
            Some(o) => if caller != o.payer {
                step == StepView::Done(Err(PaymentError::Unauthorized)) && self.same_as(pre)
            } else if pre.stage_of(order_id) != Stage::Idle {
                step == StepView::Busy && self.same_as(pre)
            } else {
                &&& step == refund_step(o, caller)
                &&& self.same_but(
                    pre,
                    order_id,
                    o,
                    if refund_check(o, caller).is_ok() {
                        Stage::RefundBalance
                    } else {
                        Stage::Idle
                    },
                )
            }
        }
    }

    /// What a refund does with a balance to an engine that was `pre`, and
    /// the step it hands back.
    pub open spec fn refund_planned(
        &self,
        pre: &Engine,
        order_id: u64,
        to: Seq<u8>,
        balance: u64,
        step: Option<StepView>,
    ) -> bool {
        &&& self.orders() == pre.orders()
        &&& step.is_some() == (pre.stage_of(order_id) == Stage::RefundBalance)
        &&& step.is_none() ==> self.same_as(pre)
        &&& step.is_some() ==> {
            let o = lookup(pre.orders(), order_id).unwrap();
            &&& step.unwrap() == refund_balance_step(o, to, balance)
            &&& self.same_but(
                pre,
                order_id,
                o,
                if refund_request(o, to, balance).is_ok() {
                    Stage::RefundTransfer(balance)
                } else {
                    Stage::Idle
                },
            )
        }
    }

    /// What a refund does with the outcome of its transfer to an engine that
    /// was `pre`, and the step it hands back.
    pub open spec fn refund_ended(
        &self,
        pre: &Engine,
        order_id: u64,
        transferred: bool,
        now: u64,
        step: Option<StepView>,
    ) -> bool {
        &&& step.is_some() == (pre.stage_of(order_id) is RefundTransfer)
        &&& step.is_none() ==> self.same_as(pre)
        &&& step.is_some() ==> {
            let o = lookup(pre.orders(), order_id).unwrap();
            let balance = pre.stage_of(order_id)->RefundTransfer_0;
            &&& step.unwrap() == StepView::Done(
                refund_result(o, o.payer, balance, transferred),
            )
            &&& self.same_but(
                pre,
                order_id,
                after_refund(o, balance, transferred, now),
                Stage::Idle,
            )
        }
    }

    /// An engine without orders, whose first order will get id 0.
    pub fn new() -> (engine: Engine)
        ensures
            engine.wf(),
            engine.orders() == Seq::<OrderView>::empty(),
            engine.stages() == Seq::<Stage>::empty(),
            engine.next_id() == 0,
            engine.total() == 0,
    {
        Engine { store: OrderStore::new(), stages: Vec::new(), next_order_id: 0, total_orders: 0 }
    }

    /// The id that the next order will get.
    pub fn next_order_id(&self) -> (id: u64)
        ensures
            id == self.next_id(),
    {
        self.next_order_id
    }

    /// How many orders were created.
    pub fn total_orders(&self) -> (n: u64)
        ensures
            n == self.total(),
    {
        self.total_orders
    }

    /// The stage of the order with this id; `Idle` where there is none.
    pub fn stage(&self, id: u64) -> (stage: Stage)
        requires
            self.wf(),
        ensures
            stage == self.stage_of(id),
    {
        let (i, present) = self.store.position(id);
        if present {
            proof {
                lemma_index_of(self.store@, i as int);
            }
            self.stages[i]
        } else {
            Stage::Idle
        }
    }

    /// The order with this id, if there is one.
    pub fn get_payment_order(&self, id: u64) -> (found: Option<PaymentOrder>)
        requires
            self.wf(),
        ensures
            found.is_some() == holds(self.orders(), id),
            found.is_some() ==> lookup(self.orders(), id) == Some(found.unwrap()@)
                && found.unwrap().wf(),
            found.is_none() ==> lookup(self.orders(), id).is_none(),
    {
        self.store.get_payment_order(id)
    }

    /// Whether order `order_id` exists, is `Paid`, and was created by
    /// `payer`.
    pub fn check_payment_order(&self, payer: &Principal, order_id: u64) -> (paid: bool)
        requires
            self.wf(),
        ensures
            paid == match lookup(self.orders(), order_id) {
                Some(o) => o.status == PaymentStatus::Paid && o.payer == payer@,
                None => false,
            },
    {
        self.store.check_payment_order(payer, order_id)
    }

    /// Lists the orders of `caller`: their number, whether any lie beyond
    /// the requested page, and the entries of that page.
    pub fn limit_orders(&self, caller: &Principal, req: &QueryCommonReq) -> (out: (
        usize,
        bool,
        Vec<QueryOrder>,
    ))
        requires
            self.wf(),
        ensures
            out.0 == orders_of(self.orders(), caller@, req.sort).len(),
            out.1 == (out.0 > crate::store::page_start(req.page, req.size)
                + crate::helper_utils::page_params(req.page, req.size).1),
            out.2@.map_values(|q: QueryOrder| q@) == page_of(
                orders_of(self.orders(), caller@, req.sort),
                req.page,
                req.size,
            ).map_values(|o: OrderView| crate::order::listed(o)),
    {
        self.store.limit_orders(caller, req)
    }

    /// Writes an order and its stage back to where the order stands.
    fn put(&mut self, i: usize, order: PaymentOrder, stage: Stage)
        requires
            old(self).wf(),
            i < old(self).orders().len(),
            order@.id == old(self).orders()[i as int].id,
            order_sound(order@),
            stage_fits(order@, stage),
        ensures
            final(self).wf(),
            final(self).same_but(old(self), order@.id, order@, stage),
            final(self).orders() == old(self).orders().update(i as int, order@),
            final(self).stages() == old(self).stages().update(i as int, stage),
            order@ == old(self).orders()[i as int] ==> final(self).orders() == old(self).orders(),
    {
        let ghost before = self.store@;
        let ghost stages_before = self.stages@;
        let ghost o = order@;
        self.store.orders[i] = order;
        self.stages[i] = stage;
        proof {
            assert(self.store@ =~= before.update(i as int, o));
            assert(self.stages@ =~= stages_before.update(i as int, stage));
            assert forall|j: int| 0 <= j < before.len() && j != i implies before[j].id
                != o.id by {
                if j < i {
                    assert(before[j].id < before[i as int].id);
                } else {
                    assert(before[i as int].id < before[j].id);
                }
            }
            if o == before[i as int] {
                assert(self.store@ =~= before);
            }
            assert(self.store@ =~= rewritten(before, o.id, o));
            assert(self.stages@ =~= restaged(before, stages_before, o.id, stage));
            assert forall|a: int, b: int| 0 <= a < b < self.store@.len() implies self.store@[a].id
                < self.store@[b].id by {
                assert(self.store@[a].id == before[a].id);
                assert(self.store@[b].id == before[b].id);
            }
        }
    }

    /// Creates an order for `payer`: gives it the next id, stores it as
    /// `Unpaid`, created at `now`, with nothing paid, and counts it. Returns
    /// the deposit instructions, whose recipient is the subaccount derived
    /// from payer and id. Returns `None`, and changes nothing, only when a
    /// counter or the store has reached the largest value it can hold.
    pub fn create_order(
        &mut self,
        payer: Principal,
        source: String,
        token: String,
        amount: u64,
        payment_type: PaymentType,
        now: u64,
    ) -> (info: Option<PaymentInfo>)
        requires
            old(self).wf(),
            payer.wf(),
        ensures
            final(self).wf(),
            evolves(old(self).orders(), final(self).orders()),
            final(self).created(
                old(self),
                payer@,
                source@,
                token@,
                amount,
                payment_type@,
                now,
                match info {
                    Some(i) => Some(i@),
                    None => None,
                },
            ),
    {
        if self.next_order_id == u64::MAX || self.total_orders == u64::MAX || self.store.len()
            >= usize::MAX {
            return None;
        }
        let id = self.next_order_id;
        let ghost before = self.store@;
        let ghost fresh = OrderView::fresh(id, payer@, source@, token@, amount, payment_type@, now);
        assert(forall|j: int| 0 <= j < before.len() ==> (#[trigger] before[j]).id < id);
        let info = self.store.create_payment_order(
            id,
            payer,
            source,
            token,
            amount,
            payment_type,
            now,
        );
        self.stages.push(Stage::Idle);
        self.next_order_id = id + 1;
        self.total_orders = self.total_orders + 1;
        proof {
            assert(self.store@ == before.push(fresh));
            assert forall|i: int| 0 <= i < self.store@.len() implies {
                &&& (#[trigger] self.store@[i]).id < self.next_order_id
                &&& order_sound(self.store@[i])
                &&& stage_fits(self.store@[i], self.stages@[i])
            } by {
                if i < before.len() {
                    assert(self.store@[i] == before[i]);
                }
            }
            assert forall|i: int| 0 <= i < before.len() implies (#[trigger] before[i]).same_terms(
                self.store@[i],
            ) by {
                assert(self.store@[i] == before[i]);
            }
        }
        Some(info)
    }

    /// Starts the confirmation of an order at `now`.
    ///
    /// An unknown id gives `NotFound`. While another operation on the order
    /// is under way the answer is `Busy`. A `Paid` order gives success at
    /// once and nothing is changed or asked of the ledger. A `Refunded`
    /// order gives `AlreadyFinalized`; a `Verifying` or `TimedOut` one gives
    /// `NotYetPayable`. An `Unpaid` order past its deadline becomes
    /// `TimedOut`; one whose token has no ledger gives `UnsupportedToken`;
    /// any other becomes `Verifying`, and the step asks for the balance of
    /// its deposit subaccount.
    pub fn confirm_payment_order(&mut self, order_id: u64, now: u64) -> (step: Step)
        requires
            old(self).wf(),
        ensures
            final(self).wf(),
            evolves(old(self).orders(), final(self).orders()),
            final(self).confirm_begun(old(self), order_id, now, step@),
            final(self).touches(old(self), order_id),
    {
        let ghost orders_before = self.store@;
        let ghost stages_before = self.stages@;
        let (i, present) = self.store.position(order_id);
        if !present {
            return Step::Done(Err(PaymentError::NotFound));
        }
        proof {
            lemma_index_of(self.store@, i as int);
        }
        if self.stages[i] != Stage::Idle {
            return Step::Busy;
        }
        let mut order = self.store.orders[i].duplicate();
        let start = begin_verification(&mut order, now);
        let (step, stage) = match start {
            ConfirmStart::AlreadyPaid => (Step::Done(Ok(true)), Stage::Idle),
            ConfirmStart::Rejected(e) => (Step::Done(Err(e)), Stage::Idle),
            ConfirmStart::Expired => (Step::Done(Err(PaymentError::TimedOut)), Stage::Idle),
            ConfirmStart::Query(token) => {
                let subaccount = generate_order_subaccount(&order.payer, order.id);
                (Step::QueryBalance(BalanceQuery { token, subaccount }), Stage::ConfirmBalance)
            },
        };
        self.put(i, order, stage);
        proof {
            if !(start is Query) && !(start is Expired) {
                assert(self.store@ =~= orders_before);
                assert(self.stages@ =~= stages_before);
            }
        }
        step
    }
    /// Goes on with a confirmation that asked for a balance.
    ///
    /// Returns `None`, and changes nothing, unless the order waits for
    /// exactly this. Otherwise the order records the balance. A balance of
    /// zero, or below the amount, sends the order back to `Unpaid` and the
    /// confirmation ends with `InsufficientFunds`. Any other balance makes
    /// the order `Paid`, verified at `now`; then, if it paid more than the
    /// fee, the step asks for the transfer of the balance less the fee to
    /// the treasury, and if not, the order is marked as shared at once and
    /// the confirmation ends with success.
    pub fn confirm_with_balance(&mut self, order_id: u64, balance: u64, now: u64) -> (step: Option<
        Step,
    >)
        requires
            old(self).wf(),
        ensures
            final(self).wf(),
            evolves(old(self).orders(), final(self).orders()),
            final(self).balance_settled(old(self), order_id, balance, now, step_view(step)),
            final(self).touches(old(self), order_id),
    {
        let (i, present) = self.store.position(order_id);
        if !present {
            return None;
        }
        proof {
            lemma_index_of(self.store@, i as int);
        }
        if self.stages[i] != Stage::ConfirmBalance {
            return None;
        }
        let mut order = self.store.orders[i].duplicate();
        if !verify_payment_order(&mut order, balance, now) {
            self.put(i, order, Stage::Idle);
            return Some(Step::Done(Err(PaymentError::InsufficientFunds)));
        }
        let (step, stage) = match plan_share(&order) {
            SharePlan::Send(net) => match select_token(order.token.as_str()) {
                Some(token) => {
                    let from_subaccount = generate_order_subaccount(&order.payer, order.id);
                    let request = TransferRequest {
                        token,
                        from_subaccount,
                        to: Destination::Treasury,
                        amount: net,
                        fee: token.fee(),
                    };
                    (Step::Transfer(request), Stage::ShareTransfer)
                },
                None => (Step::Done(Ok(true)), Stage::Idle),
            },
            SharePlan::Dust => {
                share_pay(&mut order, false, now);
                (Step::Done(Ok(true)), Stage::Idle)
            },
            SharePlan::Skip => (Step::Done(Ok(true)), Stage::Idle),
        };
        self.put(i, order, stage);
        Some(step)
    }

    /// Ends a confirmation that asked for the transfer to the treasury.
    ///
    /// Returns `None`, and changes nothing, unless the order waits for
    /// exactly this. Otherwise the order is marked as shared at `now` if the
    /// transfer went through, and left as it is if not; the confirmation
    /// ends with success either way, since the payment itself was verified.
    pub fn confirm_with_transfer(&mut self, order_id: u64, transferred: bool, now: u64) -> (step:
        Option<Step>)
        requires
            old(self).wf(),
        ensures
            final(self).wf(),
            evolves(old(self).orders(), final(self).orders()),
            final(self).share_ended(old(self), order_id, transferred, now, step_view(step)),
            final(self).touches(old(self), order_id),
    {
        let (i, present) = self.store.position(order_id);
        if !present {
            return None;
        }
        proof {
            lemma_index_of(self.store@, i as int);
        }
        if self.stages[i] != Stage::ShareTransfer {
            return None;
        }
        let mut order = self.store.orders[i].duplicate();
        share_pay(&mut order, transferred, now);
        self.put(i, order, Stage::Idle);
        Some(Step::Done(Ok(true)))
    }

    /// Starts the refund of an order on behalf of `caller`.
    ///
    /// An unknown id gives `NotFound`. A caller other than the payer gives
    /// `Unauthorized`, whatever state the order is in. While another
    /// operation on the order is under way the answer is `Busy`. A `Paid` or
    /// `Refunded` order gives `AlreadyFinalized`, and one whose token has no
    /// ledger `UnsupportedToken`. Otherwise the step asks for the current
    /// balance of the deposit subaccount. The order itself is not changed.
    pub fn refund_payment_order(&mut self, order_id: u64, caller: &Principal) -> (step: Step)
        requires
            old(self).wf(),
        ensures
            final(self).wf(),
            evolves(old(self).orders(), final(self).orders()),
            final(self).refund_begun(old(self), order_id, caller@, step@),
            final(self).touches(old(self), order_id),
    {
        let (i, present) = self.store.position(order_id);
        if !present {
            return Step::Done(Err(PaymentError::NotFound));
        }
        proof {
            lemma_index_of(self.store@, i as int);
        }
        if !caller.same_as(&self.store.orders[i].payer) {
            return Step::Done(Err(PaymentError::Unauthorized));
        }
        if self.stages[i] != Stage::Idle {
            return Step::Busy;
        }
        let order = self.store.orders[i].duplicate();
        match check_refund(&order, caller) {
            Err(e) => {
                self.put(i, order, Stage::Idle);
                Step::Done(Err(e))
            },
            Ok(token) => {
                let subaccount = generate_order_subaccount(&order.payer, order.id);
                self.put(i, order, Stage::RefundBalance);
                Step::QueryBalance(BalanceQuery { token, subaccount })
            },
        }
    }

    /// Goes on with a refund that asked for a balance.
    ///
    /// Returns `None`, and changes nothing, unless the order waits for
    /// exactly this. A balance below the fee ends the refund with
    /// `InsufficientFunds`; a destination that names no account on the
    /// token's ledger ends it with `RemoteCallFailure`. Otherwise the step
    /// asks for the transfer of the balance less the fee to the destination.
    /// The order itself is not changed.
    pub fn refund_with_balance(&mut self, order_id: u64, to: Vec<u8>, balance: u64) -> (step:
        Option<Step>)
        requires
            old(self).wf(),
        ensures
            final(self).wf(),
            evolves(old(self).orders(), final(self).orders()),
            final(self).refund_planned(old(self), order_id, to@, balance, step_view(step)),
            final(self).touches(old(self), order_id),
    {
        let (i, present) = self.store.position(order_id);
        if !present {
            return None;
        }
        proof {
            lemma_index_of(self.store@, i as int);
        }
        if self.stages[i] != Stage::RefundBalance {
            return None;
        }
        let order = self.store.orders[i].duplicate();
        let token = match select_token(order.token.as_str()) {
            Some(token) => token,
            None => {
                self.put(i, order, Stage::Idle);
                return Some(Step::Done(Err(PaymentError::UnsupportedToken)));
            },
        };
        let amount = match plan_refund(&order, balance) {
            Ok(amount) => amount,
            Err(e) => {
                self.put(i, order, Stage::Idle);
                return Some(Step::Done(Err(e)));
            },
        };
        if !check_destination(token, &to) {
            self.put(i, order, Stage::Idle);
            return Some(Step::Done(Err(PaymentError::RemoteCallFailure)));
        }
        let from_subaccount = generate_order_subaccount(&order.payer, order.id);
        self.put(i, order, Stage::RefundTransfer(balance));
        Some(
            Step::Transfer(
                TransferRequest {
                    token,
                    from_subaccount,
                    to: Destination::Account(to),
                    amount,
                    fee: token.fee(),
                },
            ),
        )
    }

    /// Ends a refund that asked for a transfer.
    ///
    /// Returns `None`, and changes nothing, unless the order waits for
    /// exactly this. If the transfer went through, the order becomes
    /// `Refunded`, stamped with `now`, and records the balance that was
    /// found; the refund ends with success. If not, the order is left
    /// exactly as it was and the refund ends with `RemoteCallFailure`, so
    /// that it can be tried again.
    pub fn refund_with_transfer(&mut self, order_id: u64, transferred: bool, now: u64) -> (step:
        Option<Step>)
        requires
            old(self).wf(),
        ensures
            final(self).wf(),
            evolves(old(self).orders(), final(self).orders()),
            final(self).refund_ended(old(self), order_id, transferred, now, step_view(step)),
            final(self).touches(old(self), order_id),
    {
        let (i, present) = self.store.position(order_id);
        if !present {
            return None;
        }
        proof {
            lemma_index_of(self.store@, i as int);
        }
        let balance = match self.stages[i] {
            Stage::RefundTransfer(balance) => balance,
            _ => {
                return None;
            },
        };
        let mut order = self.store.orders[i].duplicate();
        let payer = order.payer.duplicate();
        let result = process_refund_payment_order(&mut order, &payer, balance, transferred, now);
        self.put(i, order, Stage::Idle);
        Some(Step::Done(result))
    }
    /// Rebuilds an engine from stored orders and counters, as after a
    /// restart. No operation is under way in the rebuilt engine. Returns
    /// `None` exactly when the orders cannot have come from an engine.
    pub fn restore(orders: Vec<PaymentOrder>, next_order_id: u64, total_orders: u64) -> (engine:
        Option<Engine>)
        ensures
            engine.is_some() == restorable(
                orders@.map_values(|o: PaymentOrder| o@),
                next_order_id,
            ),
            engine.is_some() ==> {
                &&& engine.unwrap().wf()
                &&& engine.unwrap().orders() == orders@.map_values(|o: PaymentOrder| o@)
                &&& engine.unwrap().stages() == Seq::new(
                    orders@.len(),
                    |i: int| Stage::Idle,
                )
                &&& engine.unwrap().next_id() == next_order_id
                &&& engine.unwrap().total() == total_orders
            },
    {
        let ghost s = orders@.map_values(|o: PaymentOrder| o@);
        let n = orders.len();
        let mut stages: Vec<Stage> = Vec::new();
        let mut i: usize = 0;
        while i < n
            invariant
                n == orders@.len(),
                s == orders@.map_values(|o: PaymentOrder| o@),
                i <= n,
                stages@ == Seq::new(i as nat, |k: int| Stage::Idle),
                forall|a: int, b: int| 0 <= a < b < i ==> s[a].id < s[b].id,
                forall|k: int| 0 <= k < i ==> (#[trigger] s[k]).id < next_order_id && order_sound(
                    s[k],
                ),
            decreases n - i,
        {
            let order = &orders[i];
            assert(order@ == s[i as int]);
            let sound = order.payer.as_slice().len() <= MAX_PRINCIPAL_LEN && (
            order.shared_time.is_none() || order.status == PaymentStatus::Paid);
            let rising = i == 0 || orders[i - 1].id < order.id;
            if !sound || !rising || order.id >= next_order_id {
                proof {
                    if !rising {
                        assert(s[i - 1].id >= s[i as int].id);
                    }
                }
                return None;
            }
            proof {
                assert forall|a: int, b: int| 0 <= a < b < i + 1 implies s[a].id < s[b].id by {
                    if b == i && a < i - 1 {
                        assert(s[a].id < s[i - 1].id);
                    }
                }
            }
            stages.push(Stage::Idle);
            assert(stages@ =~= Seq::new((i + 1) as nat, |k: int| Stage::Idle));
            i += 1;
        }
        let engine = Engine { store: OrderStore { orders }, stages, next_order_id, total_orders };
        Some(engine)
    }

    /// How many orders the engine holds.
    pub fn len(&self) -> (n: usize)
        ensures
            n == self.orders().len(),
    {
        self.store.len()
    }

    /// A copy of the order at an index of the store, counted by ascending
    /// id; `None` beyond the last order.
    pub fn order_at(&self, index: usize) -> (found: Option<PaymentOrder>)
        ensures
            found.is_some() == (index < self.orders().len()),
            found.is_some() ==> found.unwrap()@ == self.orders()[index as int],
    {
        if index < self.store.orders.len() {
            Some(self.store.orders[index].duplicate())
        } else {
            None
        }
    }
}

} // verus!
