//! Payment orders, their status graph, and the read-only projections that
//! are handed to callers.

use crate::helper_utils::{generate_order_subaccount, order_subaccount};
use crate::principal::Principal;
use vstd::prelude::*;

verus! {

/// Where an order stands in its lifecycle.
#[derive(Clone, Copy, Debug, PartialEq, Eq, Structural)]
pub enum PaymentStatus {
    Unpaid,
    Verifying,
    Paid,
    TimedOut,
    Refunded,
}

/// One edge of the status graph: `Unpaid -> Verifying`,
/// `Verifying -> Paid`, `Verifying -> Unpaid`, `Unpaid | Verifying ->
/// TimedOut`, and `Unpaid | Verifying | TimedOut -> Refunded`.
pub open spec fn status_edge(from: PaymentStatus, to: PaymentStatus) -> bool {
    match (from, to) {
        (PaymentStatus::Unpaid, PaymentStatus::Verifying) => true,
        (PaymentStatus::Verifying, PaymentStatus::Paid) => true,
        (PaymentStatus::Verifying, PaymentStatus::Unpaid) => true,
        (PaymentStatus::Unpaid, PaymentStatus::TimedOut) => true,
        (PaymentStatus::Verifying, PaymentStatus::TimedOut) => true,
        (PaymentStatus::Unpaid, PaymentStatus::Refunded) => true,
        (PaymentStatus::Verifying, PaymentStatus::Refunded) => true,
        (PaymentStatus::TimedOut, PaymentStatus::Refunded) => true,
        _ => false,
    }
}

/// What one operation may do to a status: leave it, or follow one edge.
pub open spec fn status_step(from: PaymentStatus, to: PaymentStatus) -> bool {
    from == to || status_edge(from, to)
}

/// A price quoted for a resource: token symbol and amount.
#[derive(Debug)]
pub struct TokenPrice {
    pub token_name: String,
    pub price: u64,
}

/// The price schedule an order was created under.
#[derive(Debug)]
pub enum PaymentType {
    /// The price for creating a space.
    CreationPrice(TokenPrice),
}

/// The mathematical content of a price schedule.
pub struct PaymentTypeView {
    pub token_name: Seq<char>,
    pub price: u64,
}

impl View for PaymentType {
    type V = PaymentTypeView;

    open spec fn view(&self) -> PaymentTypeView {
        match self {
            PaymentType::CreationPrice(p) => PaymentTypeView {
                token_name: p.token_name@,
                price: p.price,
            },
        }
    }
}

impl PaymentType {
    /// A copy of this price schedule.
    pub fn duplicate(&self) -> (out: PaymentType)
        ensures
            out@ == self@,
    {
        match self {
            PaymentType::CreationPrice(p) => PaymentType::CreationPrice(
                TokenPrice { token_name: p.token_name.clone(), price: p.price },
            ),
        }
    }
}

/// A payment order. Orders are never deleted: they only change status.
#[derive(Debug)]
pub struct PaymentOrder {
    pub id: u64,
    pub payer: Principal,
    pub amount: u64,
    pub payment_type: PaymentType,
    pub source: String,
    pub token: String,
    pub amount_paid: u64,
    pub status: PaymentStatus,
    pub verified_time: Option<u64>,
    pub shared_time: Option<u64>,
    pub created_time: u64,
}

/// The mathematical content of a payment order.
pub struct OrderView {
    pub id: u64,
    pub payer: Seq<u8>,
    pub amount: u64,
    pub payment_type: PaymentTypeView,
    pub source: Seq<char>,
    pub token: Seq<char>,
    pub amount_paid: u64,
    pub status: PaymentStatus,
    pub verified_time: Option<u64>,
    pub shared_time: Option<u64>,
    pub created_time: u64,
}

impl View for PaymentOrder {
    type V = OrderView;

    open spec fn view(&self) -> OrderView {
        OrderView {
            id: self.id,
            payer: self.payer@,
            amount: self.amount,
            payment_type: self.payment_type@,
            source: self.source@,
            token: self.token@,
            amount_paid: self.amount_paid,
            status: self.status,
            verified_time: self.verified_time,
            shared_time: self.shared_time,
            created_time: self.created_time,
        }
    }
}

impl OrderView {
    /// What never changes after creation is the same in both orders.
    pub open spec fn same_terms(self, other: OrderView) -> bool {
        &&& self.id == other.id
        &&& self.payer == other.payer
        &&& self.amount == other.amount
        &&& self.payment_type == other.payment_type
        &&& self.source == other.source
        &&& self.token == other.token
        &&& self.created_time == other.created_time
    }

    /// The order as it is right after creation.
    pub open spec fn fresh(
        id: u64,
        payer: Seq<u8>,
        source: Seq<char>,
        token: Seq<char>,
        amount: u64,
        payment_type: PaymentTypeView,
        now: u64,
    ) -> OrderView {
        OrderView {
            id,
            payer,
            amount,
            payment_type,
            source,
            token,
            amount_paid: 0,
            status: PaymentStatus::Unpaid,
            verified_time: None,
            shared_time: None,
            created_time: now,
        }
    }

    /// The deposit subaccount of this order, derived from payer and id.
    pub open spec fn deposit_account(self) -> Seq<u8> {
        order_subaccount(self.payer, self.id)
    }
}

impl PaymentOrder {
    /// The payer's identity is well formed.
    pub open spec fn wf(&self) -> bool {
        self.payer.wf()
    }

    /// A copy of this order.
    pub fn duplicate(&self) -> (out: PaymentOrder)
        ensures
            out@ == self@,
            out.wf() == self.wf(),
    {
        PaymentOrder {
            id: self.id,
            payer: self.payer.duplicate(),
            amount: self.amount,
            payment_type: self.payment_type.duplicate(),
            source: self.source.clone(),
            token: self.token.clone(),
            amount_paid: self.amount_paid,
            status: self.status,
            verified_time: self.verified_time,
            shared_time: self.shared_time,
            created_time: self.created_time,
        }
    }
}

/// Deposit instructions returned when an order is created.
#[derive(Debug)]
pub struct PaymentInfo {
    pub id: u64,
    pub recipient: Vec<u8>,
    pub token: String,
    pub amount: u64,
    pub payment_type: PaymentType,
    pub created_time: u64,
}

/// The mathematical content of deposit instructions.
pub struct PaymentInfoView {
    pub id: u64,
    pub recipient: Seq<u8>,
    pub token: Seq<char>,
    pub amount: u64,
    pub payment_type: PaymentTypeView,
    pub created_time: u64,
}

impl View for PaymentInfo {
    type V = PaymentInfoView;

    open spec fn view(&self) -> PaymentInfoView {
        PaymentInfoView {
            id: self.id,
            recipient: self.recipient@,
            token: self.token@,
            amount: self.amount,
            payment_type: self.payment_type@,
            created_time: self.created_time,
        }
    }
}

/// The deposit instructions for an order: where to pay, what, and how much.
pub open spec fn instructions(o: OrderView) -> PaymentInfoView {
    PaymentInfoView {
        id: o.id,
        recipient: o.deposit_account(),
        token: o.token,
        amount: o.amount,
        payment_type: o.payment_type,
        created_time: o.created_time,
    }
}

/// An order as a listing shows it: every field of the order and the
/// deposit subaccount derived for it.
#[derive(Debug)]
pub struct QueryOrder {
    pub id: u64,
    pub payer: Principal,
    pub amount: u64,
    pub payment_type: PaymentType,
    pub source: String,
    pub token: String,
    pub amount_paid: u64,
    pub status: PaymentStatus,
    pub verified_time: Option<u64>,
    pub shared_time: Option<u64>,
    pub created_time: u64,
    pub recipient: Vec<u8>,
}

/// The mathematical content of a listed order.
pub struct QueryOrderView {
    pub order: OrderView,
    pub recipient: Seq<u8>,
}

impl View for QueryOrder {
    type V = QueryOrderView;

    open spec fn view(&self) -> QueryOrderView {
        QueryOrderView {
            order: OrderView {
                id: self.id,
                payer: self.payer@,
                amount: self.amount,
                payment_type: self.payment_type@,
                source: self.source@,
                token: self.token@,
                amount_paid: self.amount_paid,
                status: self.status,
                verified_time: self.verified_time,
                shared_time: self.shared_time,
                created_time: self.created_time,
            },
            recipient: self.recipient@,
        }
    }
}

/// How an order is listed: the order itself with its derived deposit
/// subaccount.
pub open spec fn listed(order: OrderView) -> QueryOrderView {
    QueryOrderView { order, recipient: order.deposit_account() }
}

impl QueryOrder {
    /// The projection of an order with the subaccount given for it.
    pub fn from_payment_order(order: PaymentOrder, recipient: Vec<u8>) -> (out: QueryOrder)
        ensures
            out@.order == order@,
            out@.recipient == recipient@,
    {
        QueryOrder {
            id: order.id,
            payer: order.payer,
            amount: order.amount,
            payment_type: order.payment_type,
            source: order.source,
            token: order.token,
            amount_paid: order.amount_paid,
            status: order.status,
            verified_time: order.verified_time,
            shared_time: order.shared_time,
            created_time: order.created_time,
            recipient,
        }
    }

    /// The listing entry of an order, with its deposit subaccount derived
    /// again from payer and id.
    pub fn of_order(order: &PaymentOrder) -> (out: QueryOrder)
        ensures
            out@ == listed(order@),
    {
        let recipient = generate_order_subaccount(&order.payer, order.id);
        QueryOrder::from_payment_order(order.duplicate(), recipient)
    }
}

/// The order of a listing.
#[derive(Clone, Copy, Debug, PartialEq, Eq, Structural)]
pub enum QuerySort {
    /// Oldest order first.
    TimeAsc,
    /// Newest order first.
    TimeDesc,
}

/// A listing request: page number from 1, page size, and order.
#[derive(Clone, Copy, Debug)]
pub struct QueryCommonReq {
    pub page: usize,
    pub size: usize,
    pub sort: QuerySort,
}

} // verus!
