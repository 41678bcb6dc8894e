//! The transitions of a single order. Each takes what the ledger answered
//! as a plain value, so every rule is stated for every possible answer.

use crate::error::PaymentError;
use crate::order::{OrderView, PaymentOrder, PaymentStatus};
use crate::payment::{get_token_fee, select_token, token_fee, token_profile, Token};
use crate::principal::Principal;
use vstd::prelude::*;

verus! {

/// How long after creation an order can still be paid: 15 minutes, in
/// nanoseconds.
pub const PAYMENT_WINDOW: u64 = 900_000_000_000;

/// The payment deadline of an order created at `created` has passed at `now`.
pub open spec fn deadline_passed(created: u64, now: u64) -> bool {
    now > created + PAYMENT_WINDOW
}

/// Whether the payment deadline has passed.
pub fn is_expired(created: u64, now: u64) -> (expired: bool)
    ensures
        expired == deadline_passed(created, now),
{
    now > created && now - created > PAYMENT_WINDOW
}

/// How a confirmation starts.
#[derive(Clone, Copy, Debug, PartialEq, Eq, Structural)]
pub enum ConfirmStart {
    /// The order is already `Paid`: success, nothing to do.
    AlreadyPaid,
    /// The order cannot be verified; it is left as it was.
    Rejected(PaymentError),
    /// The deadline has passed; the order is now `TimedOut`.
    Expired,
    /// The order is now `Verifying`; the balance must be queried on this
    /// token's ledger.
    Query(Token),
}

/// How a confirmation of `o` starts at `now`.
pub open spec fn confirm_start(o: OrderView, now: u64) -> ConfirmStart {
    match o.status {
        PaymentStatus::Paid => ConfirmStart::AlreadyPaid,
        PaymentStatus::Refunded => ConfirmStart::Rejected(PaymentError::AlreadyFinalized),
        PaymentStatus::Verifying => ConfirmStart::Rejected(PaymentError::NotYetPayable),
        PaymentStatus::TimedOut => ConfirmStart::Rejected(PaymentError::NotYetPayable),
        PaymentStatus::Unpaid => if deadline_passed(o.created_time, now) {
            ConfirmStart::Expired
        } else {
            match token_profile(o.token) {
                None => ConfirmStart::Rejected(PaymentError::UnsupportedToken),
                Some(token) => ConfirmStart::Query(token),
            }
        },
    }
}

/// The order after a confirmation has started.
pub open spec fn after_confirm_start(o: OrderView, now: u64) -> OrderView {
    match confirm_start(o, now) {
        ConfirmStart::Expired => OrderView { status: PaymentStatus::TimedOut, ..o },
        ConfirmStart::Query(_) => OrderView { status: PaymentStatus::Verifying, ..o },
        _ => o,
    }
}

/// A balance that pays for the order: not zero and at least the amount.
pub open spec fn covers(balance: u64, amount: u64) -> bool {
    balance != 0 && balance >= amount
}

/// The order after its balance was observed. Only a `Verifying` order
/// changes: it becomes `Paid`, stamped with `now`, when the balance covers
/// the amount, and goes back to `Unpaid` otherwise; either way it records
/// the balance.
pub open spec fn after_balance(o: OrderView, balance: u64, now: u64) -> OrderView {
    if o.status != PaymentStatus::Verifying {
        o
    } else if covers(balance, o.amount) {
        OrderView {
            amount_paid: balance,
            status: PaymentStatus::Paid,
            verified_time: Some(now),
            ..o
        }
    } else {
        OrderView { amount_paid: balance, status: PaymentStatus::Unpaid, ..o }
    }
}

/// What is to be done with the proceeds of an order.
#[derive(Clone, Copy, Debug, PartialEq, Eq, Structural)]
pub enum SharePlan {
    /// Not `Paid`, or already shared: nothing.
    Skip,
    /// Paid no more than the fee: mark as shared without a transfer.
    Dust,
    /// Transfer this net amount to the treasury.
    Send(u64),
}

/// What is to be done with the proceeds of `o`.
pub open spec fn share_plan(o: OrderView) -> SharePlan {
    if o.status != PaymentStatus::Paid || o.shared_time.is_some() {
        SharePlan::Skip
    } else if o.amount_paid <= token_fee(o.token) {
        SharePlan::Dust
    } else {
        SharePlan::Send((o.amount_paid - token_fee(o.token)) as u64)
    }
}

/// The order after the sharing step, where `transferred` says whether the
/// transfer to the treasury went through.
pub open spec fn after_share(o: OrderView, transferred: bool, now: u64) -> OrderView {
    match share_plan(o) {
        SharePlan::Skip => o,
        SharePlan::Dust => OrderView { shared_time: Some(now), ..o },
        SharePlan::Send(_) => if transferred {
            OrderView { shared_time: Some(now), ..o }
        } else {
            o
        },
    }
}

/// Whether `caller` may have `o` refunded: the token whose ledger holds
/// the deposit, or the reason why not. The caller must be the payer, the
/// order neither `Paid` nor `Refunded`, and its token must have a ledger.
pub open spec fn refund_check(o: OrderView, caller: Seq<u8>) -> Result<Token, PaymentError> {
    if caller != o.payer {
        Err(PaymentError::Unauthorized)
    } else if o.status == PaymentStatus::Paid || o.status == PaymentStatus::Refunded {
        Err(PaymentError::AlreadyFinalized)
    } else {
        match token_profile(o.token) {
            None => Err(PaymentError::UnsupportedToken),
            Some(token) => Ok(token),
        }
    }
}

/// The amount to send back from a balance: the balance less the fee, when
/// the balance covers the fee.
pub open spec fn refund_amount(o: OrderView, balance: u64) -> Result<u64, PaymentError> {
    if balance < token_fee(o.token) {
        Err(PaymentError::InsufficientFunds)
    } else {
        Ok((balance - token_fee(o.token)) as u64)
    }
}

/// The result of the last refund step.
pub open spec fn refund_result(
    o: OrderView,
    caller: Seq<u8>,
    balance: u64,
    transferred: bool,
) -> Result<bool, PaymentError> {
    match refund_check(o, caller) {
        Err(e) => Err(e),
        Ok(_) => match refund_amount(o, balance) {
            Err(e) => Err(e),
            Ok(_) => if transferred {
                Ok(true)
            } else {
                Err(PaymentError::RemoteCallFailure)
            },
        },
    }
}

/// The order after a refund that went through.
pub open spec fn refunded(o: OrderView, balance: u64, now: u64) -> OrderView {
    OrderView {
        amount_paid: balance,
        status: PaymentStatus::Refunded,
        verified_time: Some(now),
        ..o
    }
}

/// Starts a confirmation: decides from the order's status and age what
/// happens, and writes `Verifying` or `TimedOut` into the order where the
/// decision calls for it.
pub fn begin_verification(order: &mut PaymentOrder, now: u64) -> (start: ConfirmStart)
    ensures
        start == confirm_start(old(order)@, now),
        final(order)@ == after_confirm_start(old(order)@, now),
        final(order).wf() == old(order).wf(),
{
    match order.status {
        PaymentStatus::Paid => ConfirmStart::AlreadyPaid,
        PaymentStatus::Refunded => ConfirmStart::Rejected(PaymentError::AlreadyFinalized),
        PaymentStatus::Verifying => ConfirmStart::Rejected(PaymentError::NotYetPayable),
        PaymentStatus::TimedOut => ConfirmStart::Rejected(PaymentError::NotYetPayable),
        PaymentStatus::Unpaid => {
            if is_expired(order.created_time, now) {
                order.status = PaymentStatus::TimedOut;
                ConfirmStart::Expired
            } else {
                match select_token(order.token.as_str()) {
                    None => ConfirmStart::Rejected(PaymentError::UnsupportedToken),
                    Some(token) => {
                        order.status = PaymentStatus::Verifying;
                        ConfirmStart::Query(token)
                    },
                }
            }
        },
    }
}

/// Records the balance observed at the order's deposit subaccount and
/// settles a `Verifying` order: `Paid` when the balance covers the amount,
/// back to `Unpaid` otherwise. Returns whether the order is `Paid` now.
pub fn verify_payment_order(order: &mut PaymentOrder, balance: u64, now: u64) -> (verified: bool)
    ensures
        final(order)@ == after_balance(old(order)@, balance, now),
        verified == (final(order)@.status == PaymentStatus::Paid),
        final(order).wf() == old(order).wf(),
{
    match order.status {
        PaymentStatus::Verifying => {
            order.amount_paid = balance;
            if balance == 0 || balance < order.amount {
                order.status = PaymentStatus::Unpaid;
                false
            } else {
                order.status = PaymentStatus::Paid;
                order.verified_time = Some(now);
                true
            }
        },
        PaymentStatus::Paid => true,
        _ => false,
    }
}

/// Decides what to do with the proceeds of an order.
pub fn plan_share(order: &PaymentOrder) -> (plan: SharePlan)
    ensures
        plan == share_plan(order@),
{
    if order.status != PaymentStatus::Paid || order.shared_time.is_some() {
        return SharePlan::Skip;
    }
    let fee = get_token_fee(order.token.as_str());
    if order.amount_paid <= fee {
        SharePlan::Dust
    } else {
        SharePlan::Send(order.amount_paid - fee)
    }
}

/// Finishes the sharing step. A dust order is marked as shared; an order
/// whose proceeds were to be sent is marked only when the transfer went
/// through. Returns whether the order was marked.
pub fn share_pay(order: &mut PaymentOrder, transferred: bool, now: u64) -> (shared: bool)
    ensures
        final(order)@ == after_share(old(order)@, transferred, now),
        shared == (share_plan(old(order)@) != SharePlan::Skip && final(order)@.shared_time
            == Some(now)),
        final(order).wf() == old(order).wf(),
{
    match plan_share(order) {
        SharePlan::Skip => false,
        SharePlan::Dust => {
            order.shared_time = Some(now);
            true
        },
        SharePlan::Send(_) => {
            if transferred {
                order.shared_time = Some(now);
                true
            } else {
                false
            }
        },
    }
}

/// Checks that `caller` may have the order refunded: the caller is the
/// payer, the order is neither `Paid` nor `Refunded`, and its token has a
/// ledger. Returns that token.
pub fn check_refund(order: &PaymentOrder, caller: &Principal) -> (checked: Result<
    Token,
    PaymentError,
>)
    ensures
        checked == refund_check(order@, caller@),
{
    if !caller.same_as(&order.payer) {
        Err(PaymentError::Unauthorized)
    } else if order.status == PaymentStatus::Paid || order.status == PaymentStatus::Refunded {
        Err(PaymentError::AlreadyFinalized)
    } else {
        match select_token(order.token.as_str()) {
            None => Err(PaymentError::UnsupportedToken),
            Some(token) => Ok(token),
        }
    }
}

/// The amount to send back to the payer from the balance found at the
/// deposit subaccount.
pub fn plan_refund(order: &PaymentOrder, balance: u64) -> (amount: Result<u64, PaymentError>)
    ensures
        amount == refund_amount(order@, balance),
{
    let fee = get_token_fee(order.token.as_str());
    if balance < fee {
        Err(PaymentError::InsufficientFunds)
    } else {
        Ok(balance - fee)
    }
}

/// Finishes a refund, where `transferred` says whether the transfer to the
/// destination went through. On success the order becomes `Refunded`,
/// stamped with `now`, and records the balance; on any failure it is left
/// exactly as it was.
pub fn process_refund_payment_order(
    order: &mut PaymentOrder,
    caller: &Principal,
    balance: u64,
    transferred: bool,
    now: u64,
) -> (result: Result<bool, PaymentError>)
    ensures
        result == refund_result(old(order)@, caller@, balance, transferred),
        result.is_ok() ==> final(order)@ == refunded(old(order)@, balance, now),
        result.is_err() ==> final(order)@ == old(order)@,
        final(order).wf() == old(order).wf(),
{
    if let Err(e) = check_refund(order, caller) {
        return Err(e);
    }
    if let Err(e) = plan_refund(order, balance) {
        return Err(e);
    }
    if !transferred {
        return Err(PaymentError::RemoteCallFailure);
    }
    order.amount_paid = balance;
    order.status = PaymentStatus::Refunded;
    order.verified_time = Some(now);
    Ok(true)
}

} // verus!
