//! What a lifecycle operation can report instead of success.

use vstd::prelude::*;

verus! {

/// Why an operation on a payment order did not succeed. Every variant is
/// reported to the caller; the engine retries nothing by itself.
#[derive(Clone, Copy, Debug, PartialEq, Eq, Structural)]
pub enum PaymentError {
    /// No order has this id.
    NotFound,
    /// The caller is not the order's payer.
    Unauthorized,
    /// The order is already `Paid` or `Refunded`.
    AlreadyFinalized,
    /// The order is `Verifying` or `TimedOut` and is not verified again.
    NotYetPayable,
    /// The payment deadline has passed.
    TimedOut,
    /// The balance is below the requested amount, or below the fee.
    InsufficientFunds,
    /// The order names a token without a configured ledger.
    UnsupportedToken,
    /// The ledger could not be reached or rejected the call.
    RemoteCallFailure,
}

impl PaymentError {
    /// A sentence for the caller.
    pub fn message(&self) -> (text: String)
        ensures
            text@ == self.message_text(),
    {
        match self {
            PaymentError::NotFound => "Order not found".to_owned(),
            PaymentError::Unauthorized => "Caller is not the owner of the order".to_owned(),
            PaymentError::AlreadyFinalized => "Order is already paid or refunded".to_owned(),
            PaymentError::NotYetPayable => "Order cannot be verified in its current state".to_owned(),
            PaymentError::TimedOut => "Order payment deadline has passed".to_owned(),
            PaymentError::InsufficientFunds => "Insufficient funds".to_owned(),
            PaymentError::UnsupportedToken => "Unsupported token".to_owned(),
            PaymentError::RemoteCallFailure => "Ledger call failed".to_owned(),
        }
    }

    /// The text of `message` for each variant.
    pub open spec fn message_text(&self) -> Seq<char> {
        match self {
            PaymentError::NotFound => "Order not found"@,
            PaymentError::Unauthorized => "Caller is not the owner of the order"@,
            PaymentError::AlreadyFinalized => "Order is already paid or refunded"@,
            PaymentError::NotYetPayable => "Order cannot be verified in its current state"@,
            PaymentError::TimedOut => "Order payment deadline has passed"@,
            PaymentError::InsufficientFunds => "Insufficient funds"@,
            PaymentError::UnsupportedToken => "Unsupported token"@,
            PaymentError::RemoteCallFailure => "Ledger call failed"@,
        }
    }
}

} // verus!
