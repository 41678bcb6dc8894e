//! Token profiles: which tokens have a ledger, and what a transfer costs.

use crate::digest::account_identifier_accepts;
use crate::helper_utils::valid_account_bytes;
use crate::principal::MAX_PRINCIPAL_LEN;
use vstd::prelude::*;

verus! {

/// Transfer fee of the first token profile, in its smallest unit.
pub const ICP_FEE: u64 = 10_000;

/// Transfer fee of the second token profile, in its smallest unit.
pub const CKBTC_FEE: u64 = 10;

/// A token with a configured ledger.
#[derive(Clone, Copy, Debug, PartialEq, Eq, Structural)]
pub enum Token {
    Icp,
    Ckbtc,
}

/// The token profile that a symbol selects, if any.
pub open spec fn token_profile(symbol: Seq<char>) -> Option<Token> {
    if symbol == "ICP"@ {
        Some(Token::Icp)
    } else if symbol == "CKBTC"@ {
        Some(Token::Ckbtc)
    } else {
        None
    }
}

/// The fixed transfer fee of a token symbol; 0 for a symbol without a
/// profile.
pub open spec fn token_fee(symbol: Seq<char>) -> u64 {
    match token_profile(symbol) {
        Some(Token::Icp) => ICP_FEE,
        Some(Token::Ckbtc) => CKBTC_FEE,
        None => 0,
    }
}

/// Selects the token profile of a symbol: `ICP` or `CKBTC`. Any other
/// symbol has none.
pub fn select_token(symbol: &str) -> (profile: Option<Token>)
    ensures
        profile == token_profile(symbol@),
{
    let owned = symbol.to_owned();
    if owned == "ICP".to_owned() {
        Some(Token::Icp)
    } else if owned == "CKBTC".to_owned() {
        Some(Token::Ckbtc)
    } else {
        None
    }
}

/// The fixed transfer fee of a token.
pub fn get_token_fee(token: &str) -> (fee: u64)
    ensures
        fee == token_fee(token@),
{
    match select_token(token) {
        Some(Token::Icp) => ICP_FEE,
        Some(Token::Ckbtc) => CKBTC_FEE,
        None => 0,
    }
}

impl Token {
    /// The fixed transfer fee on this token's ledger.
    pub open spec fn fee_spec(self) -> u64 {
        match self {
            Token::Icp => ICP_FEE,
            Token::Ckbtc => CKBTC_FEE,
        }
    }

    /// The fixed transfer fee on this token's ledger.
    pub fn fee(self) -> (fee: u64)
        ensures
            fee == self.fee_spec(),
    {
        match self {
            Token::Icp => ICP_FEE,
            Token::Ckbtc => CKBTC_FEE,
        }
    }
}

/// Where a transfer goes.
#[derive(Debug)]
pub enum Destination {
    /// The service's own default account, without a subaccount.
    Treasury,
    /// An account given by the caller, as raw bytes.
    Account(Vec<u8>),
}

impl View for Destination {
    type V = Option<Seq<u8>>;

    open spec fn view(&self) -> Option<Seq<u8>> {
        match self {
            Destination::Treasury => None,
            Destination::Account(bytes) => Some(bytes@),
        }
    }
}

/// A balance query for the ledger client to perform.
#[derive(Debug)]
pub struct BalanceQuery {
    pub token: Token,
    pub subaccount: Vec<u8>,
}

/// A transfer for the ledger client to perform.
#[derive(Debug)]
pub struct TransferRequest {
    pub token: Token,
    pub from_subaccount: Vec<u8>,
    pub to: Destination,
    pub amount: u64,
    pub fee: u64,
}

/// Raw bytes that name an account on a token's ledger: an account
/// identifier on the first, an owner of at most 29 bytes on the second.
pub open spec fn destination_ok(token: Token, to: Seq<u8>) -> bool {
    match token {
        Token::Icp => valid_account_bytes(to),
        Token::Ckbtc => to.len() <= MAX_PRINCIPAL_LEN,
    }
}

/// Whether the bytes name an account on the token's ledger.
pub fn check_destination(token: Token, to: &Vec<u8>) -> (ok: bool)
    ensures
        ok == destination_ok(token, to@),
{
    match token {
        Token::Icp => account_identifier_accepts(to),
        Token::Ckbtc => to.len() <= MAX_PRINCIPAL_LEN,
    }
}

} // verus!
