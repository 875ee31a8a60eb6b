//! Raw input rows and output snapshot rows, as plain data.
//!
//! These are the shapes exchanged with the record source and the record
//! sink; reading and writing them is the caller's business. Amounts arrive
//! as raw decimals and are validated into monetary values by
//! `Transaction::try_from`.

use crate::account::Account;
use crate::money::MonetaryValue;
use rust_decimal::Decimal;
use vstd::prelude::*;

verus! {

/// The textual tag of a raw transaction record.
#[derive(Debug, PartialEq, Eq, Structural, Clone, Copy)]
pub enum TransactionKind {
    Deposit,
    Withdrawal,
    Dispute,
    Resolve,
    Chargeback,
}

/// One raw row of the input stream. The amount is required for deposits and
/// withdrawals and informational at best otherwise.
#[derive(Debug, Clone, Copy)]
pub struct TransactionRow {
    pub kind: TransactionKind,
    pub amount: Option<Decimal>,
    pub client: u16,
    pub tx: u32,
}

/// One output snapshot row: the final state of one client's account,
/// with the total carried redundantly alongside its two components.
#[derive(Debug, PartialEq, Eq, Structural, Clone, Copy)]
pub struct Output {
    pub client: u16,
    pub available: MonetaryValue,
    pub held: MonetaryValue,
    pub total: MonetaryValue,
    pub locked: bool,
}

impl Output {
    /// Builds the snapshot row of an account. The reported total is exactly
    /// the sum of the available and held funds.
    pub fn from(account: Account) -> (r: Output)
        requires
            account.wf(),
        ensures
            r.client == account.client_id.0,
            r.available == account.available,
            r.held == account.held,
            r.locked == account.locked,
            r.total@ == account.available@ + account.held@,
    {
        let total = match account.available.overdrawing_add(account.held) {
            Ok(t) => t,
            Err(_) => { proof { assert(false); } account.available },
        };
        Output {
            client: account.client_id.0,
            available: account.available,
            held: account.held,
            total,
            locked: account.locked,
        }
    }
}

} // verus!
