//! Per-client account state and the transactions that mutate it.

use crate::decimal::{mantissa_of, scale_of};
use crate::money::{from_units, units_of, MonetaryValue, TransactionError, MAX_UNITS};
use crate::records::TransactionRow;
use vstd::prelude::*;

verus! {

broadcast use crate::money::lemma_value_non_negative, crate::money::lemma_from_units_view;

/// Identifies one client; the key under which account state is kept.
#[derive(Debug, PartialEq, Eq, Structural, Hash, PartialOrd, Clone, Copy)]
pub struct ClientId(pub u16);

impl From<u16> for ClientId {
    fn from(value: u16) -> (r: Self) {
        ClientId(value)
    }
}

impl vstd::std_specs::convert::FromSpecImpl<u16> for ClientId {
    open spec fn obeys_from_spec() -> bool {
        true
    }

    open spec fn from_spec(v: u16) -> ClientId {
        ClientId(v)
    }
}

impl From<ClientId> for u16 {
    fn from(id: ClientId) -> (r: u16) {
        id.0
    }
}

impl vstd::std_specs::convert::FromSpecImpl<ClientId> for u16 {
    open spec fn obeys_from_spec() -> bool {
        true
    }

    open spec fn from_spec(id: ClientId) -> u16 {
        id.0
    }
}

impl Default for ClientId {
    /// The default client id is zero.
    fn default() -> (r: Self)
        ensures
            r == ClientId(0),
    {
        ClientId(0)
    }
}

/// Identifies one transaction within a client's history.
#[derive(Debug, PartialEq, Eq, Structural, Clone, Copy)]
pub struct TransactionId(pub u32);

impl From<u32> for TransactionId {
    fn from(value: u32) -> (r: Self) {
        TransactionId(value)
    }
}

impl vstd::std_specs::convert::FromSpecImpl<u32> for TransactionId {
    open spec fn obeys_from_spec() -> bool {
        true
    }

    open spec fn from_spec(v: u32) -> TransactionId {
        TransactionId(v)
    }
}

impl Default for TransactionId {
    /// The default transaction id is zero.
    fn default() -> (r: Self)
        ensures
            r == TransactionId(0),
    {
        TransactionId(0)
    }
}

/// Any type of transaction that can happen within the system.
#[derive(Debug, PartialEq, Eq, Structural, Clone, Copy)]
pub enum TransactionKind {
    /// A credit to the client's asset account.
    Deposit(MonetaryValue),
    /// A debit to the client's asset account.
    Withdrawal(MonetaryValue),
    /// A client's claim that a transaction was erroneous and should be reversed.
    Dispute,
    /// A resolution to a dispute, releasing the associated held funds.
    Resolve,
    /// The final state of a dispute that represents the client reversing a transaction.
    Chargeback,
}

/// Represents an arbitrary transaction.
#[derive(Debug, PartialEq, Eq, Structural, Clone, Copy)]
pub struct Transaction {
    pub id: TransactionId,
    pub kind: TransactionKind,
}

impl Transaction {
    /// A transaction is well formed when the amount it carries, if any,
    /// is a well-formed monetary value.
    pub open spec fn wf(&self) -> bool {
        match self.kind {
            TransactionKind::Deposit(a) => a.wf(),
            TransactionKind::Withdrawal(a) => a.wf(),
            _ => true,
        }
    }

    pub fn new(id: u32, kind: TransactionKind) -> (r: Self)
        ensures
            r == (Transaction { id: TransactionId(id), kind }),
    {
        Transaction { id: TransactionId(id), kind }
    }

    /// Validates one raw record into a transaction: a deposit or withdrawal
    /// must carry an amount, and that amount must be a valid (non-negative)
    /// monetary value; the three dispute-lifecycle kinds carry none.
    pub fn try_from(row: TransactionRow) -> (r: Result<Transaction, TransactionError>)
        ensures
            row.kind is Dispute ==> r == Ok::<Transaction, TransactionError>(
                Transaction { id: TransactionId(row.tx), kind: TransactionKind::Dispute },
            ),
            row.kind is Resolve ==> r == Ok::<Transaction, TransactionError>(
                Transaction { id: TransactionId(row.tx), kind: TransactionKind::Resolve },
            ),
            row.kind is Chargeback ==> r == Ok::<Transaction, TransactionError>(
                Transaction { id: TransactionId(row.tx), kind: TransactionKind::Chargeback },
            ),
            (row.kind is Deposit || row.kind is Withdrawal) && row.amount is None ==> r
                == Err::<Transaction, TransactionError>(TransactionError::MissingAmount),
            row.kind is Deposit ==> (row.amount matches Some(d) ==> ({
                let u = units_of(mantissa_of(d) as int, scale_of(d) as nat);
                &&& mantissa_of(d) >= 0 ==> r == Ok::<Transaction, TransactionError>(
                    Transaction {
                        id: TransactionId(row.tx),
                        kind: TransactionKind::Deposit(from_units(u)),
                    },
                )
                &&& mantissa_of(d) < 0 ==> r == Err::<Transaction, TransactionError>(
                    TransactionError::NegativeBalance(u as i128),
                )
            })),
            row.kind is Withdrawal ==> (row.amount matches Some(d) ==> ({
                let u = units_of(mantissa_of(d) as int, scale_of(d) as nat);
                &&& mantissa_of(d) >= 0 ==> r == Ok::<Transaction, TransactionError>(
                    Transaction {
                        id: TransactionId(row.tx),
                        kind: TransactionKind::Withdrawal(from_units(u)),
                    },
                )
                &&& mantissa_of(d) < 0 ==> r == Err::<Transaction, TransactionError>(
                    TransactionError::NegativeBalance(u as i128),
                )
            })),
            r matches Ok(t) ==> t.wf() && t.id == TransactionId(row.tx),
            r matches Err(e) ==> e == TransactionError::MissingAmount || (
            e matches TransactionError::NegativeBalance(_)),
    {
        let kind = match row.kind {
            crate::records::TransactionKind::Deposit => {
                match row.amount {
                    None => { return Err(TransactionError::MissingAmount); },
                    Some(raw) => {
                        match MonetaryValue::try_from_decimal(&raw) {
                            Ok(amount) => TransactionKind::Deposit(amount),
                            Err(e) => { return Err(e); },
                        }
                    },
                }
            },
            crate::records::TransactionKind::Withdrawal => {
                match row.amount {
                    None => { return Err(TransactionError::MissingAmount); },
                    Some(raw) => {
                        match MonetaryValue::try_from_decimal(&raw) {
                            Ok(amount) => TransactionKind::Withdrawal(amount),
                            Err(e) => { return Err(e); },
                        }
                    },
                }
            },
            crate::records::TransactionKind::Dispute => TransactionKind::Dispute,
            crate::records::TransactionKind::Resolve => TransactionKind::Resolve,
            crate::records::TransactionKind::Chargeback => TransactionKind::Chargeback,
        };
        Ok(Transaction { id: TransactionId(row.tx), kind })
    }
}

/// The outcome of one account operation.
pub type AccountOperationResult = Result<(), TransactionError>;

/// Represents the state of an account at a given point in time.
#[derive(Debug, PartialEq, Eq, Structural, Clone, Copy)]
pub struct Account {
    pub client_id: ClientId,
    /// Total funds that are available for trading, staking and withdrawal.
    pub available: MonetaryValue,
    /// Total funds that are held for dispute.
    pub held: MonetaryValue,
    /// Whether the account is locked. No transactions can happen on a locked account.
    pub locked: bool,
}

impl Default for Account {
    /// The default account: client zero, zero balances, unlocked.
    fn default() -> (r: Self)
        ensures
            r == (Account {
                client_id: ClientId(0),
                available: from_units(0),
                held: from_units(0),
                locked: false,
            }),
            r.wf(),
    {
        proof {
            crate::money::lemma_from_units_view(0);
        }
        Account {
            client_id: ClientId(0),
            available: MonetaryValue::default(),
            held: MonetaryValue::default(),
            locked: false,
        }
    }
}

impl Account {
    /// An account is well formed when its snapshot total — available plus
    /// held — still fits the range of a monetary value.
    pub open spec fn wf(&self) -> bool {
        self.available@ + self.held@ <= MAX_UNITS as int
    }

    pub fn new(client_id: u16) -> (r: Self)
        ensures
            r == (Account {
                client_id: ClientId(client_id),
                available: from_units(0),
                held: from_units(0),
                locked: false,
            }),
            r.available@ == 0,
            r.held@ == 0,
            r.wf(),
    {
        proof {
            crate::money::lemma_from_units_view(0);
        }
        Account {
            client_id: ClientId(client_id),
            available: MonetaryValue::try_from_parts(0, 0).unwrap(),
            held: MonetaryValue::try_from_parts(0, 0).unwrap(),
            locked: false,
        }
    }

    /// Adds a given amount of money to the account's available funds.
    pub fn deposit(&mut self, amount: MonetaryValue) -> (r: AccountOperationResult)
        requires
            old(self).wf(),
            !old(self).locked ==> old(self).available@ + old(self).held@ + amount@ <= MAX_UNITS as int,
        ensures
            final(self).wf(),
            old(self).locked ==> r == Err::<(), TransactionError>(TransactionError::AccountLocked)
                && *final(self) == *old(self),
            !old(self).locked ==> r == Ok::<(), TransactionError>(()) && *final(self) == (Account {
                available: from_units(old(self).available@ + amount@),
                ..*old(self)
            }),
    {
        self.check_lock()?;
        self.available = self.available.overdrawing_add(amount)?;
        Ok(())
    }

    /// Removes a given amount of money from the account's available funds.
    pub fn withdraw(&mut self, amount: MonetaryValue) -> (r: AccountOperationResult)
        requires
            old(self).wf(),
            amount.wf(),
        ensures
            final(self).wf(),
            old(self).locked ==> r == Err::<(), TransactionError>(TransactionError::AccountLocked)
                && *final(self) == *old(self),
            !old(self).locked && amount@ <= old(self).available@ ==> r == Ok::<(), TransactionError>(())
                && *final(self) == (Account {
                available: from_units(old(self).available@ - amount@),
                ..*old(self)
            }),
            !old(self).locked && old(self).available@ < amount@ ==> r == Err::<(), TransactionError>(
                TransactionError::NegativeBalance((old(self).available@ - amount@) as i128),
            ) && *final(self) == *old(self),
    {
        self.check_lock()?;
        self.available = self.available.overdrawing_sub(amount)?;
        Ok(())
    }

    /// Freezes a given amount of money while a dispute is being solved:
    /// the amount moves from available to held funds.
    pub fn hold(&mut self, amount: MonetaryValue) -> (r: AccountOperationResult)
        requires
            old(self).wf(),
            amount.wf(),
        ensures
            final(self).wf(),
            old(self).locked ==> r == Err::<(), TransactionError>(TransactionError::AccountLocked)
                && *final(self) == *old(self),
            !old(self).locked && amount@ <= old(self).available@ ==> r == Ok::<(), TransactionError>(())
                && *final(self) == (Account {
                available: from_units(old(self).available@ - amount@),
                held: from_units(old(self).held@ + amount@),
                ..*old(self)
            }),
            !old(self).locked && old(self).available@ < amount@ ==> r == Err::<(), TransactionError>(
                TransactionError::NegativeBalance((old(self).available@ - amount@) as i128),
            ) && *final(self) == *old(self),
    {
        self.check_lock()?;
        self.available = self.available.overdrawing_sub(amount)?;
        self.held = self.held.overdrawing_add(amount)?;
        Ok(())
    }

    /// Un-freezes a given amount of money, typically when a dispute is
    /// solved: the amount moves from held back to available funds.
    pub fn release(&mut self, amount: MonetaryValue) -> (r: AccountOperationResult)
        requires
            old(self).wf(),
            amount.wf(),
        ensures
            final(self).wf(),
            old(self).locked ==> r == Err::<(), TransactionError>(TransactionError::AccountLocked)
                && *final(self) == *old(self),
            !old(self).locked && amount@ <= old(self).held@ ==> r == Ok::<(), TransactionError>(())
                && *final(self) == (Account {
                available: from_units(old(self).available@ + amount@),
                held: from_units(old(self).held@ - amount@),
                ..*old(self)
            }),
            !old(self).locked && old(self).held@ < amount@ ==> r == Err::<(), TransactionError>(
                TransactionError::NegativeBalance((old(self).held@ - amount@) as i128),
            ) && *final(self) == *old(self),
    {
        self.check_lock()?;
        self.held = self.held.overdrawing_sub(amount)?;
        self.available = self.available.overdrawing_add(amount)?;
        Ok(())
    }

    /// Removes funds from the held funds, typically when a chargeback
    /// occurs. The account is locked as a side effect, whether or not the
    /// held funds cover the amount.
    pub fn chargeback(&mut self, amount: MonetaryValue) -> (r: AccountOperationResult)
        requires
            old(self).wf(),
            amount.wf(),
        ensures
            final(self).wf(),
            final(self).locked,
            amount@ <= old(self).held@ ==> r == Ok::<(), TransactionError>(()) && *final(self)
                == (Account { held: from_units(old(self).held@ - amount@), locked: true, ..*old(self) }),
            old(self).held@ < amount@ ==> r == Err::<(), TransactionError>(
                TransactionError::NegativeBalance((old(self).held@ - amount@) as i128),
            ) && *final(self) == (Account { locked: true, ..*old(self) }),
    {
        self.locked = true;
        self.held = self.held.overdrawing_sub(amount)?;
        Ok(())
    }

    /// Returns an `AccountLocked` error if the account is locked.
    fn check_lock(&self) -> (r: AccountOperationResult)
        ensures
            self.locked ==> r == Err::<(), TransactionError>(TransactionError::AccountLocked),
            !self.locked ==> r == Ok::<(), TransactionError>(()),
    {
        if self.locked {
            return Err(TransactionError::AccountLocked);
        }
        Ok(())
    }
}

} // verus!
