//! The ledger state machine: folds a stream of client transactions into
//! per-client accounts, tracking each client's history so that disputes,
//! resolutions and chargebacks can reference earlier deposits.

use crate::account::{Account, ClientId, Transaction, TransactionId, TransactionKind};
use crate::money::{from_units, TransactionError, MAX_UNITS};
use std::collections::HashMap;
use vstd::prelude::*;

verus! {

broadcast use vstd::std_specs::hash::group_hash_axioms, crate::money::lemma_value_non_negative, crate::money::lemma_from_units_view;

/// Owns one account plus the ordered history of transactions applied to it.
pub struct AccountLog {
    pub state: Account,
    pub history: Vec<Transaction>,
}

/// The abstract content of an account log: the account state plus its
/// history as a sequence.
pub struct LogView {
    pub state: Account,
    pub history: Seq<Transaction>,
}

impl LogView {
    /// A log is well formed when its account is and every recorded
    /// transaction carries a well-formed amount.
    pub open spec fn wf(self) -> bool {
        &&& self.state.wf()
        &&& forall|i: int| 0 <= i < self.history.len() ==> (#[trigger] self.history[i]).wf()
    }
}

impl View for AccountLog {
    type V = LogView;

    open spec fn view(&self) -> LogView {
        LogView { state: self.state, history: self.history@ }
    }
}

/// The log of a client no transaction has touched yet: default zero
/// balances, unlocked, empty history.
pub open spec fn empty_log(client_id: u16) -> LogView {
    LogView {
        state: Account {
            client_id: ClientId(client_id),
            available: from_units(0),
            held: from_units(0),
            locked: false,
        },
        history: Seq::empty(),
    }
}

impl AccountLog {
    pub fn new(client_id: u16) -> (r: Self)
        ensures
            r@ == empty_log(client_id),
    {
        AccountLog { state: Account::new(client_id), history: Vec::new() }
    }
}

/// An error raised while applying one transaction to the ledger.
#[derive(Debug, PartialEq, Eq, Structural, Clone, Copy)]
pub enum PaymentProcessingError {
    /// An error occured during the underlying transaction.
    TransactionError(TransactionError),
    /// Multiple disputes on the same transaction.
    DisputeAlreadyExists,
    /// The relevant transaction is not in dispute.
    NoDispute,
}

/// Whether a dispute record with this id is already on file.
pub open spec fn spec_dispute_exists(h: Seq<Transaction>, id: TransactionId) -> bool {
    exists|i: int| 0 <= i < h.len() && (#[trigger] h[i]).id == id && h[i].kind is Dispute
}

/// The first transaction on file with this id at or after position `i`.
pub open spec fn spec_find_from(h: Seq<Transaction>, id: TransactionId, i: int) -> Option<
    Transaction,
>
    decreases h.len() - i,
{
    if i < 0 || i >= h.len() {
        None
    } else if h[i].id == id {
        Some(h[i])
    } else {
        spec_find_from(h, id, i + 1)
    }
}

/// The first transaction on file with this id, if any.
pub open spec fn spec_find(h: Seq<Transaction>, id: TransactionId) -> Option<Transaction> {
    spec_find_from(h, id, 0)
}

/// The move of a disputed deposit's amount from available to held funds,
/// recording the dispute on success.
pub open spec fn spec_hold_step(log: LogView, t: Transaction, amount: crate::money::MonetaryValue)
    -> (LogView, Result<(), PaymentProcessingError>) {
    if log.state.locked {
        (
            log,
            Err(PaymentProcessingError::TransactionError(TransactionError::AccountLocked)),
        )
    } else if amount@ <= log.state.available@ {
        (
            LogView {
                state: Account {
                    available: from_units(log.state.available@ - amount@),
                    held: from_units(log.state.held@ + amount@),
                    ..log.state
                },
                history: log.history.push(t),
            },
            Ok(()),
        )
    } else {
        (
            log,
            Err(
                PaymentProcessingError::TransactionError(
                    TransactionError::NegativeBalance(
                        (log.state.available@ - amount@) as i128,
                    ),
                ),
            ),
        )
    }
}

/// The move of a disputed deposit's amount from held back to available
/// funds, recording the resolution on success.
pub open spec fn spec_release_step(
    log: LogView,
    t: Transaction,
    amount: crate::money::MonetaryValue,
) -> (LogView, Result<(), PaymentProcessingError>) {
    if log.state.locked {
        (
            log,
            Err(PaymentProcessingError::TransactionError(TransactionError::AccountLocked)),
        )
    } else if amount@ <= log.state.held@ {
        (
            LogView {
                state: Account {
                    available: from_units(log.state.available@ + amount@),
                    held: from_units(log.state.held@ - amount@),
                    ..log.state
                },
                history: log.history.push(t),
            },
            Ok(()),
        )
    } else {
        (
            log,
            Err(
                PaymentProcessingError::TransactionError(
                    TransactionError::NegativeBalance((log.state.held@ - amount@) as i128),
                ),
            ),
        )
    }
}

/// The removal of a disputed deposit's amount from held funds. The account
/// is locked as a side effect whether or not the held funds cover the
/// amount; the chargeback is recorded only on success.
pub open spec fn spec_chargeback_step(
    log: LogView,
    t: Transaction,
    amount: crate::money::MonetaryValue,
) -> (LogView, Result<(), PaymentProcessingError>) {
    if amount@ <= log.state.held@ {
        (
            LogView {
                state: Account {
                    held: from_units(log.state.held@ - amount@),
                    locked: true,
                    ..log.state
                },
                history: log.history.push(t),
            },
            Ok(()),
        )
    } else {
        (
            LogView { state: Account { locked: true, ..log.state }, history: log.history },
            Err(
                PaymentProcessingError::TransactionError(
                    TransactionError::NegativeBalance((log.state.held@ - amount@) as i128),
                ),
            ),
        )
    }
}

/// The transition of one account log under one incoming transaction:
/// yields the next log and the outcome reported for the transaction.
pub open spec fn spec_step(log: LogView, t: Transaction) -> (LogView, Result<
    (),
    PaymentProcessingError,
>) {
    match t.kind {
        TransactionKind::Deposit(amount) => {
            if log.state.locked {
                (
                    log,
                    Err(
                        PaymentProcessingError::TransactionError(TransactionError::AccountLocked),
                    ),
                )
            } else {
                (
                    LogView {
                        state: Account {
                            available: from_units(log.state.available@ + amount@),
                            ..log.state
                        },
                        history: log.history.push(t),
                    },
                    Ok(()),
                )
            }
        },
        TransactionKind::Withdrawal(amount) => {
            if log.state.locked {
                (
                    log,
                    Err(
                        PaymentProcessingError::TransactionError(TransactionError::AccountLocked),
                    ),
                )
            } else if amount@ <= log.state.available@ {
                (
                    LogView {
                        state: Account {
                            available: from_units(log.state.available@ - amount@),
                            ..log.state
                        },
                        history: log.history.push(t),
                    },
                    Ok(()),
                )
            } else {
                (
                    log,
                    Err(
                        PaymentProcessingError::TransactionError(
                            TransactionError::NegativeBalance(
                                (log.state.available@ - amount@) as i128,
                            ),
                        ),
                    ),
                )
            }
        },
        TransactionKind::Dispute => {
            if spec_dispute_exists(log.history, t.id) {
                (log, Err(PaymentProcessingError::DisputeAlreadyExists))
            } else {
                match spec_find(log.history, t.id) {
                    Some(found) => match found.kind {
                        TransactionKind::Deposit(amount) => spec_hold_step(log, t, amount),
                        _ => (log, Ok(())),
                    },
                    None => (log, Ok(())),
                }
            }
        },
        TransactionKind::Resolve => {
            if !spec_dispute_exists(log.history, t.id) {
                (log, Err(PaymentProcessingError::NoDispute))
            } else {
                match spec_find(log.history, t.id) {
                    Some(found) => match found.kind {
                        TransactionKind::Deposit(amount) => spec_release_step(log, t, amount),
                        _ => (log, Ok(())),
                    },
                    None => (log, Ok(())),
                }
            }
        },
        TransactionKind::Chargeback => {
            if !spec_dispute_exists(log.history, t.id) {
                (log, Err(PaymentProcessingError::NoDispute))
            } else {
                match spec_find(log.history, t.id) {
                    Some(found) => match found.kind {
                        TransactionKind::Deposit(amount) => spec_chargeback_step(log, t, amount),
                        _ => (log, Ok(())),
                    },
                    None => (log, Ok(())),
                }
            }
        },
    }
}

/// Pushing a well-formed transaction onto a well-formed history keeps
/// every entry well formed.
proof fn lemma_history_wf_push(h: Seq<Transaction>, t: Transaction)
    requires
        forall|i: int| 0 <= i < h.len() ==> (#[trigger] h[i]).wf(),
        t.wf(),
    ensures
        forall|i: int| 0 <= i < h.push(t).len() ==> (#[trigger] h.push(t)[i]).wf(),
{
    assert forall|i: int| 0 <= i < h.push(t).len() implies (#[trigger] h.push(t)[i]).wf() by {
        if i < h.len() {
            assert(h.push(t)[i] == h[i]);
        } else {
            assert(h.push(t)[i] == t);
        }
    }
}

impl AccountLog {
    /// Whether a dispute record for `id` is already in this history.
    fn dispute_exists(&self, id: TransactionId) -> (r: bool)
        ensures
            r == spec_dispute_exists(self.history@, id),
    {
        let mut i: usize = 0;
        while i < self.history.len()
            invariant
                i <= self.history@.len(),
                forall|j: int|
                    0 <= j < i ==> !((#[trigger] self.history@[j]).id == id && self.history@[j].kind
                        is Dispute),
            decreases self.history@.len() - i,
        {
            let tx = &self.history[i];
            if tx.id == id && matches!(tx.kind, TransactionKind::Dispute) {
                assert(self.history@[i as int].id == id && self.history@[i as int].kind is Dispute);
                return true;
            }
            i = i + 1;
        }
        false
    }

    /// The index of the first transaction on file with `id`, if any.
    fn find_first(&self, id: TransactionId) -> (r: Option<usize>)
        ensures
            match r {
                Some(idx) => idx < self.history@.len() && spec_find(self.history@, id) == Some(
                    self.history@[idx as int],
                ),
                None => spec_find(self.history@, id) is None,
            },
    {
        let mut i: usize = 0;
        while i < self.history.len()
            invariant
                i <= self.history@.len(),
                spec_find(self.history@, id) == spec_find_from(self.history@, id, i as int),
            decreases self.history@.len() - i,
        {
            if self.history[i].id == id {
                return Some(i);
            }
            i = i + 1;
        }
        None
    }

    /// Applies one transaction to this log; the outcome and the new log are
    /// exactly those of `spec_step`.
    fn apply(&mut self, transaction: Transaction) -> (r: Result<(), PaymentProcessingError>)
        requires
            old(self)@.wf(),
            transaction.wf(),
            transaction.kind matches TransactionKind::Deposit(a) ==> (!old(self).state.locked
                ==> old(self).state.available@ + old(self).state.held@ + a@ <= MAX_UNITS as int),
        ensures
            final(self)@ == spec_step(old(self)@, transaction).0,
            r == spec_step(old(self)@, transaction).1,
            final(self)@.wf(),
    {
        match transaction.kind {
            TransactionKind::Deposit(amount) => {
                match self.state.deposit(amount) {
                    Ok(_) => {
                        proof {
                            lemma_history_wf_push(self.history@, transaction);
                        }
                        self.history.push(transaction);
                        Ok(())
                    },
                    Err(e) => Err(PaymentProcessingError::TransactionError(e)),
                }
            },
            TransactionKind::Withdrawal(amount) => {
                match self.state.withdraw(amount) {
                    Ok(_) => {
                        proof {
                            lemma_history_wf_push(self.history@, transaction);
                        }
                        self.history.push(transaction);
                        Ok(())
                    },
                    Err(e) => Err(PaymentProcessingError::TransactionError(e)),
                }
            },
            TransactionKind::Dispute => {
                if self.dispute_exists(transaction.id) {
                    return Err(PaymentProcessingError::DisputeAlreadyExists);
                }
                match self.find_first(transaction.id) {
                    Some(idx) => {
                        match self.history[idx].kind {
                            TransactionKind::Deposit(amount) => {
                                proof {
                                    assert(self.history@[idx as int].wf());
                                }
                                match self.state.hold(amount) {
                                    Ok(_) => {
                                        proof {
                                            lemma_history_wf_push(self.history@, transaction);
                                        }
                                        self.history.push(transaction);
                                        Ok(())
                                    },
                                    Err(e) => Err(PaymentProcessingError::TransactionError(e)),
                                }
                            },
                            _ => Ok(()),
                        }
                    },
                    None => Ok(()),
                }
            },
            TransactionKind::Resolve => {
                if !self.dispute_exists(transaction.id) {
                    return Err(PaymentProcessingError::NoDispute);
                }
                match self.find_first(transaction.id) {
                    Some(idx) => {
                        match self.history[idx].kind {
                            TransactionKind::Deposit(amount) => {
                                proof {
                                    assert(self.history@[idx as int].wf());
                                }
                                match self.state.release(amount) {
                                    Ok(_) => {
                                        proof {
                                            lemma_history_wf_push(self.history@, transaction);
                                        }
                                        self.history.push(transaction);
                                        Ok(())
                                    },
                                    Err(e) => Err(PaymentProcessingError::TransactionError(e)),
                                }
                            },
                            _ => Ok(()),
                        }
                    },
                    None => Ok(()),
                }
            },
            TransactionKind::Chargeback => {
                if !self.dispute_exists(transaction.id) {
                    return Err(PaymentProcessingError::NoDispute);
                }
                match self.find_first(transaction.id) {
                    Some(idx) => {
                        match self.history[idx].kind {
                            TransactionKind::Deposit(amount) => {
                                proof {
                                    assert(self.history@[idx as int].wf());
                                }
                                match self.state.chargeback(amount) {
                                    Ok(_) => {
                                        proof {
                                            lemma_history_wf_push(self.history@, transaction);
                                        }
                                        self.history.push(transaction);
                                        Ok(())
                                    },
                                    Err(e) => Err(PaymentProcessingError::TransactionError(e)),
                                }
                            },
                            _ => Ok(()),
                        }
                    },
                    None => Ok(()),
                }
            },
        }
    }
}

/// The unit total (available plus held) already on file for a client;
/// zero for a client with no account yet.
pub open spec fn spec_client_units(m: Map<u16, LogView>, c: u16) -> int {
    if m.contains_key(c) {
        m[c].state.available@ + m[c].state.held@
    } else {
        0
    }
}

/// Whether the account on file for a client is locked; a client with no
/// account yet is unlocked.
pub open spec fn spec_client_locked(m: Map<u16, LogView>, c: u16) -> bool {
    m.contains_key(c) && m[c].state.locked
}

/// A state machine that takes client transactions and incrementally builds
/// accounts from the transaction history.
pub struct PaymentProcessor {
    accounts: HashMap<u16, AccountLog>,
    client_order: Vec<u16>,
}

impl View for PaymentProcessor {
    type V = Map<u16, LogView>;

    /// A processor is abstracted as the map from each known client to the
    /// content of that client's account log.
    closed spec fn view(&self) -> Map<u16, LogView> {
        self.accounts@.map_values(|log: AccountLog| log@)
    }
}

impl PaymentProcessor {
    /// Internal consistency: every log is well formed and filed under its
    /// own client id, and the recorded client order lists exactly the known
    /// clients, each once.
    pub closed spec fn wf(&self) -> bool {
        &&& forall|c: u16| #[trigger]
            self.accounts@.contains_key(c) ==> self.accounts@[c]@.wf()
                && self.accounts@[c].state.client_id == ClientId(c)
        &&& self.client_order@.no_duplicates()
        &&& forall|c: u16|
            #![trigger self.accounts@.contains_key(c)]
            #![trigger self.client_order@.contains(c)]
            self.accounts@.contains_key(c) <==> self.client_order@.contains(c)
    }

    pub fn new() -> (r: Self)
        ensures
            r@ == Map::<u16, LogView>::empty(),
            r.wf(),
    {
        let r = PaymentProcessor { accounts: HashMap::new(), client_order: Vec::new() };
        proof {
            assert(r@ =~= Map::<u16, LogView>::empty());
        }
        r
    }

    /// Takes a transaction and applies it to the relevant customer account
    /// — created empty on a client's first transaction — exactly as
    /// `spec_step` describes. The transaction will be persisted in that
    /// account's history until the processor is dropped.
    pub fn process(&mut self, client_id: u16, transaction: Transaction) -> (r: Result<
        (),
        PaymentProcessingError,
    >)
        requires
            old(self).wf(),
            transaction.wf(),
            transaction.kind matches TransactionKind::Deposit(a) ==> (!spec_client_locked(
                old(self)@,
                client_id,
            ) ==> spec_client_units(old(self)@, client_id) + a@ <= MAX_UNITS as int),
        ensures
            final(self).wf(),
            ({
                let pre = if old(self)@.contains_key(client_id) {
                    old(self)@[client_id]
                } else {
                    empty_log(client_id)
                };
                &&& final(self)@ == old(self)@.insert(client_id, spec_step(pre, transaction).0)
                &&& r == spec_step(pre, transaction).1
            }),
    {
        let ghost pre_map = self@;
        let mut log: AccountLog = match self.accounts.remove(&client_id) {
            Some(l) => l,
            None => {
                proof {
                    vec_push_keeps_no_duplicates(self.client_order@, client_id);
                }
                self.client_order.push(client_id);
                AccountLog::new(client_id)
            },
        };
        proof {
            if pre_map.contains_key(client_id) {
                assert(log@ == pre_map[client_id]);
            } else {
                assert(log@ == empty_log(client_id));
            }
        }
        let r = log.apply(transaction);
        self.accounts.insert(client_id, log);
        proof {
            assert(self@ =~= pre_map.insert(
                client_id,
                spec_step(
                    if pre_map.contains_key(client_id) {
                        pre_map[client_id]
                    } else {
                        empty_log(client_id)
                    },
                    transaction,
                ).0,
            ));
            lemma_step_preserves_client(
                if pre_map.contains_key(client_id) {
                    pre_map[client_id]
                } else {
                    empty_log(client_id)
                },
                transaction,
            );
        }
        r
    }

    /// Retrieves the account log of the specified client.
    pub fn account_log(&self, client_id: u16) -> (r: Option<&AccountLog>)
        ensures
            match r {
                Some(log) => self@.contains_key(client_id) && log@ == self@[client_id],
                None => !self@.contains_key(client_id),
            },
    {
        self.accounts.get(&client_id)
    }

    /// Returns the final snapshot of every known account, each client
    /// exactly once. No ordering is guaranteed across clients.
    pub fn accounts(self) -> (r: Vec<Account>)
        requires
            self.wf(),
        ensures
            forall|i: int|
                0 <= i < r@.len() ==> self@.contains_key((#[trigger] r@[i]).client_id.0) && r@[i]
                    == self@[r@[i].client_id.0].state,
            forall|c: u16| #[trigger]
                self@.contains_key(c) ==> exists|i: int|
                    0 <= i < r@.len() && (#[trigger] r@[i]) == self@[c].state && r@[i].client_id.0
                        == c,
            forall|i: int, j: int|
                0 <= i < j < r@.len() ==> (#[trigger] r@[i]).client_id
                    != (#[trigger] r@[j]).client_id,
    {
        let ghost m = self@;
        let ghost inner = self.accounts@;
        let PaymentProcessor { accounts, client_order } = self;
        let mut out: Vec<Account> = Vec::new();
        let mut k: usize = 0;
        while k < client_order.len()
            invariant
                k <= client_order@.len(),
                accounts@ == inner,
                m == inner.map_values(|log: AccountLog| log@),
                forall|c: u16| #[trigger]
                    inner.contains_key(c) ==> inner[c].state.client_id == ClientId(c),
                forall|c: u16|
                    #![trigger inner.contains_key(c)]
                    #![trigger client_order@.contains(c)]
                    inner.contains_key(c) <==> client_order@.contains(c),
                out@.len() == k,
                forall|i: int|
                    0 <= i < k ==> inner.contains_key(client_order@[i]) && (#[trigger] out@[i])
                        == inner[client_order@[i]].state,
            decreases client_order@.len() - k,
        {
            let c: u16 = client_order[k];
            proof {
                assert(client_order@.contains(c));
            }
            match accounts.get(&c) {
                Some(log) => {
                    out.push(log.state);
                },
                None => {
                    proof {
                        assert(false);
                    }
                },
            }
            k = k + 1;
        }
        proof {
            assert forall|i: int| 0 <= i < out@.len() implies m.contains_key(
                (#[trigger] out@[i]).client_id.0,
            ) && out@[i] == m[out@[i].client_id.0].state by {
                let c = client_order@[i];
                assert(inner.contains_key(c) && out@[i] == inner[c].state);
                assert(out@[i].client_id == ClientId(c));
            }
            assert forall|c: u16| #[trigger] m.contains_key(c) implies exists|i: int|
                0 <= i < out@.len() && (#[trigger] out@[i]) == m[c].state && out@[i].client_id.0
                    == c by {
                assert(inner.contains_key(c));
                assert(client_order@.contains(c));
                let i = choose|i: int| 0 <= i < client_order@.len() && client_order@[i] == c;
                assert(out@[i] == inner[c].state);
                assert(out@[i].client_id.0 == c);
            }
            assert forall|i: int, j: int| 0 <= i < j < out@.len() implies (
            #[trigger] out@[i]).client_id != (#[trigger] out@[j]).client_id by {
                assert(out@[i].client_id == ClientId(client_order@[i]));
                assert(out@[j].client_id == ClientId(client_order@[j]));
                assert(client_order@[i] != client_order@[j]);
            }
        }
        out
    }
}

/// Pushing a value not yet present keeps a sequence free of duplicates.
proof fn vec_push_keeps_no_duplicates(s: Seq<u16>, x: u16)
    requires
        s.no_duplicates(),
        !s.contains(x),
    ensures
        s.push(x).no_duplicates(),
        forall|c: u16| #[trigger] s.push(x).contains(c) <==> s.contains(c) || c == x,
{
    assert forall|i: int, j: int|
        0 <= i < s.push(x).len() && 0 <= j < s.push(x).len() && i != j implies s.push(x)[i]
        != s.push(x)[j] by {
        if i < s.len() && j < s.len() {
        } else if i < s.len() {
            assert(s.push(x)[i] == s[i]);
            assert(s[i] != x) by {
                if s[i] == x {
                    assert(s.contains(x));
                }
            }
        } else if j < s.len() {
            assert(s.push(x)[j] == s[j]);
            assert(s[j] != x) by {
                if s[j] == x {
                    assert(s.contains(x));
                }
            }
        }
    }
    assert forall|c: u16| #[trigger] s.push(x).contains(c) <==> s.contains(c) || c == x by {
        if s.contains(c) {
            let i = choose|i: int| 0 <= i < s.len() && s[i] == c;
            assert(s.push(x)[i] == c);
        }
        if c == x {
            assert(s.push(x)[s.len() as int] == c);
        }
        if s.push(x).contains(c) {
            let i = choose|i: int| 0 <= i < s.push(x).len() && s.push(x)[i] == c;
            if i < s.len() {
                assert(s[i] == c);
            }
        }
    }
}

/// One step never reassigns an account to another client.
pub proof fn lemma_step_preserves_client(log: LogView, t: Transaction)
    ensures
        spec_step(log, t).0.state.client_id == log.state.client_id,
{
}

/// Law: available funds never go negative — after any step, the available
/// funds of the resulting account are at least zero; since this holds of
/// every single step, it holds along any sequence of them.
pub proof fn lemma_available_never_negative(log: LogView, t: Transaction)
    ensures
        spec_step(log, t).0.state.available@ >= 0,
{
}

/// Law: held funds never go negative — after any step, the held funds of
/// the resulting account are at least zero; since this holds of every
/// single step, it holds along any sequence of them.
pub proof fn lemma_held_never_negative(log: LogView, t: Transaction)
    ensures
        spec_step(log, t).0.state.held@ >= 0,
{
}

/// The log reached by stepping through a whole sequence of transactions,
/// in order, starting from `log`.
pub open spec fn spec_run(log: LogView, ts: Seq<Transaction>) -> LogView
    decreases ts.len(),
{
    if ts.len() == 0 {
        log
    } else {
        spec_run(spec_step(log, ts[0]).0, ts.drop_first())
    }
}

/// Law: along any sequence of transactions, the available and held funds
/// stay non-negative, and a lock, once set, is never cleared.
pub proof fn lemma_run_invariants(log: LogView, ts: Seq<Transaction>)
    ensures
        spec_run(log, ts).state.available@ >= 0,
        spec_run(log, ts).state.held@ >= 0,
        log.state.locked ==> spec_run(log, ts).state.locked,
    decreases ts.len(),
{
    if ts.len() > 0 {
        if log.state.locked {
            lemma_lock_is_permanent(log, ts[0]);
        }
        lemma_run_invariants(spec_step(log, ts[0]).0, ts.drop_first());
    }
}

/// Law: disputing the same transaction twice in a row fails. If a dispute
/// went through and was recorded, stepping the same dispute again rejects
/// it with `DisputeAlreadyExists` and leaves the log unchanged.
pub proof fn lemma_second_dispute_rejected(log: LogView, t: Transaction)
    requires
        t.kind is Dispute,
        spec_step(log, t).1 is Ok,
        spec_step(log, t).0.history.len() > log.history.len(),
    ensures
        spec_step(spec_step(log, t).0, t) == (
            spec_step(log, t).0,
            Err::<(), PaymentProcessingError>(PaymentProcessingError::DisputeAlreadyExists),
        ),
{
    let post = spec_step(log, t).0;
    assert(post.history == log.history.push(t));
    assert(post.history[log.history.len() as int] == t);
    assert(spec_dispute_exists(post.history, t.id));
}

/// Law: resolving or charging back an id with no dispute on record fails
/// with `NoDispute` and leaves the log unchanged.
pub proof fn lemma_settle_without_dispute_rejected(log: LogView, t: Transaction)
    requires
        t.kind is Resolve || t.kind is Chargeback,
        !spec_dispute_exists(log.history, t.id),
    ensures
        spec_step(log, t) == (
            log,
            Err::<(), PaymentProcessingError>(PaymentProcessingError::NoDispute),
        ),
{
}

/// Law: the lock is permanent — no step ever unlocks a locked account.
pub proof fn lemma_lock_is_permanent(log: LogView, t: Transaction)
    requires
        log.state.locked,
    ensures
        spec_step(log, t).0.state.locked,
{
}

/// Law: once an account is locked, every deposit or withdrawal is rejected
/// with `AccountLocked` and changes nothing. (Holds and releases on a
/// locked account are rejected the same way at the account level; see
/// `Account::hold` and `Account::release`.)
pub proof fn lemma_locked_rejects_transfers(log: LogView, t: Transaction)
    requires
        log.state.locked,
        t.kind is Deposit || t.kind is Withdrawal,
    ensures
        spec_step(log, t) == (
            log,
            Err::<(), PaymentProcessingError>(
                PaymentProcessingError::TransactionError(TransactionError::AccountLocked),
            ),
        ),
{
}

} // verus!
