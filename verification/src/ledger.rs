//! The abstract ledger and what each operation does to it.
use vstd::prelude::*;
use crate::amount::{AMOUNT_SCALE, AmountView, decimal_difference, decimal_sum, truncated};
use crate::types::{ClientView, OpOutcome, RejectReason, TxRecordTypeOp, TxState, TxView};

verus! {

/// The state of all accounts: each client's balances, and each stored
/// transaction by its id.
pub struct LedgerView {
    pub clients: Map<u16, ClientView>,
    pub txs: Map<u32, TxView>,
}

/// One operation on the ledger.
pub enum Command {
    Deposit { client: u16, amount: AmountView, tx: u32 },
    Withdrawal { client: u16, amount: AmountView, tx: u32 },
    Dispute { client: u16, tx: u32 },
    Resolve { client: u16, tx: u32 },
    Chargeback { client: u16, tx: u32 },
}

impl Command {
    /// The amount a deposit or withdrawal carries is a decimal, and so is
    /// that amount kept to four decimal places.
    pub open spec fn wf(self) -> bool {
        match self {
            Command::Deposit { amount, .. } => amount.wf() && truncated(
                amount,
                AMOUNT_SCALE as nat,
            ).wf(),
            Command::Withdrawal { amount, .. } => amount.wf() && truncated(
                amount,
                AMOUNT_SCALE as nat,
            ).wf(),
            _ => true,
        }
    }
}

/// What an operation makes of a ledger: the next ledger and the outcome, or
/// `None` where a decimal sum or difference overflows (the ledger is then
/// left as it was).
pub type Step = Option<(LedgerView, OpOutcome)>;

impl ClientView {
    /// `available + held == total`, by value.
    pub open spec fn balanced(self) -> bool {
        self.available.value() + self.held.value() == self.total.value()
    }

    pub open spec fn wf(self) -> bool {
        &&& self.available.wf()
        &&& self.held.wf()
        &&& self.total.wf()
    }
}

impl TxView {
    pub open spec fn wf(self) -> bool {
        self.amount.wf()
    }
}

impl LedgerView {
    /// No clients and no transactions.
    pub open spec fn empty() -> LedgerView {
        LedgerView { clients: Map::empty(), txs: Map::empty() }
    }

    /// Every client's `available + held == total`.
    pub open spec fn balanced(self) -> bool {
        forall|c: u16| #[trigger] self.clients.contains_key(c) ==> self.clients[c].balanced()
    }

    /// Every balance and every stored amount is a decimal.
    pub open spec fn wf(self) -> bool {
        &&& forall|c: u16| #[trigger] self.clients.contains_key(c) ==> self.clients[c].wf()
        &&& forall|t: u32| #[trigger] self.txs.contains_key(t) ==> self.txs[t].wf()
    }

    /// The ledger with `client`'s balances replaced and `tx` stored as `rec`.
    pub open spec fn with(self, client: u16, c: ClientView, tx: u32, rec: TxView) -> LedgerView {
        LedgerView { clients: self.clients.insert(client, c), txs: self.txs.insert(tx, rec) }
    }
}

/// What stored transaction `id` adds to `client`'s held funds: its amount
/// while it is disputed and belongs to the client, else nothing.
pub open spec fn held_share(txs: Map<u32, TxView>, id: u32, client: u16) -> int {
    if txs.contains_key(id) && txs[id].client == client && txs[id].state == TxState::Disputed {
        txs[id].amount.value()
    } else {
        0
    }
}

/// The sum of `held_share` over the ids in `ids`.
pub open spec fn sum_held(ids: Set<u32>, txs: Map<u32, TxView>, client: u16) -> int
    decreases ids.len(),
    when ids.finite()
{
    if ids.len() == 0 {
        0
    } else {
        let id = ids.choose();
        held_share(txs, id, client) + sum_held(ids.remove(id), txs, client)
    }
}

impl LedgerView {
    /// The value of `client`'s disputed transactions, added up.
    pub open spec fn open_disputes(self, client: u16) -> int {
        sum_held(self.txs.dom(), self.txs, client)
    }

    /// Every client's held funds are the sum of its open disputes.
    pub open spec fn held_is_open_disputes(self) -> bool {
        &&& self.txs.dom().finite()
        &&& forall|c: u16| #[trigger] self.clients.contains_key(c) ==> self.clients[c].held.value()
            == self.open_disputes(c)
    }

    /// Every disputed transaction belongs to a client with an account.
    pub open spec fn disputes_have_accounts(self) -> bool {
        forall|id: u32| #[trigger] self.txs.contains_key(id) && self.txs[id].state
            == TxState::Disputed ==> self.clients.contains_key(self.txs[id].client)
    }
}

/// A deposit: credits `available` and `total` with the amount kept to four
/// decimal places, opening the account if there is none; refused on a
/// locked account, and where the transaction id is already stored.
pub open spec fn spec_deposit(s: LedgerView, client: u16, amount: AmountView, tx: u32) -> Step {
    let a = truncated(amount, AMOUNT_SCALE as nat);
    let rec = TxView { type_op: TxRecordTypeOp::Deposit, client, amount: a, state: TxState::Active };
    if !s.clients.contains_key(client) {
        if s.txs.contains_key(tx) {
            Some((s, OpOutcome::Rejected(RejectReason::DuplicateTx)))
        } else {
            let c = ClientView { available: a, held: AmountView::zero(), total: a, locked: false };
            Some((s.with(client, c, tx, rec), OpOutcome::Applied))
        }
    } else {
        let c = s.clients[client];
        if c.locked {
            Some((s, OpOutcome::Rejected(RejectReason::AccountLocked)))
        } else if s.txs.contains_key(tx) {
            Some((s, OpOutcome::Rejected(RejectReason::DuplicateTx)))
        } else {
            match (decimal_sum(c.available, a), decimal_sum(c.total, a)) {
                (Some(av), Some(tot)) => {
                    let c2 = ClientView { available: av, total: tot, ..c };
                    Some((s.with(client, c2, tx, rec), OpOutcome::Applied))
                },
                _ => None,
            }
        }
    }
}

/// A withdrawal: debits `available` and `total` with the amount kept to four
/// decimal places; refused for an unknown client, a locked account, too
/// little available, or a transaction id already stored.
pub open spec fn spec_withdrawal(s: LedgerView, client: u16, amount: AmountView, tx: u32) -> Step {
    let a = truncated(amount, AMOUNT_SCALE as nat);
    if !s.clients.contains_key(client) {
        Some((s, OpOutcome::Rejected(RejectReason::UnknownClient)))
    } else {
        let c = s.clients[client];
        if c.locked {
            Some((s, OpOutcome::Rejected(RejectReason::AccountLocked)))
        } else if c.available.value() < a.value() {
            Some((s, OpOutcome::Rejected(RejectReason::InsufficientFunds)))
        } else if s.txs.contains_key(tx) {
            Some((s, OpOutcome::Rejected(RejectReason::DuplicateTx)))
        } else {
            match (decimal_difference(c.available, a), decimal_difference(c.total, a)) {
                (Some(av), Some(tot)) => {
                    let c2 = ClientView { available: av, total: tot, ..c };
                    let rec = TxView {
                        type_op: TxRecordTypeOp::Withdrawal,
                        client,
                        amount: a,
                        state: TxState::Active,
                    };
                    Some((s.with(client, c2, tx, rec), OpOutcome::Applied))
                },
                _ => None,
            }
        }
    }
}

/// The checks that dispute, resolve and chargeback share: the client and
/// the transaction exist, the transaction is in `state`, and belongs to the
/// client. `None` where they pass.
pub open spec fn spec_check_tx(
    s: LedgerView,
    client: u16,
    tx: u32,
    state: TxState,
    wrong_state: RejectReason,
) -> Option<RejectReason> {
    if !s.clients.contains_key(client) {
        Some(RejectReason::UnknownClient)
    } else if !s.txs.contains_key(tx) {
        Some(RejectReason::DisputedTxNotFound)
    } else if s.txs[tx].state != state {
        Some(wrong_state)
    } else if s.txs[tx].client != client {
        Some(RejectReason::DisputedTxWrongClient)
    } else {
        None
    }
}

/// A dispute: moves the transaction's amount from `available` to `held` and
/// marks the transaction disputed.
pub open spec fn spec_dispute(s: LedgerView, client: u16, tx: u32) -> Step {
    match spec_check_tx(s, client, tx, TxState::Active, RejectReason::TxNotActive) {
        Some(reason) => Some((s, OpOutcome::Rejected(reason))),
        None => {
            let c = s.clients[client];
            let tr = s.txs[tx];
            let amt = tr.amount;
            if c.available.value() < amt.value() {
                Some((s, OpOutcome::Rejected(RejectReason::InsufficientFundsForDispute)))
            } else {
                match (decimal_difference(c.available, amt), decimal_sum(c.held, amt)) {
                    (Some(av), Some(h)) => {
                        let c2 = ClientView { available: av, held: h, ..c };
                        let rec = TxView { state: TxState::Disputed, ..tr };
                        Some((s.with(client, c2, tx, rec), OpOutcome::Applied))
                    },
                    _ => None,
                }
            }
        },
    }
}

/// A resolution: moves a disputed transaction's amount from `held` back to
/// `available` and marks the transaction resolved.
pub open spec fn spec_resolve(s: LedgerView, client: u16, tx: u32) -> Step {
    match spec_check_tx(s, client, tx, TxState::Disputed, RejectReason::TxNotDisputed) {
        Some(reason) => Some((s, OpOutcome::Rejected(reason))),
        None => {
            let c = s.clients[client];
            let tr = s.txs[tx];
            let amt = tr.amount;
            if c.held.value() < amt.value() {
                Some((s, OpOutcome::Rejected(RejectReason::InsufficientHeldFunds)))
            } else {
                match (decimal_sum(c.available, amt), decimal_difference(c.held, amt)) {
                    (Some(av), Some(h)) => {
                        let c2 = ClientView { available: av, held: h, ..c };
                        let rec = TxView { state: TxState::Resolved, ..tr };
                        Some((s.with(client, c2, tx, rec), OpOutcome::Applied))
                    },
                    _ => None,
                }
            }
        },
    }
}

/// A chargeback: takes a disputed transaction's amount out of `held` and
/// `total`, locks the account and marks the transaction charged back.
pub open spec fn spec_chargeback(s: LedgerView, client: u16, tx: u32) -> Step {
    match spec_check_tx(s, client, tx, TxState::Disputed, RejectReason::TxNotDisputed) {
        Some(reason) => Some((s, OpOutcome::Rejected(reason))),
        None => {
            let c = s.clients[client];
            let tr = s.txs[tx];
            let amt = tr.amount;
            if c.held.value() < amt.value() {
                Some((s, OpOutcome::Rejected(RejectReason::InsufficientHeldFunds)))
            } else {
                match (decimal_difference(c.held, amt), decimal_difference(c.total, amt)) {
                    (Some(h), Some(tot)) => {
                        let c2 = ClientView {
                            available: c.available,
                            held: h,
                            total: tot,
                            locked: true,
                        };
                        let rec = TxView { state: TxState::ChargedBack, ..tr };
                        Some((s.with(client, c2, tx, rec), OpOutcome::Applied))
                    },
                    _ => None,
                }
            }
        },
    }
}

/// What a command does to a ledger.
pub open spec fn spec_apply(s: LedgerView, cmd: Command) -> Step {
    match cmd {
        Command::Deposit { client, amount, tx } => spec_deposit(s, client, amount, tx),
        Command::Withdrawal { client, amount, tx } => spec_withdrawal(s, client, amount, tx),
        Command::Dispute { client, tx } => spec_dispute(s, client, tx),
        Command::Resolve { client, tx } => spec_resolve(s, client, tx),
        Command::Chargeback { client, tx } => spec_chargeback(s, client, tx),
    }
}

/// `decimal_sum(a, b)` is the exact sum of the values.
pub open spec fn sum_is_exact(a: AmountView, b: AmountView) -> bool {
    decimal_sum(a, b) matches Some(z) && z.wf() && z.value() == a.value() + b.value()
}

/// `decimal_difference(a, b)` is the exact difference of the values.
pub open spec fn difference_is_exact(a: AmountView, b: AmountView) -> bool {
    decimal_difference(a, b) matches Some(z) && z.wf() && z.value() == a.value() - b.value()
}

/// Every sum and difference that a command computes is exact: the decimal
/// arithmetic neither rounds nor overflows (it is so wherever the exact
/// result fits in 96 bits at the larger scale of the operands, as
/// `Amount::checked_add` and `checked_sub` state).
pub open spec fn step_is_exact(s: LedgerView, cmd: Command) -> bool {
    match cmd {
        Command::Deposit { client, amount, .. } => {
            let a = truncated(amount, AMOUNT_SCALE as nat);
            s.clients.contains_key(client) ==> {
                &&& sum_is_exact(s.clients[client].available, a)
                &&& sum_is_exact(s.clients[client].total, a)
            }
        },
        Command::Withdrawal { client, amount, .. } => {
            let a = truncated(amount, AMOUNT_SCALE as nat);
            s.clients.contains_key(client) ==> {
                &&& difference_is_exact(s.clients[client].available, a)
                &&& difference_is_exact(s.clients[client].total, a)
            }
        },
        Command::Dispute { client, tx } => s.clients.contains_key(client) && s.txs.contains_key(tx)
            ==> {
            &&& difference_is_exact(s.clients[client].available, s.txs[tx].amount)
            &&& sum_is_exact(s.clients[client].held, s.txs[tx].amount)
        },
        Command::Resolve { client, tx } => s.clients.contains_key(client) && s.txs.contains_key(tx)
            ==> {
            &&& sum_is_exact(s.clients[client].available, s.txs[tx].amount)
            &&& difference_is_exact(s.clients[client].held, s.txs[tx].amount)
        },
        Command::Chargeback { client, tx } => s.clients.contains_key(client) && s.txs.contains_key(
            tx,
        ) ==> {
            &&& difference_is_exact(s.clients[client].held, s.txs[tx].amount)
            &&& difference_is_exact(s.clients[client].total, s.txs[tx].amount)
        },
    }
}

} // verus!
