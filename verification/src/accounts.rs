//! The accounts of all clients and the stored transactions.
use vstd::prelude::*;
use std::collections::BTreeMap;
use vstd::std_specs::iter::IteratorSpec;
use crate::amount::Amount;
use crate::error::TxProError;
use crate::ledger::{LedgerView, Step, spec_deposit, spec_withdrawal, spec_dispute, spec_resolve, spec_chargeback};
use crate::types::{
    ClientData, OpOutcome, OutputRecord, RejectReason, TransactionRecord, TxRecordTypeOp, TxState,
};

verus! {

broadcast use vstd::std_specs::btree::group_btree_axioms;

/// How the result of an operation relates to the step that the ledger
/// model gives: the outcome and next state, or a `BadOp` error and no change.
pub open spec fn follows_step(
    r: Result<OpOutcome, TxProError>,
    before: LedgerView,
    after: LedgerView,
    step: Step,
) -> bool {
    match step {
        Some((s, out)) => r == Ok::<OpOutcome, TxProError>(out) && after == s,
        None => r matches Err(TxProError::BadOp { value }) && value@ == out_of_range_message()
            && after == before,
    }
}

/// `rec` is the output line of `client` with balances `c`.
pub open spec fn is_output_of(rec: OutputRecord, client: u16, c: crate::types::ClientView) -> bool {
    &&& rec.client == client
    &&& rec.available@ == c.available
    &&& rec.held@ == c.held
    &&& rec.total@ == c.total
    &&& rec.locked == c.locked
}

/// `recs` holds one output line per client of `s`, in increasing order of
/// client id.
pub open spec fn lists_clients(s: LedgerView, recs: Seq<OutputRecord>) -> bool {
    &&& recs.len() == s.clients.dom().len()
    &&& forall|i: int, j: int| 0 <= i < j < recs.len() ==> recs[i].client < recs[j].client
    &&& forall|i: int|
        0 <= i < recs.len() ==> s.clients.contains_key(#[trigger] recs[i].client) && is_output_of(
            recs[i],
            recs[i].client,
            s.clients[recs[i].client],
        )
    &&& forall|c: u16|
        s.clients.contains_key(c) ==> exists|i: int| 0 <= i < recs.len() && #[trigger] recs[i].client == c
}

pub struct Accounts {
    data: BTreeMap<u16, ClientData>,
    txs: BTreeMap<u32, TransactionRecord>,
}

impl View for Accounts {
    type V = LedgerView;

    closed spec fn view(&self) -> LedgerView {
        LedgerView {
            clients: self.data@.map_values(|c: ClientData| c@),
            txs: self.txs@.map_values(|t: TransactionRecord| t@),
        }
    }
}

/// The text of the error for a sum or difference that overflows.
pub open spec fn out_of_range_message() -> Seq<char> {
    "balance out of range"@
}

fn out_of_range() -> (e: TxProError)
    ensures
        e matches TxProError::BadOp { value } && value@ == out_of_range_message(),
{
    TxProError::BadOp { value: "balance out of range".to_owned() }
}

impl Accounts {
    /// No clients, no transactions.
    pub fn new() -> (r: Accounts)
        ensures
            r@ == LedgerView::empty(),
            r@.wf(),
            r@.held_is_open_disputes(),
            r@.disputes_have_accounts(),
    {
        let r = Accounts { data: BTreeMap::new(), txs: BTreeMap::new() };
        proof {
            assert(r@.clients =~= Map::empty());
            assert(r@.txs =~= Map::empty());
        }
        r
    }

    /// Stores `c` as the balances of `client` and `rec` as transaction `tx`.
    fn store(&mut self, client: u16, c: ClientData, tx: u32, rec: TransactionRecord)
        ensures
            final(self)@ == old(self)@.with(client, c@, tx, rec@),
    {
        self.data.insert(client, c);
        self.txs.insert(tx, rec);
        proof {
            assert(self@.clients =~= old(self)@.clients.insert(client, c@));
            assert(self@.txs =~= old(self)@.txs.insert(tx, rec@));
        }
    }

    /// The balances of `client`, if it has an account.
    pub fn client(&self, client: u16) -> (r: Option<ClientData>)
        ensures
            match r {
                Some(c) => self@.clients.contains_key(client) && self@.clients[client] == c@,
                None => !self@.clients.contains_key(client),
            },
    {
        match self.data.get(&client) {
            Some(c) => Some(*c),
            None => None,
        }
    }

    /// The stored transaction `tx`, if any.
    pub fn transaction(&self, tx: u32) -> (r: Option<TransactionRecord>)
        ensures
            match r {
                Some(t) => self@.txs.contains_key(tx) && self@.txs[tx] == t@,
                None => !self@.txs.contains_key(tx),
            },
    {
        match self.txs.get(&tx) {
            Some(t) => Some(*t),
            None => None,
        }
    }

    /// Credits `amount` (kept to four decimal places) to `client`, opening
    /// the account if there is none, and stores the deposit as transaction
    /// `tx`. Refused by a locked account, and where `tx` is already stored.
    /// `BadOp` where a balance overflows.
    pub fn deposit(&mut self, client: u16, amount: Amount, tx: u32) -> (r: Result<
        OpOutcome,
        TxProError,
    >)
        requires
            old(self)@.wf(),
        ensures
            final(self)@.wf(),
            follows_step(r, old(self)@, final(self)@, spec_deposit(old(self)@, client, amount@, tx)),
    {
        let amount = amount.at_four_places();
        let rec = TransactionRecord {
            type_op: TxRecordTypeOp::Deposit,
            client,
            amount,
            state: TxState::Active,
        };
        let duplicate = self.transaction(tx).is_some();
        match self.client(client) {
            None => {
                if duplicate {
                    return Ok(OpOutcome::Rejected(RejectReason::DuplicateTx));
                }
                let zero = Amount::zero();
                let c = ClientData { available: amount, held: zero, total: amount, locked: false };
                self.store(client, c, tx, rec);
            },
            Some(c) => {
                if c.locked {
                    return Ok(OpOutcome::Rejected(RejectReason::AccountLocked));
                }
                if duplicate {
                    return Ok(OpOutcome::Rejected(RejectReason::DuplicateTx));
                }
                let available = match c.available.checked_add(&amount) {
                    Some(v) => v,
                    None => return Err(out_of_range()),
                };
                let total = match c.total.checked_add(&amount) {
                    Some(v) => v,
                    None => return Err(out_of_range()),
                };
                let c2 = ClientData { available, held: c.held, total, locked: c.locked };
                self.store(client, c2, tx, rec);
            },
        }
        Ok(OpOutcome::Applied)
    }

    /// Debits `amount` (kept to four decimal places) from `client` and
    /// stores the withdrawal as transaction `tx`. Refused for an unknown
    /// client, a locked account, less available than the amount, or where
    /// `tx` is already stored. `BadOp` where a balance overflows.
    pub fn withdrawal(&mut self, client: u16, amount: Amount, tx: u32) -> (r: Result<
        OpOutcome,
        TxProError,
    >)
        requires
            old(self)@.wf(),
        ensures
            final(self)@.wf(),
            follows_step(
                r,
                old(self)@,
                final(self)@,
                spec_withdrawal(old(self)@, client, amount@, tx),
            ),
    {
        let amount = amount.at_four_places();
        let c = match self.client(client) {
            None => return Ok(OpOutcome::Rejected(RejectReason::UnknownClient)),
            Some(c) => c,
        };
        if c.locked {
            return Ok(OpOutcome::Rejected(RejectReason::AccountLocked));
        }
        if c.available.less_than(&amount) {
            return Ok(OpOutcome::Rejected(RejectReason::InsufficientFunds));
        }
        if self.transaction(tx).is_some() {
            return Ok(OpOutcome::Rejected(RejectReason::DuplicateTx));
        }
        let available = match c.available.checked_sub(&amount) {
            Some(v) => v,
            None => return Err(out_of_range()),
        };
        let total = match c.total.checked_sub(&amount) {
            Some(v) => v,
            None => return Err(out_of_range()),
        };
        let c2 = ClientData { available, held: c.held, total, locked: c.locked };
        let rec = TransactionRecord {
            type_op: TxRecordTypeOp::Withdrawal,
            client,
            amount,
            state: TxState::Active,
        };
        self.store(client, c2, tx, rec);
        Ok(OpOutcome::Applied)
    }

    /// The client's balances and the stored transaction, where the client
    /// and the transaction exist, the transaction is in `state` and belongs
    /// to the client; else the reason to refuse.
    fn checked_tx(&self, client: u16, tx: u32, state: TxState, wrong_state: RejectReason) -> (r:
        Result<(ClientData, TransactionRecord), RejectReason>)
        ensures
            match r {
                Ok((c, t)) => crate::ledger::spec_check_tx(self@, client, tx, state, wrong_state)
                    is None && self@.clients[client] == c@ && self@.txs[tx] == t@,
                Err(reason) => crate::ledger::spec_check_tx(self@, client, tx, state, wrong_state)
                    == Some(reason),
            },
    {
        let c = match self.client(client) {
            None => return Err(RejectReason::UnknownClient),
            Some(c) => c,
        };
        let t = match self.transaction(tx) {
            None => return Err(RejectReason::DisputedTxNotFound),
            Some(t) => t,
        };
        if t.state != state {
            return Err(wrong_state);
        }
        if t.client != client {
            return Err(RejectReason::DisputedTxWrongClient);
        }
        Ok((c, t))
    }

    /// Holds the amount of an active transaction of `client`: moves it from
    /// `available` to `held` and marks the transaction disputed.
    pub fn dispute(&mut self, client: u16, tx: u32) -> (r: Result<OpOutcome, TxProError>)
        requires
            old(self)@.wf(),
        ensures
            final(self)@.wf(),
            follows_step(r, old(self)@, final(self)@, spec_dispute(old(self)@, client, tx)),
    {
        let (c, t) = match self.checked_tx(client, tx, TxState::Active, RejectReason::TxNotActive) {
            Err(reason) => return Ok(OpOutcome::Rejected(reason)),
            Ok(ct) => ct,
        };
        let amount = t.amount;
        if c.available.less_than(&amount) {
            return Ok(OpOutcome::Rejected(RejectReason::InsufficientFundsForDispute));
        }
        let available = match c.available.checked_sub(&amount) {
            Some(v) => v,
            None => return Err(out_of_range()),
        };
        let held = match c.held.checked_add(&amount) {
            Some(v) => v,
            None => return Err(out_of_range()),
        };
        let c2 = ClientData { available, held, total: c.total, locked: c.locked };
        let rec = TransactionRecord {
            type_op: t.type_op,
            client,
            amount,
            state: TxState::Disputed,
        };
        self.store(client, c2, tx, rec);
        Ok(OpOutcome::Applied)
    }

    /// Releases a disputed transaction of `client`: moves its amount from
    /// `held` back to `available` and marks the transaction resolved.
    pub fn resolve(&mut self, client: u16, tx: u32) -> (r: Result<OpOutcome, TxProError>)
        requires
            old(self)@.wf(),
        ensures
            final(self)@.wf(),
            follows_step(r, old(self)@, final(self)@, spec_resolve(old(self)@, client, tx)),
    {
        let (c, t) = match self.checked_tx(client, tx, TxState::Disputed, RejectReason::TxNotDisputed) {
            Err(reason) => return Ok(OpOutcome::Rejected(reason)),
            Ok(ct) => ct,
        };
        let amount = t.amount;
        if c.held.less_than(&amount) {
            return Ok(OpOutcome::Rejected(RejectReason::InsufficientHeldFunds));
        }
        let available = match c.available.checked_add(&amount) {
            Some(v) => v,
            None => return Err(out_of_range()),
        };
        let held = match c.held.checked_sub(&amount) {
            Some(v) => v,
            None => return Err(out_of_range()),
        };
        let c2 = ClientData { available, held, total: c.total, locked: c.locked };
        let rec = TransactionRecord {
            type_op: t.type_op,
            client,
            amount,
            state: TxState::Resolved,
        };
        self.store(client, c2, tx, rec);
        Ok(OpOutcome::Applied)
    }

    /// Reverses a disputed transaction of `client`: takes its amount out of
    /// `held` and `total`, locks the account and marks the transaction
    /// charged back.
    pub fn chargeback(&mut self, client: u16, tx: u32) -> (r: Result<OpOutcome, TxProError>)
        requires
            old(self)@.wf(),
        ensures
            final(self)@.wf(),
            follows_step(r, old(self)@, final(self)@, spec_chargeback(old(self)@, client, tx)),
    {
        let (c, t) = match self.checked_tx(client, tx, TxState::Disputed, RejectReason::TxNotDisputed) {
            Err(reason) => return Ok(OpOutcome::Rejected(reason)),
            Ok(ct) => ct,
        };
        let amount = t.amount;
        if c.held.less_than(&amount) {
            return Ok(OpOutcome::Rejected(RejectReason::InsufficientHeldFunds));
        }
        let held = match c.held.checked_sub(&amount) {
            Some(v) => v,
            None => return Err(out_of_range()),
        };
        let total = match c.total.checked_sub(&amount) {
            Some(v) => v,
            None => return Err(out_of_range()),
        };
        let c2 = ClientData { available: c.available, held, total, locked: true };
        let rec = TransactionRecord {
            type_op: t.type_op,
            client,
            amount,
            state: TxState::ChargedBack,
        };
        self.store(client, c2, tx, rec);
        Ok(OpOutcome::Applied)
    }

    /// One output line per client, in increasing order of client id.
    pub fn client_records(&self) -> (r: Vec<OutputRecord>)
        ensures
            lists_clients(self@, r@),
    {
        let mut out: Vec<OutputRecord> = Vec::new();
        let ghost items = vstd::std_specs::btree::spec_btree_map_iter(&self.data).remaining();
        proof {
            assert(vstd::std_specs::btree::key_obeys_cmp_spec::<u16>());
        }
        for (k, v) in it: self.data.iter()
            invariant
                it.seq() == items,
                out@.len() == it.index(),
                forall|i: int|
                    0 <= i < it.index() ==> out@[i].client == *it.seq()[i].0 && out@[i].available
                        == it.seq()[i].1.available && out@[i].held == it.seq()[i].1.held
                        && out@[i].total == it.seq()[i].1.total && out@[i].locked == it.seq()[i].1.locked,
        {
            out.push(
                OutputRecord {
                    client: *k,
                    available: v.available,
                    held: v.held,
                    total: v.total,
                    locked: v.locked,
                },
            );
        }
        proof {
            broadcast use vstd::laws_cmp::group_laws_cmp;

            let m = self.data@;
            assert(out@.len() == items.len());
            assert(items.len() == m.dom().len());
            assert(self@.clients.dom() =~= m.dom());
            let keys = items.map_values(|kv: (&u16, &ClientData)| *kv.0);
            assert(vstd::std_specs::btree::increasing_seq(keys));
            assert forall|i: int, j: int| 0 <= i < j < out@.len() implies out@[i].client < out@[j].client by {
                assert(keys[i] == out@[i].client);
                assert(keys[j] == out@[j].client);
                assert(vstd::laws_cmp::obeys_cmp::<u16>());
                assert(vstd::std_specs::cmp::OrdSpec::cmp_spec(&keys[i], &keys[j]) is Less);
            }
            assert forall|i: int| 0 <= i < out@.len() implies self@.clients.contains_key(
                #[trigger] out@[i].client,
            ) && is_output_of(out@[i], out@[i].client, self@.clients[out@[i].client]) by {
                assert(m.contains_key(*items[i].0));
                assert(m[*items[i].0] == *items[i].1);
            }
            assert forall|c: u16| self@.clients.contains_key(c) implies exists|i: int|
                0 <= i < out@.len() && #[trigger] out@[i].client == c by {
                assert(m.contains_key(c));
                assert(items.contains((&c, &m[c])));
                let i = choose|i: int| 0 <= i < items.len() && items[i] == (&c, &m[c]);
                assert(out@[i].client == c);
            }
        }
        out
    }
}

} // verus!
