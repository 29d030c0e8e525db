//! Routes a parsed row to the ledger operation its type names.
use vstd::prelude::*;
use crate::accounts::{Accounts, follows_step};
use crate::amount::AmountView;
use crate::error::TxProError;
use crate::ledger::{Command, spec_apply};
use crate::types::{InputRecord, OpOutcome, TypeOp};

verus! {

/// The ledger command of kind `op` with the given client, amount and
/// transaction id (dispute, resolve and chargeback take no amount).
pub open spec fn spec_command_of(op: TypeOp, client: u16, amount: AmountView, tx: u32) -> Command {
    match op {
        TypeOp::Deposit => Command::Deposit { client, amount, tx },
        TypeOp::Withdrawal => Command::Withdrawal { client, amount, tx },
        TypeOp::Dispute => Command::Dispute { client, tx },
        TypeOp::Resolve => Command::Resolve { client, tx },
        TypeOp::Chargeback => Command::Chargeback { client, tx },
    }
}

/// The ledger command that a row asks for, given its operation kind.
pub open spec fn spec_command(r: InputRecord, op: TypeOp) -> Command {
    spec_command_of(op, r.client, r.amount@, r.tx)
}

/// Applies the operation `op` to `accounts` with the client, transaction
/// and amount of `r`.
pub fn dispatch(r: &InputRecord, op: TypeOp, accounts: &mut Accounts) -> (res: Result<
    OpOutcome,
    TxProError,
>)
    requires
        old(accounts)@.wf(),
    ensures
        final(accounts)@.wf(),
        follows_step(res, old(accounts)@, final(accounts)@, spec_apply(old(accounts)@, spec_command(*r, op))),
{
    match op {
        TypeOp::Deposit => accounts.deposit(r.client, r.amount, r.tx),
        TypeOp::Withdrawal => accounts.withdrawal(r.client, r.amount, r.tx),
        TypeOp::Dispute => accounts.dispute(r.client, r.tx),
        TypeOp::Resolve => accounts.resolve(r.client, r.tx),
        TypeOp::Chargeback => accounts.chargeback(r.client, r.tx),
    }
}

} // verus!
