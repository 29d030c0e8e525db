//! Applies a row whose operation is still written as text.
use vstd::prelude::*;
use crate::accounts::{Accounts, out_of_range_message};
use crate::dispatcher::{dispatch, spec_command};
use crate::error::TxProError;
use crate::ledger::spec_apply;
use crate::types::{InputRecord, TypeOp, spec_parse_type_op};

verus! {

pub struct InputRecordProcessor;

impl InputRecordProcessor {
    /// Reads the operation kind of `r` and applies it to `accounts`; the
    /// outcome (applied or refused) is dropped, errors are passed on. An
    /// unknown kind gives `BadTypeOp` and leaves the accounts alone.
    pub fn process(r: InputRecord, accounts: &mut Accounts) -> (res: Result<(), TxProError>)
        requires
            old(accounts)@.wf(),
        ensures
            final(accounts)@.wf(),
            match spec_parse_type_op(r.type_op@) {
                None => {
                    &&& res matches Err(TxProError::BadTypeOp { value, source })
                    &&& value@ == r.type_op@
                    &&& source.0@ == r.type_op@
                    &&& final(accounts)@ == old(accounts)@
                },
                Some(op) => match spec_apply(old(accounts)@, spec_command(r, op)) {
                    Some((s, _)) => res is Ok && final(accounts)@ == s,
                    None => res matches Err(TxProError::BadOp { value }) && value@
                        == out_of_range_message() && final(accounts)@ == old(accounts)@,
                },
            },
    {
        let type_op = match TypeOp::parse_str(r.type_op.as_str()) {
            Ok(op) => op,
            Err(source) => return Err(TxProError::BadTypeOp { value: r.type_op, source }),
        };
        match dispatch(&r, type_op, accounts) {
            Ok(_) => Ok(()),
            Err(e) => Err(e),
        }
    }
}

} // verus!
