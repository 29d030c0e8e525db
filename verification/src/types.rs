//! The records that flow through the processor, and the outcome of an operation.
use vstd::prelude::*;
use crate::amount::{Amount, AmountView};

verus! {

/// The kind of operation an input row asks for.
#[derive(Debug, Clone, Copy, PartialEq, Eq, Structural)]
pub enum TypeOp {
    Deposit,
    Withdrawal,
    Dispute,
    Resolve,
    Chargeback,
}

/// The name of an operation kind as it appears in the `type` column.
pub open spec fn spec_type_op_name(op: TypeOp) -> Seq<char> {
    match op {
        TypeOp::Deposit => "deposit"@,
        TypeOp::Withdrawal => "withdrawal"@,
        TypeOp::Dispute => "dispute"@,
        TypeOp::Resolve => "resolve"@,
        TypeOp::Chargeback => "chargeback"@,
    }
}

/// The operation kind that a `type` column names, if any.
pub open spec fn spec_parse_type_op(s: Seq<char>) -> Option<TypeOp> {
    if s == "deposit"@ {
        Some(TypeOp::Deposit)
    } else if s == "withdrawal"@ {
        Some(TypeOp::Withdrawal)
    } else if s == "dispute"@ {
        Some(TypeOp::Dispute)
    } else if s == "resolve"@ {
        Some(TypeOp::Resolve)
    } else if s == "chargeback"@ {
        Some(TypeOp::Chargeback)
    } else {
        None
    }
}

/// A `type` value that names no operation.
#[derive(Debug, Clone, PartialEq, Eq)]
pub struct UnknownTypeOp(pub String);

impl TypeOp {
    /// Reads an operation kind from its lower-case name.
    pub fn parse_str(s: &str) -> (r: Result<TypeOp, UnknownTypeOp>)
        ensures
            match r {
                Ok(op) => spec_parse_type_op(s@) == Some(op),
                Err(e) => spec_parse_type_op(s@) is None && e.0@ == s@,
            },
    {
        if crate::text::str_equal(s, "deposit") {
            Ok(TypeOp::Deposit)
        } else if crate::text::str_equal(s, "withdrawal") {
            Ok(TypeOp::Withdrawal)
        } else if crate::text::str_equal(s, "dispute") {
            Ok(TypeOp::Dispute)
        } else if crate::text::str_equal(s, "resolve") {
            Ok(TypeOp::Resolve)
        } else if crate::text::str_equal(s, "chargeback") {
            Ok(TypeOp::Chargeback)
        } else {
            Err(UnknownTypeOp(s.to_owned()))
        }
    }

    /// The operation's name, as the `type` column writes it.
    pub fn to_string(&self) -> (r: String)
        ensures
            r@ == spec_type_op_name(*self),
    {
        match self {
            TypeOp::Deposit => "deposit".to_owned(),
            TypeOp::Withdrawal => "withdrawal".to_owned(),
            TypeOp::Dispute => "dispute".to_owned(),
            TypeOp::Resolve => "resolve".to_owned(),
            TypeOp::Chargeback => "chargeback".to_owned(),
        }
    }
}

impl std::str::FromStr for TypeOp {
    type Err = UnknownTypeOp;

    /// Reads an operation kind from its lower-case name, as `parse_str`.
    fn from_str(s: &str) -> (r: Result<TypeOp, UnknownTypeOp>)
        ensures
            match r {
                Ok(op) => spec_parse_type_op(s@) == Some(op),
                Err(e) => spec_parse_type_op(s@) is None && e.0@ == s@,
            },
    {
        TypeOp::parse_str(s)
    }
}

/// One parsed input row.
#[derive(Debug, Clone)]
pub struct InputRecord {
    pub type_op: String,
    pub client: u16,
    pub tx: u32,
    pub amount: Amount,
}

/// The header line of the output.
pub const OUTPUT_HEADER: &'static str = "client,available,held,total,locked";

/// Balances of one client. `available + held == total` holds of every
/// account that the ledger keeps.
#[derive(Debug, Clone, Copy, PartialEq, Eq)]
pub struct ClientData {
    pub available: Amount,
    pub held: Amount,
    pub total: Amount,
    pub locked: bool,
}

/// Abstract balances of one client.
pub struct ClientView {
    pub available: AmountView,
    pub held: AmountView,
    pub total: AmountView,
    pub locked: bool,
}

impl View for ClientData {
    type V = ClientView;

    open spec fn view(&self) -> ClientView {
        ClientView {
            available: self.available@,
            held: self.held@,
            total: self.total@,
            locked: self.locked,
        }
    }
}

/// One line of the output: a client and its balances.
#[derive(Debug, Clone, Copy, PartialEq, Eq)]
pub struct OutputRecord {
    pub client: u16,
    pub available: Amount,
    pub held: Amount,
    pub total: Amount,
    pub locked: bool,
}

/// A stored deposit or withdrawal. Only `state` ever changes.
#[derive(Debug, Clone, Copy, PartialEq, Eq)]
pub struct TransactionRecord {
    pub type_op: TxRecordTypeOp,
    pub client: u16,
    pub amount: Amount,
    pub state: TxState,
}

/// Abstract stored transaction.
pub struct TxView {
    pub type_op: TxRecordTypeOp,
    pub client: u16,
    pub amount: AmountView,
    pub state: TxState,
}

impl View for TransactionRecord {
    type V = TxView;

    open spec fn view(&self) -> TxView {
        TxView {
            type_op: self.type_op,
            client: self.client,
            amount: self.amount@,
            state: self.state,
        }
    }
}

/// Whether a stored transaction moved money in or out.
#[derive(Debug, Clone, Copy, PartialEq, Eq, Structural)]
pub enum TxRecordTypeOp {
    Deposit,
    Withdrawal,
}

/// Where a stored transaction is in its dispute lifecycle.
#[derive(Debug, Clone, Copy, PartialEq, Eq, Structural)]
pub enum TxState {
    Active,
    Disputed,
    Resolved,
    ChargedBack,
}

/// What an operation did: it was applied, or refused for a business reason.
#[derive(Debug, Clone, Copy, PartialEq, Eq, Structural)]
pub enum OpOutcome {
    Applied,
    Rejected(RejectReason),
}

/// Why an operation was refused.
#[derive(Debug, Clone, Copy, PartialEq, Eq, Structural)]
pub enum RejectReason {
    InsufficientFunds,
    InsufficientFundsForDispute,
    UnknownClient,
    DisputedTxNotFound,
    DisputedTxWrongClient,
    TxNotDisputed,
    TxNotActive,
    InsufficientHeldFunds,
    AccountLocked,
    /// A deposit or withdrawal names a transaction id that is already stored.
    DuplicateTx,
}

} // verus!
