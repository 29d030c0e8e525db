use tx_processor::accounts::Accounts;
use tx_processor::amount::{Amount, MAX_UNITS};
use tx_processor::error::TxProError;
use tx_processor::types::{OpOutcome, RejectReason, TxRecordTypeOp, TxState};

/// The value in ten-thousandths of an amount with at most four decimal places.
trait Units {
    fn units(&self) -> i128;
}

impl Units for Amount {
    fn units(&self) -> i128 {
        self.mantissa() * 10i128.pow(4 - self.scale())
    }
}


fn dec(mantissa: i128, scale: u32) -> Amount {
    Amount::from_decimal_parts(mantissa, scale)
}

fn balances(acc: &Accounts, client: u16) -> (i128, i128, i128, bool) {
    let c = acc.client(client).unwrap();
    (c.available.units(), c.held.units(), c.total.units(), c.locked)
}

fn rejected(r: RejectReason) -> OpOutcome {
    OpOutcome::Rejected(r)
}

#[test]
fn deposit_opens_account_with_untouched_zero_held() {
    let mut acc = Accounts::new();
    assert_eq!(acc.deposit(1, dec(1000, 2), 100).unwrap(), OpOutcome::Applied);
    let c = acc.client(1).unwrap();
    assert_eq!(c.available.mantissa(), 100000);
    assert_eq!(c.available.scale(), 4);
    assert_eq!(c.held.mantissa(), 0);
    assert_eq!(c.held.scale(), 0);
    assert_eq!(c.total.units(), 100000);
    assert!(!c.locked);
    let t = acc.transaction(100).unwrap();
    assert_eq!(t.type_op, TxRecordTypeOp::Deposit);
    assert_eq!(t.client, 1);
    assert_eq!(t.amount.units(), 100000);
    assert_eq!(t.state, TxState::Active);
}

#[test]
fn deposit_adds_to_existing_account() {
    let mut acc = Accounts::new();
    acc.deposit(1, dec(1000, 2), 100).unwrap();
    acc.deposit(1, dec(25, 1), 101).unwrap();
    assert_eq!(balances(&acc, 1), (125000, 0, 125000, false));
}

#[test]
fn deposit_of_zero_is_kept_with_four_places() {
    let mut acc = Accounts::new();
    acc.deposit(7, Amount::zero(), 1).unwrap();
    let c = acc.client(7).unwrap();
    assert_eq!(c.available.scale(), 4);
    assert_eq!(acc.transaction(1).unwrap().amount.scale(), 4);
}

#[test]
fn withdrawal_debits_available_and_total() {
    let mut acc = Accounts::new();
    acc.deposit(1, dec(1000, 2), 100).unwrap();
    assert_eq!(acc.withdrawal(1, dec(350, 2), 101).unwrap(), OpOutcome::Applied);
    assert_eq!(balances(&acc, 1), (65000, 0, 65000, false));
    assert_eq!(acc.transaction(101).unwrap().type_op, TxRecordTypeOp::Withdrawal);
}

#[test]
fn withdrawal_of_everything_is_allowed() {
    let mut acc = Accounts::new();
    acc.deposit(1, dec(1000, 2), 100).unwrap();
    assert_eq!(acc.withdrawal(1, dec(10, 0), 101).unwrap(), OpOutcome::Applied);
    assert_eq!(balances(&acc, 1), (0, 0, 0, false));
}

#[test]
fn withdrawal_refusals() {
    let mut acc = Accounts::new();
    assert_eq!(
        acc.withdrawal(1, dec(1, 0), 100).unwrap(),
        rejected(RejectReason::UnknownClient)
    );
    assert!(acc.client(1).is_none());
    assert!(acc.transaction(100).is_none());
    acc.deposit(1, dec(5, 0), 101).unwrap();
    assert_eq!(
        acc.withdrawal(1, dec(50001, 4), 102).unwrap(),
        rejected(RejectReason::InsufficientFunds)
    );
    assert_eq!(balances(&acc, 1), (50000, 0, 50000, false));
    assert!(acc.transaction(102).is_none());
}

#[test]
fn dispute_resolve_round_trip() {
    let mut acc = Accounts::new();
    acc.deposit(1, dec(1000, 2), 100).unwrap();
    acc.deposit(1, dec(500, 2), 101).unwrap();
    assert_eq!(acc.dispute(1, 100).unwrap(), OpOutcome::Applied);
    assert_eq!(balances(&acc, 1), (50000, 100000, 150000, false));
    assert_eq!(acc.transaction(100).unwrap().state, TxState::Disputed);
    assert_eq!(acc.resolve(1, 100).unwrap(), OpOutcome::Applied);
    assert_eq!(balances(&acc, 1), (150000, 0, 150000, false));
    let t = acc.transaction(100).unwrap();
    assert_eq!(t.state, TxState::Resolved);
    assert_eq!(t.amount.units(), 100000);
    assert_eq!(t.type_op, TxRecordTypeOp::Deposit);
    // held is now written with four places
    assert_eq!(acc.client(1).unwrap().held.scale(), 4);
}

#[test]
fn chargeback_removes_funds_and_locks() {
    let mut acc = Accounts::new();
    acc.deposit(1, dec(1000, 2), 100).unwrap();
    acc.deposit(1, dec(300, 2), 101).unwrap();
    acc.dispute(1, 100).unwrap();
    assert_eq!(acc.chargeback(1, 100).unwrap(), OpOutcome::Applied);
    assert_eq!(balances(&acc, 1), (30000, 0, 30000, true));
    assert_eq!(acc.transaction(100).unwrap().state, TxState::ChargedBack);
}

#[test]
fn locked_account_refuses_deposit_and_withdrawal_only() {
    let mut acc = Accounts::new();
    acc.deposit(1, dec(10, 0), 100).unwrap();
    acc.deposit(1, dec(5, 0), 101).unwrap();
    acc.dispute(1, 100).unwrap();
    acc.dispute(1, 101).unwrap();
    acc.chargeback(1, 100).unwrap();
    assert_eq!(
        acc.deposit(1, dec(1, 0), 102).unwrap(),
        rejected(RejectReason::AccountLocked)
    );
    assert_eq!(
        acc.withdrawal(1, dec(1, 0), 103).unwrap(),
        rejected(RejectReason::AccountLocked)
    );
    assert!(acc.transaction(102).is_none());
    // an open dispute can still be settled
    assert_eq!(acc.resolve(1, 101).unwrap(), OpOutcome::Applied);
    assert_eq!(balances(&acc, 1), (50000, 0, 50000, true));
}

#[test]
fn lock_is_permanent() {
    let mut acc = Accounts::new();
    acc.deposit(1, dec(10, 0), 100).unwrap();
    acc.dispute(1, 100).unwrap();
    acc.chargeback(1, 100).unwrap();
    acc.deposit(1, dec(10, 0), 101).unwrap();
    acc.dispute(1, 100).unwrap();
    acc.resolve(1, 100).unwrap();
    assert!(acc.client(1).unwrap().locked);
}

#[test]
fn no_double_apply() {
    let mut acc = Accounts::new();
    acc.deposit(1, dec(10, 0), 100).unwrap();
    assert_eq!(acc.dispute(1, 100).unwrap(), OpOutcome::Applied);
    assert_eq!(acc.dispute(1, 100).unwrap(), rejected(RejectReason::TxNotActive));
    assert_eq!(balances(&acc, 1), (0, 100000, 100000, false));
    assert_eq!(acc.resolve(1, 100).unwrap(), OpOutcome::Applied);
    assert_eq!(acc.resolve(1, 100).unwrap(), rejected(RejectReason::TxNotDisputed));
    assert_eq!(acc.dispute(1, 100).unwrap(), rejected(RejectReason::TxNotActive));
    assert_eq!(balances(&acc, 1), (100000, 0, 100000, false));

    acc.deposit(1, dec(2, 0), 200).unwrap();
    acc.dispute(1, 200).unwrap();
    assert_eq!(acc.chargeback(1, 200).unwrap(), OpOutcome::Applied);
    assert_eq!(acc.chargeback(1, 200).unwrap(), rejected(RejectReason::TxNotDisputed));
    assert_eq!(balances(&acc, 1), (100000, 0, 100000, true));
}

#[test]
fn dispute_refusals() {
    let mut acc = Accounts::new();
    assert_eq!(acc.dispute(1, 100).unwrap(), rejected(RejectReason::UnknownClient));
    acc.deposit(1, dec(10, 0), 100).unwrap();
    acc.deposit(2, dec(10, 0), 200).unwrap();
    assert_eq!(acc.dispute(1, 999).unwrap(), rejected(RejectReason::DisputedTxNotFound));
    assert_eq!(acc.dispute(1, 200).unwrap(), rejected(RejectReason::DisputedTxWrongClient));
    acc.withdrawal(1, dec(5, 0), 101).unwrap();
    assert_eq!(
        acc.dispute(1, 100).unwrap(),
        rejected(RejectReason::InsufficientFundsForDispute)
    );
    assert_eq!(balances(&acc, 1), (50000, 0, 50000, false));
    assert_eq!(balances(&acc, 2), (100000, 0, 100000, false));
}

#[test]
fn resolve_and_chargeback_refusals() {
    let mut acc = Accounts::new();
    assert_eq!(acc.resolve(1, 100).unwrap(), rejected(RejectReason::UnknownClient));
    assert_eq!(acc.chargeback(1, 100).unwrap(), rejected(RejectReason::UnknownClient));
    acc.deposit(1, dec(10, 0), 100).unwrap();
    assert_eq!(acc.resolve(1, 5).unwrap(), rejected(RejectReason::DisputedTxNotFound));
    assert_eq!(acc.resolve(1, 100).unwrap(), rejected(RejectReason::TxNotDisputed));
    assert_eq!(acc.chargeback(1, 100).unwrap(), rejected(RejectReason::TxNotDisputed));
    acc.deposit(2, dec(10, 0), 200).unwrap();
    acc.dispute(2, 200).unwrap();
    assert_eq!(acc.resolve(1, 200).unwrap(), rejected(RejectReason::DisputedTxWrongClient));
    assert_eq!(acc.chargeback(1, 200).unwrap(), rejected(RejectReason::DisputedTxWrongClient));
}

#[test]
fn insufficient_held_funds() {
    let mut acc = Accounts::new();
    acc.deposit(1, dec(10, 0), 1).unwrap();
    acc.dispute(1, 1).unwrap();
    // a negative deposit, disputed, lowers the held funds
    acc.deposit(1, dec(-5, 0), 2).unwrap();
    assert_eq!(balances(&acc, 1), (-50000, 100000, 50000, false));
    assert_eq!(acc.dispute(1, 2).unwrap(), OpOutcome::Applied);
    assert_eq!(balances(&acc, 1), (0, 50000, 50000, false));
    assert_eq!(acc.resolve(1, 1).unwrap(), rejected(RejectReason::InsufficientHeldFunds));
    assert_eq!(acc.chargeback(1, 1).unwrap(), rejected(RejectReason::InsufficientHeldFunds));
    assert_eq!(balances(&acc, 1), (0, 50000, 50000, false));
}

#[test]
fn reused_tx_id_is_refused_and_record_kept() {
    let mut acc = Accounts::new();
    acc.deposit(1, dec(10, 0), 1).unwrap();
    acc.dispute(1, 1).unwrap();
    assert_eq!(acc.deposit(1, dec(3, 0), 1).unwrap(), rejected(RejectReason::DuplicateTx));
    // the funds check comes first: all of the balance is held
    assert_eq!(acc.withdrawal(1, dec(3, 0), 1).unwrap(), rejected(RejectReason::InsufficientFunds));
    assert_eq!(acc.withdrawal(1, dec(0, 0), 1).unwrap(), rejected(RejectReason::DuplicateTx));
    assert_eq!(acc.deposit(2, dec(3, 0), 1).unwrap(), rejected(RejectReason::DuplicateTx));
    assert!(acc.client(2).is_none());
    let t = acc.transaction(1).unwrap();
    assert_eq!(t.state, TxState::Disputed);
    assert_eq!(t.type_op, TxRecordTypeOp::Deposit);
    assert_eq!(t.amount.units(), 100000);
    assert_eq!(balances(&acc, 1), (0, 100000, 100000, false));
}

#[test]
fn held_is_the_sum_of_open_disputes() {
    let mut acc = Accounts::new();
    acc.deposit(1, dec(10, 0), 1).unwrap();
    acc.deposit(1, dec(5, 0), 2).unwrap();
    acc.deposit(1, dec(2, 0), 3).unwrap();
    acc.deposit(2, dec(4, 0), 4).unwrap();
    acc.dispute(1, 1).unwrap();
    acc.dispute(1, 2).unwrap();
    acc.dispute(2, 4).unwrap();
    assert_eq!(balances(&acc, 1).1, 150000);
    acc.resolve(1, 1).unwrap();
    assert_eq!(balances(&acc, 1).1, 50000);
    acc.dispute(1, 3).unwrap();
    acc.chargeback(1, 2).unwrap();
    assert_eq!(balances(&acc, 1).1, 20000);
    assert_eq!(balances(&acc, 2).1, 40000);
}

#[test]
fn large_balances_lower_their_scale() {
    let mut acc = Accounts::new();
    acc.deposit(1, dec(MAX_UNITS, 4), 1).unwrap();
    assert_eq!(acc.deposit(1, dec(1, 0), 2).unwrap(), OpOutcome::Applied);
    let c = acc.client(1).unwrap();
    assert!(c.available.scale() < 4);
    assert!(dec(MAX_UNITS, 4).less_than(&c.available));
}

#[test]
fn overflow_is_an_error_and_changes_nothing() {
    let mut acc = Accounts::new();
    let top = dec(MAX_UNITS, 0);
    acc.deposit(1, top, 1).unwrap();
    let r = acc.deposit(1, top, 2);
    match r {
        Err(TxProError::BadOp { value }) => assert_eq!(value, "balance out of range"),
        _ => panic!("expected BadOp"),
    }
    assert!(acc.transaction(2).is_none());
    assert_eq!(acc.client(1).unwrap().total, top);
    let r = acc.withdrawal(1, dec(-MAX_UNITS, 0), 3);
    assert!(matches!(r, Err(TxProError::BadOp { .. })));
}

#[test]
fn refusal_order_with_a_reused_id() {
    let mut acc = Accounts::new();
    acc.deposit(1, dec(10, 0), 1).unwrap();
    acc.deposit(1, dec(10, 0), 2).unwrap();
    acc.dispute(1, 1).unwrap();
    acc.chargeback(1, 1).unwrap();
    // a locked account answers AccountLocked before DuplicateTx
    assert_eq!(acc.deposit(1, dec(3, 0), 2).unwrap(), rejected(RejectReason::AccountLocked));
    // an unknown client answers UnknownClient before DuplicateTx
    assert_eq!(acc.withdrawal(9, dec(3, 0), 2).unwrap(), rejected(RejectReason::UnknownClient));
    acc.deposit(3, dec(1, 0), 30).unwrap();
    assert_eq!(acc.withdrawal(3, dec(3, 0), 2).unwrap(), rejected(RejectReason::InsufficientFunds));
    assert_eq!(acc.withdrawal(3, dec(1, 0), 2).unwrap(), rejected(RejectReason::DuplicateTx));
}

#[test]
fn available_plus_held_is_total_throughout() {
    let mut acc = Accounts::new();
    let ops: Vec<Box<dyn Fn(&mut Accounts)>> = vec![
        Box::new(|a| { a.deposit(1, dec(1234, 2), 1).unwrap(); }),
        Box::new(|a| { a.deposit(2, dec(5, 1), 2).unwrap(); }),
        Box::new(|a| { a.withdrawal(1, dec(234, 2), 3).unwrap(); }),
        Box::new(|a| { a.dispute(1, 1).unwrap(); }),
        Box::new(|a| { a.dispute(2, 2).unwrap(); }),
        Box::new(|a| { a.resolve(2, 2).unwrap(); }),
        Box::new(|a| { a.chargeback(1, 1).unwrap(); }),
    ];
    for op in ops {
        op(&mut acc);
        for r in acc.client_records() {
            assert_eq!(r.available.units() + r.held.units(), r.total.units());
        }
    }
}

#[test]
fn client_records_are_ordered_by_client() {
    let mut acc = Accounts::new();
    acc.deposit(30, dec(3, 0), 1).unwrap();
    acc.deposit(2, dec(2, 0), 2).unwrap();
    acc.deposit(65535, dec(1, 0), 3).unwrap();
    acc.deposit(0, dec(4, 0), 4).unwrap();
    acc.deposit(2, dec(1, 0), 5).unwrap();
    let recs = acc.client_records();
    let clients: Vec<u16> = recs.iter().map(|r| r.client).collect();
    assert_eq!(clients, vec![0, 2, 30, 65535]);
    assert_eq!(recs[1].total.units(), 30000);
    assert!(Accounts::new().client_records().is_empty());
}

#[test]
fn withdrawal_undoes_deposit() {
    let mut acc = Accounts::new();
    acc.deposit(1, dec(7, 0), 1).unwrap();
    let before = balances(&acc, 1);
    acc.deposit(1, dec(1234, 3), 2).unwrap();
    assert_eq!(acc.withdrawal(1, dec(1234, 3), 3).unwrap(), OpOutcome::Applied);
    assert_eq!(balances(&acc, 1), before);
}
