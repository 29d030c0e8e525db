use tx_processor::types::TypeOp;

#[test]
fn type_op_conversions() {
    for op in [
        TypeOp::Deposit,
        TypeOp::Withdrawal,
        TypeOp::Dispute,
        TypeOp::Resolve,
        TypeOp::Chargeback,
    ] {
        assert_eq!(op.to_string().parse::<TypeOp>().unwrap(), op);
    }
}

#[test]
fn type_op_names() {
    assert_eq!(TypeOp::Deposit.to_string(), "deposit");
    assert_eq!(TypeOp::Withdrawal.to_string(), "withdrawal");
    assert_eq!(TypeOp::Dispute.to_string(), "dispute");
    assert_eq!(TypeOp::Resolve.to_string(), "resolve");
    assert_eq!(TypeOp::Chargeback.to_string(), "chargeback");
}

#[test]
fn unknown_type_op_is_refused_with_its_text() {
    let err = TypeOp::parse_str("Deposit").unwrap_err();
    assert_eq!(err.0, "Deposit");
    let err = "transfer".parse::<TypeOp>().unwrap_err();
    assert_eq!(err.0, "transfer");
    assert!(TypeOp::parse_str("").is_err());
}
