use tx_processor::amount::Amount;
use tx_processor::error::TxProError;
use tx_processor::parser::{Columns, InputRecordParser};
use tx_processor::text::{parse_unsigned, str_eq_ignore_ascii_case, str_equal};
use tx_processor::types::TypeOp;

/// The value in ten-thousandths of an amount with at most four decimal places.
trait Units {
    fn units(&self) -> i128;
}

impl Units for Amount {
    fn units(&self) -> i128 {
        self.mantissa() * 10i128.pow(4 - self.scale())
    }
}


fn row(fields: &[&str]) -> Vec<String> {
    fields.iter().map(|s| s.to_string()).collect()
}

fn cols() -> Columns {
    Columns::resolve(&row(&["type", "client", "tx", "amount"])).unwrap()
}

fn bad_field(e: TxProError) -> (u64, &'static str, String, &'static str) {
    match e {
        TxProError::BadField { line, column, value, expected } => (line, column, value, expected),
        other => panic!("not a BadField: {:?}", other),
    }
}

#[test]
fn resolve_finds_columns_in_any_order_and_case() {
    let c = Columns::resolve(&row(&["Amount", "TX", "extra", "Client", "type"])).unwrap();
    let (rec, op) = InputRecordParser::parse_record(&row(&["1.5", "7", "x", "3", "deposit"]), &c, 2).unwrap();
    assert_eq!(op, TypeOp::Deposit);
    assert_eq!(rec.client, 3);
    assert_eq!(rec.tx, 7);
    assert_eq!(rec.amount.units(), 15000);
}

#[test]
fn resolve_reports_first_missing_column() {
    match Columns::resolve(&row(&["type", "tx", "amount"])) {
        Err(TxProError::MissingColumn(name)) => assert_eq!(name, "client"),
        _ => panic!("expected MissingColumn"),
    }
    match Columns::resolve(&row(&[])) {
        Err(TxProError::MissingColumn(name)) => assert_eq!(name, "type"),
        _ => panic!("expected MissingColumn"),
    }
    match Columns::resolve(&row(&["type", "client", "tx", "amounts"])) {
        Err(TxProError::MissingColumn(name)) => assert_eq!(name, "amount"),
        _ => panic!("expected MissingColumn"),
    }
}

#[test]
fn parse_record_reads_a_row() {
    let (rec, op) = InputRecordParser::parse_record(&row(&["withdrawal", "1", "101", "3.50"]), &cols(), 3).unwrap();
    assert_eq!(op, TypeOp::Withdrawal);
    assert_eq!(rec.type_op, "withdrawal");
    assert_eq!((rec.client, rec.tx, rec.amount.units()), (1, 101, 35000));
}

#[test]
fn parse_record_empty_amount_is_zero() {
    let (rec, op) = InputRecordParser::parse_record(&row(&["dispute", "1", "100", ""]), &cols(), 4).unwrap();
    assert_eq!(op, TypeOp::Dispute);
    assert_eq!(rec.amount.units(), 0);
    assert_eq!(rec.amount.scale(), 4);
}

#[test]
fn deposit_and_withdrawal_need_an_amount() {
    let c = cols();
    let e = InputRecordParser::parse_record(&row(&["deposit", "1", "5", ""]), &c, 2).unwrap_err();
    assert_eq!(bad_field(e), (2, "amount", "<missing>".to_string(), "present"));
    let e = InputRecordParser::parse_record(&row(&["withdrawal", "1", "5", ""]), &c, 3).unwrap_err();
    assert_eq!(bad_field(e), (3, "amount", "<missing>".to_string(), "present"));
    for kind in ["resolve", "chargeback"] {
        let (rec, _) = InputRecordParser::parse_record(&row(&[kind, "1", "5", ""]), &c, 4).unwrap();
        assert_eq!(rec.amount.units(), 0);
    }
}

#[test]
fn parse_record_errors() {
    let c = cols();
    let e = InputRecordParser::parse_record(&row(&["deposit", "1"]), &c, 5).unwrap_err();
    assert_eq!(bad_field(e), (5, "tx", "<missing>".to_string(), "present"));
    let e = InputRecordParser::parse_record(&row(&["lend", "1", "2", "3"]), &c, 6).unwrap_err();
    assert_eq!(bad_field(e), (6, "type", "lend".to_string(), "TypeOp"));
    let e = InputRecordParser::parse_record(&row(&["deposit", "70000", "2", "3"]), &c, 7).unwrap_err();
    assert_eq!(bad_field(e), (7, "client", "70000".to_string(), "u16"));
    let e = InputRecordParser::parse_record(&row(&["deposit", "1", "-2", "3"]), &c, 8).unwrap_err();
    assert_eq!(bad_field(e), (8, "tx", "-2".to_string(), "u32"));
    let e = InputRecordParser::parse_record(&row(&["deposit", "1", "2", "ten"]), &c, 9).unwrap_err();
    assert_eq!(bad_field(e), (9, "amount", "ten".to_string(), "Decimal"));
    let e = InputRecordParser::parse_record(&row(&[]), &c, 10).unwrap_err();
    assert_eq!(bad_field(e), (10, "type", "<missing>".to_string(), "present"));
}

#[test]
fn unsigned_numbers() {
    assert_eq!(parse_unsigned("0", 0xFFFF), Some(0));
    assert_eq!(parse_unsigned("+42", 0xFFFF), Some(42));
    assert_eq!(parse_unsigned("0065535", 0xFFFF), Some(65535));
    assert_eq!(parse_unsigned("65536", 0xFFFF), None);
    assert_eq!(parse_unsigned("4294967295", 0xFFFF_FFFF), Some(4294967295));
    assert_eq!(parse_unsigned("4294967296", 0xFFFF_FFFF), None);
    assert_eq!(parse_unsigned("", 0xFFFF), None);
    assert_eq!(parse_unsigned("+", 0xFFFF), None);
    assert_eq!(parse_unsigned("-1", 0xFFFF), None);
    assert_eq!(parse_unsigned("1 ", 0xFFFF), None);
    assert_eq!(parse_unsigned("99999999999x", 0xFFFF), None);
}

#[test]
fn text_comparisons() {
    assert!(str_equal("tx", "tx"));
    assert!(!str_equal("tx", "tX"));
    assert!(!str_equal("tx", "txs"));
    assert!(str_eq_ignore_ascii_case("AmOuNt", "amount"));
    assert!(!str_eq_ignore_ascii_case("amount", "amounts"));
    assert!(!str_eq_ignore_ascii_case("a", "b"));
    assert!(str_eq_ignore_ascii_case("é", "é"));
}
