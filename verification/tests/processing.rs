use tx_processor::accounts::Accounts;
use tx_processor::amount::Amount;
use tx_processor::driver::TxProcessor;
use tx_processor::error::TxProError;
use tx_processor::input_record_processor::InputRecordProcessor;
use tx_processor::parser::Columns;
use tx_processor::output::{digits, output_line};
use tx_processor::types::{InputRecord, OpOutcome, OutputRecord, RejectReason, OUTPUT_HEADER};

/// The value in ten-thousandths of an amount with at most four decimal places.
trait Units {
    fn units(&self) -> i128;
}

impl Units for Amount {
    fn units(&self) -> i128 {
        self.mantissa() * 10i128.pow(4 - self.scale())
    }
}


fn row(fields: &[&str]) -> Vec<String> {
    fields.iter().map(|s| s.to_string()).collect()
}

/// Feeds the rows to the ledger as the command line does and renders the
/// output text.
fn run(rows: &[&[&str]]) -> (String, Vec<(u32, RejectReason)>) {
    let cols = Columns::resolve(&row(&["type", "client", "tx", "amount"])).unwrap();
    let mut acc = Accounts::new();
    let mut rejections = Vec::new();
    for (i, r) in rows.iter().enumerate() {
        match TxProcessor::process_record(&row(r), &cols, i as u64 + 2, &mut acc).unwrap() {
            (_, OpOutcome::Applied) => {}
            (tx, OpOutcome::Rejected(reason)) => rejections.push((tx, reason)),
        }
    }
    let mut out = String::new();
    for line in acc.output_lines() {
        out += &line;
        out += "\n";
    }
    (out, rejections)
}

#[test]
fn deposit_then_withdrawal_output() {
    let (out, rej) = run(&[&["deposit", "1", "100", "10.00"], &["withdrawal", "1", "101", "3.50"]]);
    assert_eq!(out, "client,available,held,total,locked\n1,6.5000,0,6.5000,false\n");
    assert!(rej.is_empty());
}

#[test]
fn dispute_and_chargeback_output() {
    let (out, _) = run(&[
        &["deposit", "1", "100", "10.00"],
        &["dispute", "1", "100", ""],
        &["chargeback", "1", "100", ""],
    ]);
    assert_eq!(out, "client,available,held,total,locked\n1,0.0000,0.0000,0.0000,true\n");
}

#[test]
fn rejections_are_reported_with_their_tx() {
    let (out, rej) = run(&[
        &["deposit", "2", "1", "1.5"],
        &["withdrawal", "2", "2", "2"],
        &["withdrawal", "9", "3", "1"],
        &["deposit", "1", "4", "0.123456"],
    ]);
    assert_eq!(
        out,
        "client,available,held,total,locked\n1,0.1234,0,0.1234,false\n2,1.5000,0,1.5000,false\n"
    );
    assert_eq!(
        rej,
        vec![(2, RejectReason::InsufficientFunds), (3, RejectReason::UnknownClient)]
    );
}

#[test]
fn unreadable_row_is_an_error_and_changes_nothing() {
    let cols = Columns::resolve(&row(&["type", "client", "tx", "amount"])).unwrap();
    let mut acc = Accounts::new();
    let r = TxProcessor::process_record(&row(&["deposit", "x", "1", "1"]), &cols, 2, &mut acc);
    assert!(matches!(r, Err(TxProError::BadField { line: 2, column: "client", .. })));
    assert!(acc.client_records().is_empty());
}

#[test]
fn input_record_processor_applies_and_reports_unknown_kind() {
    let mut acc = Accounts::new();
    let amount = Amount::parse("2.5").unwrap();
    let rec = InputRecord { type_op: "deposit".to_string(), client: 4, tx: 1, amount };
    InputRecordProcessor::process(rec, &mut acc).unwrap();
    assert_eq!(acc.client(4).unwrap().total.units(), 25000);
    let rec = InputRecord { type_op: "withdrawal".to_string(), client: 4, tx: 2, amount: Amount::parse("9").unwrap() };
    // a refusal is not an error
    InputRecordProcessor::process(rec, &mut acc).unwrap();
    assert_eq!(acc.client(4).unwrap().total.units(), 25000);
    let rec = InputRecord { type_op: "gift".to_string(), client: 4, tx: 3, amount };
    match InputRecordProcessor::process(rec, &mut acc) {
        Err(TxProError::BadTypeOp { value, source }) => {
            assert_eq!(value, "gift");
            assert_eq!(source.0, "gift");
        }
        _ => panic!("expected BadTypeOp"),
    }
}

#[test]
fn output_lines_start_with_the_header() {
    let acc = Accounts::new();
    assert_eq!(acc.output_lines(), vec![OUTPUT_HEADER.to_string()]);
}

#[test]
fn output_line_of_a_record() {
    let rec = OutputRecord {
        client: 65535,
        available: Amount::parse("-1.25").unwrap(),
        held: Amount::zero(),
        total: Amount::parse("12345.6789").unwrap(),
        locked: true,
    };
    assert_eq!(output_line(&rec), "65535,-1.2500,0,12345.6789,true");
}

#[test]
fn client_ids_are_written_in_decimal() {
    assert_eq!(digits(0), "0");
    assert_eq!(digits(7), "7");
    assert_eq!(digits(10), "10");
    assert_eq!(digits(4096), "4096");
    assert_eq!(digits(4294967295), "4294967295");
}

/// Runs the processor on the input text and joins the output lines as the
/// command line writes them.
fn process_text(input: &str) -> (Vec<(u32, RejectReason)>, Result<String, TxProError>) {
    let (rejections, result) = TxProcessor::process(input.as_bytes());
    (rejections, result.map(|lines| lines.iter().map(|l| format!("{}\n", l)).collect()))
}

#[test]
fn end_to_end() {
    let input = "\
        type,client,tx,amount\n\
        deposit,1,100,10.00\n\
        withdrawal,1,101,3.50\n";
    let (_, out) = process_text(input);
    assert_eq!(
        out.unwrap(),
        "client,available,held,total,locked\n\
        1,6.5000,0,6.5000,false\n"
    );
}

#[test]
fn end_to_end_with_dispute_and_chargeback() {
    let input = "\
    type,client,tx,amount\n\
    deposit,1,100,10.00\n\
    dispute,1,100,\n\
    chargeback,1,100,\n";
    let (_, out) = process_text(input);
    assert_eq!(
        out.unwrap(),
        "client,available,held,total,locked\n\
         1,0.0000,0.0000,0.0000,true\n"
    );
}

#[test]
fn process_trims_fields_and_reports_refusals() {
    let input = "type , client,tx ,amount\n deposit , 2 , 1 , 1.5 \nwithdrawal,2,2,2\nwithdrawal,9,3,1\n";
    let (rej, out) = process_text(input);
    assert_eq!(out.unwrap(), "client,available,held,total,locked\n2,1.5000,0,1.5000,false\n");
    assert_eq!(rej, vec![(2, RejectReason::InsufficientFunds), (3, RejectReason::UnknownClient)]);
}

#[test]
fn process_reports_a_missing_column() {
    let (rej, out) = process_text("type,client,tx\ndeposit,1,1\n");
    assert!(rej.is_empty());
    match out {
        Err(TxProError::MissingColumn(name)) => assert_eq!(name, "amount"),
        other => panic!("expected MissingColumn, got {:?}", other),
    }
}

#[test]
fn process_stops_at_an_unreadable_row_with_its_line() {
    let input = "type,client,tx,amount\nwithdrawal,7,1,1\ndeposit,x,2,1\ndeposit,1,3,1\n";
    let (rej, out) = process_text(input);
    assert_eq!(rej, vec![(1, RejectReason::UnknownClient)]);
    match out {
        Err(TxProError::BadField { line, column, value, .. }) => {
            // the physical line of the row
            assert_eq!((line, column, value.as_str()), (3, "client", "x"));
        }
        other => panic!("expected BadField, got {:?}", other),
    }
}

#[test]
fn process_stops_at_a_csv_error() {
    let (rej, out) = process_text("type,client,tx,amount\nwithdrawal,7,1,1\ndeposit,1,2\n");
    assert_eq!(rej, vec![(1, RejectReason::UnknownClient)]);
    assert!(matches!(out, Err(TxProError::Csv { .. })));
}

#[test]
fn processed_accounts_are_balanced() {
    let input = "type,client,tx,amount\ndeposit,1,1,10.5\ndeposit,2,2,3\ndispute,1,1,\n\
                 withdrawal,2,3,1.25\ndeposit,1,4,2\nresolve,1,1,\ndispute,1,4,\n";
    let (rej, out) = TxProcessor::process(input.as_bytes());
    assert!(rej.is_empty());
    let lines = out.unwrap();
    assert_eq!(
        lines,
        vec![
            OUTPUT_HEADER.to_string(),
            "1,10.5000,2.0000,12.5000,false".to_string(),
            "2,1.7500,0,1.7500,false".to_string(),
        ]
    );
    for line in &lines[1..] {
        let f: Vec<&str> = line.split(',').collect();
        let units = |t: &str| Amount::parse(t).unwrap().units();
        assert_eq!(units(f[1]) + units(f[2]), units(f[3]));
    }
}
