//! The processor: CSV input in, the output lines and the refusals out.
use vstd::prelude::*;
use crate::accounts::{Accounts, lists_clients, out_of_range_message};
use crate::ledger::LedgerView;
use crate::output::lines_of;
use crate::parser::ColumnsView;
use crate::types::RejectReason;
use crate::dispatcher::{dispatch, spec_command_of};
use crate::error::TxProError;
use crate::ledger::spec_apply;
use crate::parser::{spec_resolve, texts, Columns, InputRecordParser, RecordParse, is_bad_field, spec_parse_record};
use crate::types::OpOutcome;

verus! {

/// Why a run stops.
pub enum RunError {
    MissingColumn(Seq<char>),
    BadField { line: u64, column: Seq<char>, value: Seq<char>, expected: Seq<char> },
    OutOfRange,
    Csv(Seq<char>),
}

/// The refusals (transaction id and reason, in row order) and the final
/// ledger, or why the run stopped.
pub type RunResult = (Seq<(u32, RejectReason)>, Result<LedgerView, RunError>);

/// Applies the data rows (fields and line) in order to the ledger `s`,
/// going on past refusals and stopping at the first row that cannot be read
/// or whose arithmetic overflows.
pub open spec fn run_rows(s: LedgerView, cols: ColumnsView, rows: Seq<(Seq<Seq<char>>, u64)>) -> RunResult
    decreases rows.len(),
{
    if rows.len() == 0 {
        (Seq::empty(), Ok(s))
    } else {
        let line = rows[0].1;
        match spec_parse_record(rows[0].0, cols) {
            RecordParse::Bad { column, value, expected } => (
                Seq::empty(),
                Err(RunError::BadField { line, column, value, expected }),
            ),
            RecordParse::Parsed { op, client, tx, amount, .. } => match spec_apply(
                s,
                spec_command_of(op, client, amount, tx),
            ) {
                None => (Seq::empty(), Err(RunError::OutOfRange)),
                Some((t, out)) => {
                    let rest = run_rows(t, cols, rows.drop_first());
                    match out {
                        OpOutcome::Applied => rest,
                        OpOutcome::Rejected(reason) => (seq![(tx, reason)] + rest.0, rest.1),
                    }
                },
            },
        }
    }
}

/// What the CSV reader (headers on, every field trimmed) makes of the input:
/// the header fields, then the data rows with the line of each and the
/// error that stopped the reading, if any; or the error reading the header.
pub uninterp spec fn csv_read(input: Seq<u8>) -> Result<
    (Seq<Seq<char>>, Seq<(Seq<Seq<char>>, u64)>, Option<Seq<char>>),
    Seq<char>,
>;

/// The texts of the data rows.
pub open spec fn rows_view(rows: Seq<(Vec<String>, u64)>) -> Seq<(Seq<Seq<char>>, u64)> {
    rows.map_values(|row: (Vec<String>, u64)| (texts(row.0@), row.1))
}

/// The texts of what the CSV reader hands back.
pub open spec fn csv_view(
    r: Result<(Vec<String>, Vec<(Vec<String>, u64)>, Option<String>), String>,
) -> Result<(Seq<Seq<char>>, Seq<(Seq<Seq<char>>, u64)>, Option<Seq<char>>), Seq<char>> {
    match r {
        Ok((h, rows, e)) => Ok(
            (
                texts(h@),
                rows_view(rows@),
                match e {
                    Some(m) => Some(m@),
                    None => None,
                },
            ),
        ),
        Err(m) => Err(m@),
    }
}

/// Reads the input with the `csv` crate: a `ReaderBuilder` with headers and
/// `Trim::All`, the header record (`headers`), then each record
/// (`read_record`) with the line of the record's own `position` (the
/// physical line it starts on), until the end or the first error. Trusted:
/// the result is the named `csv_read` of the input bytes.
#[verifier::external_body]
fn read_csv(input: &[u8]) -> (r: Result<(Vec<String>, Vec<(Vec<String>, u64)>, Option<String>), String>)
    ensures
        csv_view(r) == csv_read(input@),
{
    let mut reader = csv::ReaderBuilder::new().has_headers(true).trim(csv::Trim::All).from_reader(input);
    let headers = reader.headers().map_err(|e| e.to_string())?.iter().map(str::to_string).collect();
    let (mut rows, mut record) = (Vec::new(), csv::StringRecord::new());
    loop {
        match reader.read_record(&mut record) {
            Ok(true) => rows.push((record.iter().map(str::to_string).collect(), record.position().map_or(0, csv::Position::line))),
            Ok(false) => return Ok((headers, rows, None)),
            Err(e) => return Ok((headers, rows, Some(e.to_string()))),
        }
    }
}

/// A whole run on the input bytes: the CSV is read, the header resolved,
/// the rows applied in order to empty accounts; a CSV error after the last
/// row that was read stops the run too.
pub open spec fn spec_run(input: Seq<u8>) -> RunResult {
    match csv_read(input) {
        Err(m) => (Seq::empty(), Err(RunError::Csv(m))),
        Ok((h, rows, err)) => match spec_resolve(h) {
            Err(name) => (Seq::empty(), Err(RunError::MissingColumn(name))),
            Ok(cols) => {
                let (rej, res) = run_rows(LedgerView::empty(), cols, rows);
                match res {
                    Err(e) => (rej, Err(e)),
                    Ok(s) => (
                        rej,
                        match err {
                            Some(m) => Err(RunError::Csv(m)),
                            None => Ok(s),
                        },
                    ),
                }
            },
        },
    }
}

/// `e` is the error that `re` describes.
pub open spec fn error_is(e: TxProError, re: RunError) -> bool {
    match re {
        RunError::MissingColumn(n) => e matches TxProError::MissingColumn(m) && m@ == n,
        RunError::BadField { line, column, value, expected } => is_bad_field(
            e,
            line,
            column,
            value,
            expected,
        ),
        RunError::OutOfRange => e matches TxProError::BadOp { value } && value@
            == out_of_range_message(),
        RunError::Csv(m) => e matches TxProError::Csv { message } && message@ == m,
    }
}

/// Reads CSV rows of transactions and keeps the client accounts.
pub struct TxProcessor;

impl TxProcessor {
    /// Reads the data row `record` (at `line` of the input) with the columns
    /// `cols` and applies it to `accounts`. Gives the row's transaction id
    /// and whether the operation was applied or refused; a row that cannot
    /// be read gives `BadField` and leaves the accounts alone.
    pub fn process_record(
        record: &Vec<String>,
        cols: &Columns,
        line: u64,
        accounts: &mut Accounts,
    ) -> (r: Result<(u32, OpOutcome), TxProError>)
        requires
            old(accounts)@.wf(),
        ensures
            final(accounts)@.wf(),
            match spec_parse_record(texts(record@), cols@) {
                RecordParse::Bad { column, value, expected } => {
                    &&& r matches Err(e) && is_bad_field(e, line, column, value, expected)
                    &&& final(accounts)@ == old(accounts)@
                },
                RecordParse::Parsed { op, client, tx, amount, .. } => match spec_apply(
                    old(accounts)@,
                    spec_command_of(op, client, amount, tx),
                ) {
                    Some((s, out)) => r == Ok::<(u32, OpOutcome), TxProError>((tx, out))
                        && final(accounts)@ == s,
                    None => r matches Err(TxProError::BadOp { value }) && value@
                        == out_of_range_message() && final(accounts)@ == old(accounts)@,
                },
            },
    {
        let (input_record, type_op) = InputRecordParser::parse_record(record, cols, line)?;
        let outcome = dispatch(&input_record, type_op, accounts)?;
        Ok((input_record.tx, outcome))
    }

    /// Processes a CSV input: resolves the header, applies the rows in order
    /// to empty accounts, collects each refusal (transaction id and reason)
    /// and goes on; stops at the first error. Gives the refusals, and the
    /// output lines of the final accounts or the error.
    pub fn process(input: &[u8]) -> (r: (Vec<(u32, RejectReason)>, Result<Vec<String>, TxProError>))
        ensures
            r.0@ == spec_run(input@).0,
            match spec_run(input@).1 {
                Ok(s) => (r.1 matches Ok(lines) && exists|recs: Seq<crate::types::OutputRecord>|
                    lists_clients(s, recs) && lines_of(recs, lines@)),
                Err(re) => (r.1 matches Err(e) && error_is(e, re)),
            },
    {
        let mut rejections: Vec<(u32, RejectReason)> = Vec::new();
        let (headers, rows, csv_error) = match read_csv(input) {
            Ok(t) => t,
            Err(message) => return (rejections, Err(TxProError::Csv { message })),
        };
        let cols = match Columns::resolve(&headers) {
            Ok(c) => c,
            Err(e) => return (rejections, Err(e)),
        };
        let mut accounts = Accounts::new();
        let ghost rv = rows_view(rows@);
        let ghost all = run_rows(LedgerView::empty(), cols@, rv);
        proof {
            assert(rv.skip(0) =~= rv);
            assert(Seq::<(u32, RejectReason)>::empty() + all.0 =~= all.0);
            assert(csv_read(input@) == Ok::<_, Seq<char>>((texts(headers@), rv, match csv_error {
                Some(m) => Some(m@),
                None => None,
            })));
        }
        let mut i: usize = 0;
        while i < rows.len()
            invariant
                i <= rows@.len(),
                rv == rows_view(rows@),
                accounts@.wf(),
                all == run_rows(LedgerView::empty(), cols@, rv),
                all.1 is Err ==> spec_run(input@) == all,
                all.0 == rejections@ + run_rows(accounts@, cols@, rv.skip(i as int)).0,
                all.1 == run_rows(accounts@, cols@, rv.skip(i as int)).1,
            decreases rows@.len() - i,
        {
            let ghost before = accounts@;
            let ghost rest = rv.skip(i as int);
            proof {
                assert(rest[0] == rv[i as int]);
                assert(rv[i as int] == (texts(rows@[i as int].0@), rows@[i as int].1));
                assert(rest.drop_first() =~= rv.skip(i + 1));
            }
            match TxProcessor::process_record(&rows[i].0, &cols, rows[i].1, &mut accounts) {
                Ok((_, OpOutcome::Applied)) => {},
                Ok((tx, OpOutcome::Rejected(reason))) => {
                    let ghost prev = rejections@;
                    rejections.push((tx, reason));
                    proof {
                        let tail = run_rows(accounts@, cols@, rv.skip(i + 1));
                        assert(prev + (seq![(tx, reason)] + tail.0) =~= rejections@ + tail.0);
                    }
                },
                Err(e) => {
                    proof {
                        assert(rejections@ + Seq::<(u32, RejectReason)>::empty() =~= rejections@);
                    }
                    return (rejections, Err(e));
                },
            }
            i = i + 1;
        }
        proof {
            assert(rv.skip(i as int).len() == 0);
            assert(rejections@ + Seq::<(u32, RejectReason)>::empty() =~= rejections@);
        }
        match csv_error {
            Some(message) => (rejections, Err(TxProError::Csv { message })),
            None => (rejections, Ok(accounts.output_lines())),
        }
    }
}

} // verus!
