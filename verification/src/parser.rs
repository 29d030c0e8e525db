//! Finds the columns in the header row and reads one data row.
use vstd::prelude::*;
use crate::amount::{AMOUNT_SCALE, Amount, AmountView, decimal_from_str, spec_from_decimal_parts, truncated};
use crate::error::TxProError;
use crate::text::{eq_ignore_ascii_case, parse_unsigned, spec_parse_unsigned, str_eq_ignore_ascii_case};
use crate::types::{InputRecord, TypeOp, spec_parse_type_op};

verus! {

/// The texts of a row of strings.
pub open spec fn texts(row: Seq<String>) -> Seq<Seq<char>> {
    row.map_values(|f: String| f@)
}

/// `i` is the first column whose header is `name`, up to ASCII case.
pub open spec fn is_first_column(headers: Seq<Seq<char>>, name: Seq<char>, i: int) -> bool {
    &&& 0 <= i < headers.len()
    &&& eq_ignore_ascii_case(headers[i], name)
    &&& forall|j: int| 0 <= j < i ==> !eq_ignore_ascii_case(#[trigger] headers[j], name)
}

/// The first column whose header is `name`, up to ASCII case.
pub open spec fn find_column(headers: Seq<Seq<char>>, name: Seq<char>) -> Option<int> {
    if exists|i: int| is_first_column(headers, name, i) {
        Some(choose|i: int| is_first_column(headers, name, i))
    } else {
        None
    }
}

/// Column indices resolved from the header row.
pub struct Columns {
    type_op: usize,
    client: usize,
    tx: usize,
    amount: usize,
}

/// Abstract column indices.
pub struct ColumnsView {
    pub type_op: int,
    pub client: int,
    pub tx: int,
    pub amount: int,
}

impl View for Columns {
    type V = ColumnsView;

    closed spec fn view(&self) -> ColumnsView {
        ColumnsView {
            type_op: self.type_op as int,
            client: self.client as int,
            tx: self.tx as int,
            amount: self.amount as int,
        }
    }
}

/// The columns of a header row: the first of each of `type`, `client`,
/// `tx`, `amount`, up to ASCII case; else the first of these names that is
/// missing.
pub open spec fn spec_resolve(headers: Seq<Seq<char>>) -> Result<ColumnsView, Seq<char>> {
    match (
        find_column(headers, "type"@),
        find_column(headers, "client"@),
        find_column(headers, "tx"@),
        find_column(headers, "amount"@),
    ) {
        (None, _, _, _) => Err("type"@),
        (Some(_), None, _, _) => Err("client"@),
        (Some(_), Some(_), None, _) => Err("tx"@),
        (Some(_), Some(_), Some(_), None) => Err("amount"@),
        (Some(t), Some(c), Some(x), Some(a)) => Ok(
            ColumnsView { type_op: t, client: c, tx: x, amount: a },
        ),
    }
}

/// The first column of `headers` named `name` up to ASCII case.
fn find(headers: &Vec<String>, name: &str) -> (r: Option<usize>)
    ensures
        match r {
            Some(i) => find_column(texts(headers@), name@) == Some(i as int),
            None => find_column(texts(headers@), name@) is None,
        },
{
    let mut i: usize = 0;
    while i < headers.len()
        invariant
            i <= headers@.len(),
            forall|j: int| 0 <= j < i ==> !eq_ignore_ascii_case(#[trigger] texts(headers@)[j], name@),
        decreases headers@.len() - i,
    {
        if str_eq_ignore_ascii_case(headers[i].as_str(), name) {
            proof {
                assert(is_first_column(texts(headers@), name@, i as int));
                assert forall|k: int| is_first_column(texts(headers@), name@, k) implies k == i by {
                    if k < i {
                    } else if k > i {
                        assert(!eq_ignore_ascii_case(texts(headers@)[i as int], name@));
                    }
                }
            }
            return Some(i);
        }
        i = i + 1;
    }
    None
}

impl Columns {
    /// Finds the `type`, `client`, `tx` and `amount` columns (the first of
    /// each, ignoring ASCII case); a missing one gives `MissingColumn`.
    pub fn resolve(headers: &Vec<String>) -> (r: Result<Columns, TxProError>)
        ensures
            match spec_resolve(texts(headers@)) {
                Ok(v) => r matches Ok(c) && c@ == v,
                Err(name) => r matches Err(TxProError::MissingColumn(n)) && n@ == name,
            },
    {
        let type_op = match find(headers, "type") {
            Some(i) => i,
            None => return Err(TxProError::MissingColumn("type".to_owned())),
        };
        let client = match find(headers, "client") {
            Some(i) => i,
            None => return Err(TxProError::MissingColumn("client".to_owned())),
        };
        let tx = match find(headers, "tx") {
            Some(i) => i,
            None => return Err(TxProError::MissingColumn("tx".to_owned())),
        };
        let amount = match find(headers, "amount") {
            Some(i) => i,
            None => return Err(TxProError::MissingColumn("amount".to_owned())),
        };
        Ok(Columns { type_op, client, tx, amount })
    }
}

/// What reading a data row comes to: its values, or the column that could
/// not be read, the offending text and what was expected there.
pub enum RecordParse {
    Parsed { type_op: Seq<char>, op: TypeOp, client: u16, tx: u32, amount: AmountView },
    Bad { column: Seq<char>, value: Seq<char>, expected: Seq<char> },
}

/// Whether rows of kind `op` must carry an amount: deposits and withdrawals.
pub open spec fn amount_required(op: TypeOp) -> bool {
    op is Deposit || op is Withdrawal
}

/// The amount column read: empty is zero, else a decimal number kept to
/// four decimal places; `None` where the text is no decimal number.
pub open spec fn spec_read_amount(text: Seq<char>) -> Option<AmountView> {
    if text.len() == 0 {
        Some(spec_from_decimal_parts(0, 0))
    } else {
        match decimal_from_str(text) {
            Some(d) => Some(truncated(d, AMOUNT_SCALE as nat)),
            None => None,
        }
    }
}

/// Reading the data row `fields` with the columns `cols`.
pub open spec fn spec_parse_record(fields: Seq<Seq<char>>, cols: ColumnsView) -> RecordParse {
    let missing = "<missing>"@;
    let present = "present"@;
    if !(cols.type_op < fields.len()) {
        RecordParse::Bad { column: "type"@, value: missing, expected: present }
    } else if spec_parse_type_op(fields[cols.type_op]) is None {
        RecordParse::Bad { column: "type"@, value: fields[cols.type_op], expected: "TypeOp"@ }
    } else if !(cols.client < fields.len()) {
        RecordParse::Bad { column: "client"@, value: missing, expected: present }
    } else if spec_parse_unsigned(fields[cols.client], 0xFFFF) is None {
        RecordParse::Bad { column: "client"@, value: fields[cols.client], expected: "u16"@ }
    } else if !(cols.tx < fields.len()) {
        RecordParse::Bad { column: "tx"@, value: missing, expected: present }
    } else if spec_parse_unsigned(fields[cols.tx], 0xFFFF_FFFF) is None {
        RecordParse::Bad { column: "tx"@, value: fields[cols.tx], expected: "u32"@ }
    } else if !(cols.amount < fields.len()) {
        RecordParse::Bad { column: "amount"@, value: missing, expected: present }
    } else if fields[cols.amount].len() == 0 && amount_required(
        spec_parse_type_op(fields[cols.type_op])->0,
    ) {
        RecordParse::Bad { column: "amount"@, value: missing, expected: present }
    } else if spec_read_amount(fields[cols.amount]) is None {
        RecordParse::Bad { column: "amount"@, value: fields[cols.amount], expected: "Decimal"@ }
    } else {
        RecordParse::Parsed {
            type_op: fields[cols.type_op],
            op: spec_parse_type_op(fields[cols.type_op])->0,
            client: spec_parse_unsigned(fields[cols.client], 0xFFFF)->0 as u16,
            tx: spec_parse_unsigned(fields[cols.tx], 0xFFFF_FFFF)->0 as u32,
            amount: spec_read_amount(fields[cols.amount])->0,
        }
    }
}

/// `e` is the `BadField` error for `column` at `line`.
pub open spec fn is_bad_field(
    e: TxProError,
    line: u64,
    column: Seq<char>,
    value: Seq<char>,
    expected: Seq<char>,
) -> bool {
    e matches TxProError::BadField { line: l, column: c, value: v, expected: x } && l == line
        && c@ == column && v@ == value && x@ == expected
}

/// How the result of reading a row relates to what the row comes to.
pub open spec fn follows_parse(
    r: Result<(InputRecord, TypeOp), TxProError>,
    p: RecordParse,
    line: u64,
) -> bool {
    match p {
        RecordParse::Parsed { type_op, op, client, tx, amount } => match r {
            Ok((rec, o)) => rec.type_op@ == type_op && o == op && rec.client == client && rec.tx
                == tx && rec.amount@ == amount,
            Err(_) => false,
        },
        RecordParse::Bad { column, value, expected } => match r {
            Ok(_) => false,
            Err(e) => is_bad_field(e, line, column, value, expected),
        },
    }
}

/// The field at `idx`, or the `BadField` error that reports it missing.
fn field<'a>(record: &'a Vec<String>, idx: usize, name: &'static str, line: u64) -> (r: Result<
    &'a String,
    TxProError,
>)
    ensures
        match r {
            Ok(f) => idx < record@.len() && *f == record@[idx as int] && f@ == texts(record@)[idx as int],
            Err(e) => !(idx < record@.len()) && is_bad_field(e, line, name@, "<missing>"@, "present"@),
        },
{
    if idx < record.len() {
        Ok(&record[idx])
    } else {
        Err(TxProError::BadField {
            line,
            column: name,
            value: "<missing>".to_owned(),
            expected: "present",
        })
    }
}

pub struct InputRecordParser;

impl InputRecordParser {
    /// Reads the data row `record` (found at `line` of the input) with the
    /// columns `cols`: the operation kind, a `u16` client, a `u32`
    /// transaction id and an amount kept to four decimal places (deposits and
    /// withdrawals must carry one; for the other kinds empty reads as zero).
    /// The first field that cannot be read gives `BadField`.
    pub fn parse_record(record: &Vec<String>, cols: &Columns, line: u64) -> (r: Result<
        (InputRecord, TypeOp),
        TxProError,
    >)
        ensures
            follows_parse(r, spec_parse_record(texts(record@), cols@), line),
    {
        let type_op_str = field(record, cols.type_op, "type", line)?;
        let type_op = match TypeOp::parse_str(type_op_str.as_str()) {
            Ok(op) => op,
            Err(source) => {
                return Err(TxProError::BadField {
                    line,
                    column: "type",
                    value: source.0,
                    expected: "TypeOp",
                });
            },
        };
        let client_raw = field(record, cols.client, "client", line)?;
        let client = match parse_unsigned(client_raw.as_str(), 0xFFFF) {
            Some(v) => v as u16,
            None => {
                return Err(TxProError::BadField {
                    line,
                    column: "client",
                    value: client_raw.clone(),
                    expected: "u16",
                });
            },
        };
        let tx_raw = field(record, cols.tx, "tx", line)?;
        let tx = match parse_unsigned(tx_raw.as_str(), 0xFFFF_FFFF) {
            Some(v) => v,
            None => {
                return Err(TxProError::BadField {
                    line,
                    column: "tx",
                    value: tx_raw.clone(),
                    expected: "u32",
                });
            },
        };
        let amount_raw = field(record, cols.amount, "amount", line)?;
        let parsed = if amount_raw.as_str().is_empty() {
            match type_op {
                TypeOp::Deposit | TypeOp::Withdrawal => {
                    return Err(TxProError::BadField {
                        line,
                        column: "amount",
                        value: "<missing>".to_owned(),
                        expected: "present",
                    });
                },
                _ => {},
            }
            Some(Amount::from_decimal_parts(0, 0))
        } else {
            Amount::parse(amount_raw.as_str())
        };
        let amount = match parsed {
            Some(a) => a,
            None => {
                return Err(TxProError::BadField {
                    line,
                    column: "amount",
                    value: amount_raw.clone(),
                    expected: "Decimal",
                });
            },
        };
        Ok((InputRecord { type_op: type_op_str.clone(), client, tx, amount }, type_op))
    }
}

} // verus!
