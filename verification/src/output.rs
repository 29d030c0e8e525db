//! The output text: one CSV line per client, after a header line.
use vstd::prelude::*;
use rust_decimal::Decimal;
use crate::accounts::{Accounts, lists_clients};
use crate::amount::{Amount, AmountView, as_view};
use crate::types::{OUTPUT_HEADER, OutputRecord};

verus! {

/// The decimal digits of `n`, most significant first; none for zero.
pub open spec fn mantissa_digits(n: nat) -> Seq<char>
    decreases n,
{
    if n == 0 {
        Seq::empty()
    } else {
        mantissa_digits(n / 10).push(digit_char(n % 10))
    }
}

/// `d` with zeros in front, up to `len` characters.
pub open spec fn zero_padded(d: Seq<char>, len: nat) -> Seq<char> {
    if d.len() >= len {
        d
    } else {
        Seq::new((len - d.len()) as nat, |i: int| '0') + d
    }
}

/// What `Decimal::to_string` writes for the decimal with the given parts:
/// the digits of the mantissa's magnitude, padded with zeros to at least
/// `scale` digits; a `.` before the last `scale` of them (none for scale
/// zero) and a `0` before the `.` where no digit is left there (also the
/// whole text of a zero at scale zero); a `-` in front where the sign is
/// negative, a negative zero included.
pub open spec fn decimal_text(a: AmountView) -> Seq<char> {
    let magnitude = if a.mantissa < 0 { -a.mantissa } else { a.mantissa as int };
    let body = zero_padded(mantissa_digits(magnitude as nat), a.scale as nat);
    let whole_len = body.len() - a.scale;
    let whole = if whole_len == 0 { seq!['0'] } else { body.take(whole_len) };
    let unsigned = if a.scale == 0 { whole } else { whole + seq!['.'] + body.skip(whole_len) };
    if a.negative { seq!['-'] + unsigned } else { unsigned }
}

/// Makes the decimal with parts `v` (`Decimal::from_i128_with_scale`, which
/// panics only outside the `requires`, then `set_sign_negative`) and writes
/// it with `to_string` (`Display`, which writes the text of
/// `to_str_internal` after the sign). Trusted: the text is `decimal_text`
/// of the parts.
#[verifier::external_body]
fn decimal_to_string(v: (i128, u32, bool)) -> (r: String)
    requires
        as_view(v).wf(),
    ensures
        r@ == decimal_text(as_view(v)),
{
    let mut d = Decimal::from_i128_with_scale(v.0, v.1);
    d.set_sign_negative(v.2);
    d.to_string()
}

/// The character of a decimal digit.
pub open spec fn digit_char(d: nat) -> char {
    if d == 0 {
        '0'
    } else if d == 1 {
        '1'
    } else if d == 2 {
        '2'
    } else if d == 3 {
        '3'
    } else if d == 4 {
        '4'
    } else if d == 5 {
        '5'
    } else if d == 6 {
        '6'
    } else if d == 7 {
        '7'
    } else if d == 8 {
        '8'
    } else {
        '9'
    }
}

/// The decimal digits of `n`, without leading zeros (`"0"` for zero).
pub open spec fn spec_digits(n: nat) -> Seq<char>
    decreases n,
{
    if n < 10 {
        seq![digit_char(n)]
    } else {
        spec_digits(n / 10).push(digit_char(n % 10))
    }
}

/// How an amount is written.
pub open spec fn amount_text(a: Amount) -> Seq<char> {
    decimal_text(a@)
}

pub open spec fn bool_text(b: bool) -> Seq<char> {
    if b {
        seq!['t', 'r', 'u', 'e']
    } else {
        seq!['f', 'a', 'l', 's', 'e']
    }
}

/// The output line of a record: client, available, held, total, locked,
/// separated by commas.
pub open spec fn spec_output_line(rec: OutputRecord) -> Seq<char> {
    spec_digits(rec.client as nat) + seq![','] + amount_text(rec.available) + seq![',']
        + amount_text(rec.held) + seq![','] + amount_text(rec.total) + seq![','] + bool_text(
        rec.locked,
    )
}

/// The text of one decimal digit.
fn digit_str(d: u32) -> (r: &'static str)
    requires
        d < 10,
    ensures
        r@ == seq![digit_char(d as nat)],
{
    proof {
        reveal_strlit("0");
        reveal_strlit("1");
        reveal_strlit("2");
        reveal_strlit("3");
        reveal_strlit("4");
        reveal_strlit("5");
        reveal_strlit("6");
        reveal_strlit("7");
        reveal_strlit("8");
        reveal_strlit("9");
    }
    if d == 0 {
        "0"
    } else if d == 1 {
        "1"
    } else if d == 2 {
        "2"
    } else if d == 3 {
        "3"
    } else if d == 4 {
        "4"
    } else if d == 5 {
        "5"
    } else if d == 6 {
        "6"
    } else if d == 7 {
        "7"
    } else if d == 8 {
        "8"
    } else {
        "9"
    }
}

/// The decimal digits of `n`.
pub fn digits(n: u32) -> (r: String)
    ensures
        r@ == spec_digits(n as nat),
    decreases n,
{
    if n < 10 {
        digit_str(n).to_owned()
    } else {
        let mut s = digits(n / 10);
        s.append(digit_str(n % 10));
        s
    }
}

/// How an amount is written.
fn amount_string(a: &Amount) -> (r: String)
    ensures
        r@ == amount_text(*a),
{
    decimal_to_string((a.mantissa(), a.scale(), a.is_sign_negative()))
}

/// The output line of a record: client, available, held, total, locked,
/// separated by commas.
pub fn output_line(rec: &OutputRecord) -> (r: String)
    ensures
        r@ == spec_output_line(*rec),
{
    proof {
        reveal_strlit(",");
        reveal_strlit("true");
        reveal_strlit("false");
    }
    let mut s = digits(rec.client as u32);
    s.append(",");
    s.append(amount_string(&rec.available).as_str());
    s.append(",");
    s.append(amount_string(&rec.held).as_str());
    s.append(",");
    s.append(amount_string(&rec.total).as_str());
    s.append(",");
    if rec.locked {
        s.append("true");
    } else {
        s.append("false");
    }
    s
}

/// `lines` is the output text of the records `recs`: the header line, then
/// one line per record, in order.
pub open spec fn lines_of(recs: Seq<OutputRecord>, lines: Seq<String>) -> bool {
    &&& lines.len() == recs.len() + 1
    &&& lines[0]@ == OUTPUT_HEADER@
    &&& forall|i: int| 0 <= i < recs.len() ==> #[trigger] lines[i + 1]@ == spec_output_line(recs[i])
}

impl Accounts {
    /// The output text, line by line: the header, then one line per client in
    /// increasing order of client id.
    pub fn output_lines(&self) -> (r: Vec<String>)
        ensures
            exists|recs: Seq<OutputRecord>| lists_clients(self@, recs) && lines_of(recs, r@),
    {
        let recs = self.client_records();
        let mut lines: Vec<String> = Vec::new();
        lines.push(OUTPUT_HEADER.to_owned());
        let mut i: usize = 0;
        while i < recs.len()
            invariant
                i <= recs@.len(),
                lines@.len() == i + 1,
                lines@[0]@ == OUTPUT_HEADER@,
                forall|j: int| 0 <= j < i ==> #[trigger] lines@[j + 1]@ == spec_output_line(recs@[j]),
            decreases recs@.len() - i,
        {
            let line = output_line(&recs[i]);
            lines.push(line);
            i = i + 1;
        }
        proof {
            assert(lines_of(recs@, lines@));
        }
        lines
    }
}

} // verus!
