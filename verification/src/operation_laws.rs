//! What each ledger operation and the row reader do, stated over their
//! inputs: when an operation is applied and why it is refused otherwise,
//! what an applied operation changes, and which rows are read to which
//! values.
use vstd::prelude::*;
use crate::amount::{decimal_difference, decimal_from_str, decimal_sum, raise_scale, spec_from_decimal_parts, truncated, pow10, units_in_range, MAX_SCALE};
use crate::output::{decimal_text, digit_char, spec_digits, spec_output_line};
use crate::amount::AmountView;
use crate::ledger::{Command, LedgerView, step_is_exact, spec_chargeback, spec_deposit, spec_dispute, spec_resolve, spec_withdrawal};
use crate::parser::{ColumnsView, RecordParse, find_column, is_first_column, spec_parse_record, spec_read_amount};
use crate::driver::{RunError, run_rows};
use crate::dispatcher::spec_command_of;
use crate::ledger::spec_apply;
use crate::text::{is_digit, eq_ignore_ascii_case, spec_parse_unsigned, all_digits, digits_value, lemma_digits_value_prefix, unsigned_digits};
use crate::laws::law_type_op_name_round_trip;
use crate::types::{OutputRecord, OpOutcome, RejectReason, TxRecordTypeOp, TxState, TxView, TypeOp, spec_type_op_name};

verus! {

/// A deposit is refused on a locked account, else where its transaction id
/// is already stored; otherwise it is applied (always, where its arithmetic
/// is exact). Applied, it stores the transaction as an active deposit of
/// the client with the amount kept to four places, opens the account at
/// that amount if there was none, or adds the amount to the available
/// funds and the total, and leaves everything else as it was.
pub proof fn law_deposit(s: LedgerView, client: u16, amount: AmountView, tx: u32)
    ensures
        step_is_exact(s, Command::Deposit { client, amount, tx }) ==> spec_deposit(s, client, amount, tx) is Some,
        spec_deposit(s, client, amount, tx) is None ==> s.clients.contains_key(client) && !s.clients[client].locked
            && !s.txs.contains_key(tx),
        spec_deposit(s, client, amount, tx) matches Some((t, out)) ==> {
            let locked = s.clients.contains_key(client) && s.clients[client].locked;
            &&& locked ==> out == OpOutcome::Rejected(RejectReason::AccountLocked)
            &&& !locked && s.txs.contains_key(tx) ==> out == OpOutcome::Rejected(RejectReason::DuplicateTx)
            &&& !locked && !s.txs.contains_key(tx) ==> out == OpOutcome::Applied
            &&& out !is Applied ==> t == s
        },
        spec_deposit(s, client, amount, tx) matches Some((t, OpOutcome::Applied)) ==> {
            let a = truncated(amount, 4);
            let c = t.clients[client];
            &&& t.txs == s.txs.insert(
                tx,
                TxView { type_op: TxRecordTypeOp::Deposit, client, amount: a, state: TxState::Active },
            )
            &&& t.clients == s.clients.insert(client, c)
            &&& !c.locked
            &&& !s.clients.contains_key(client) ==> c.available == a && c.total == a && c.held.value() == 0
            &&& s.clients.contains_key(client) ==> {
                &&& decimal_sum(s.clients[client].available, a) == Some(c.available)
                &&& decimal_sum(s.clients[client].total, a) == Some(c.total)
                &&& c.held == s.clients[client].held
            }
        },
{
}

/// A withdrawal is refused for an unknown client, else on a locked
/// account, else where the available funds are below the amount (kept to
/// four places), else where its transaction id is already stored; otherwise
/// it is applied (always, where its arithmetic is exact). Applied, it takes
/// the amount from the available funds and the total, stores the
/// transaction as an active withdrawal of the client, and leaves everything
/// else as it was.
pub proof fn law_withdrawal(s: LedgerView, client: u16, amount: AmountView, tx: u32)
    ensures
        step_is_exact(s, Command::Withdrawal { client, amount, tx }) ==> spec_withdrawal(s, client, amount, tx) is Some,
        spec_withdrawal(s, client, amount, tx) matches Some((t, out)) ==> {
            let a = truncated(amount, 4);
            let known = s.clients.contains_key(client);
            &&& !known ==> out == OpOutcome::Rejected(RejectReason::UnknownClient)
            &&& known && s.clients[client].locked ==> out == OpOutcome::Rejected(RejectReason::AccountLocked)
            &&& known && !s.clients[client].locked && s.clients[client].available.value() < a.value()
                ==> out == OpOutcome::Rejected(RejectReason::InsufficientFunds)
            &&& known && !s.clients[client].locked && s.clients[client].available.value() >= a.value()
                && s.txs.contains_key(tx) ==> out == OpOutcome::Rejected(RejectReason::DuplicateTx)
            &&& (out is Applied <==> known && !s.clients[client].locked && s.clients[client].available.value()
                >= a.value() && !s.txs.contains_key(tx))
            &&& out !is Applied ==> t == s
        },
        spec_withdrawal(s, client, amount, tx) is None ==> {
            let a = truncated(amount, 4);
            &&& s.clients.contains_key(client) && !s.clients[client].locked
            &&& s.clients[client].available.value() >= a.value() && !s.txs.contains_key(tx)
        },
        spec_withdrawal(s, client, amount, tx) matches Some((t, OpOutcome::Applied)) ==> {
            let a = truncated(amount, 4);
            let c = t.clients[client];
            let old_c = s.clients[client];
            &&& t.txs == s.txs.insert(
                tx,
                TxView { type_op: TxRecordTypeOp::Withdrawal, client, amount: a, state: TxState::Active },
            )
            &&& t.clients == s.clients.insert(client, c)
            &&& decimal_difference(old_c.available, a) == Some(c.available)
            &&& decimal_difference(old_c.total, a) == Some(c.total)
            &&& c.held == old_c.held
            &&& c.locked == old_c.locked
        },
{
}

/// The checks a dispute, resolve or chargeback of `tx` by `client` makes
/// before looking at the funds, written out: the refusal for the first one
/// that fails, from the client's account, the stored transaction, its
/// state (`needed`), to its owner.
pub open spec fn first_failed_check(
    s: LedgerView,
    client: u16,
    tx: u32,
    needed: TxState,
    wrong_state: RejectReason,
) -> Option<RejectReason> {
    if !s.clients.contains_key(client) {
        Some(RejectReason::UnknownClient)
    } else if !s.txs.contains_key(tx) {
        Some(RejectReason::DisputedTxNotFound)
    } else if s.txs[tx].state != needed {
        Some(wrong_state)
    } else if s.txs[tx].client != client {
        Some(RejectReason::DisputedTxWrongClient)
    } else {
        None
    }
}

/// A dispute applies exactly to an active transaction of the client whose
/// amount the client's available funds cover: anything else is refused
/// (with the first failed check, or for want of available funds) and
/// changes nothing. Applied (always, where the arithmetic is exact), it
/// moves the amount from available to held, keeps the total and the lock,
/// marks the transaction disputed and keeps all else.
pub proof fn law_dispute(s: LedgerView, client: u16, tx: u32)
    ensures
        step_is_exact(s, Command::Dispute { client, tx }) ==> spec_dispute(s, client, tx) is Some,
        spec_dispute(s, client, tx) matches Some((t, out)) ==> {
            let checks = first_failed_check(s, client, tx, TxState::Active, RejectReason::TxNotActive);
            &&& checks matches Some(r) ==> out == OpOutcome::Rejected(r)
            &&& checks is None && s.clients[client].available.value() < s.txs[tx].amount.value() ==> out
                == OpOutcome::Rejected(RejectReason::InsufficientFundsForDispute)
            &&& (out is Applied <==> checks is None && s.clients[client].available.value()
                >= s.txs[tx].amount.value())
            &&& out !is Applied ==> t == s
        },
        spec_dispute(s, client, tx) is None ==> first_failed_check(s, client, tx, TxState::Active, RejectReason::TxNotActive)
            is None && s.clients[client].available.value() >= s.txs[tx].amount.value(),
        spec_dispute(s, client, tx) matches Some((t, OpOutcome::Applied)) ==> {
            let old_c = s.clients[client];
            let c = t.clients[client];
            let amt = s.txs[tx].amount;
            &&& old_c.available.value() >= amt.value()
            &&& s.txs[tx].state == TxState::Active && s.txs[tx].client == client
            &&& decimal_difference(old_c.available, amt) == Some(c.available)
            &&& decimal_sum(old_c.held, amt) == Some(c.held)
            &&& c.total == old_c.total
            &&& c.locked == old_c.locked
            &&& t.clients == s.clients.insert(client, c)
            &&& t.txs == s.txs.insert(tx, TxView { state: TxState::Disputed, ..s.txs[tx] })
        },
{
}

/// A resolve applies exactly to a disputed transaction of the client whose
/// amount the client's held funds cover: anything else is refused and
/// changes nothing. Applied (always, where the arithmetic is exact), it
/// moves the amount from held back to available, keeps the total and the
/// lock, marks the transaction resolved and keeps all else.
pub proof fn law_resolve(s: LedgerView, client: u16, tx: u32)
    ensures
        step_is_exact(s, Command::Resolve { client, tx }) ==> spec_resolve(s, client, tx) is Some,
        spec_resolve(s, client, tx) matches Some((t, out)) ==> {
            let checks = first_failed_check(s, client, tx, TxState::Disputed, RejectReason::TxNotDisputed);
            &&& checks matches Some(r) ==> out == OpOutcome::Rejected(r)
            &&& checks is None && s.clients[client].held.value() < s.txs[tx].amount.value() ==> out
                == OpOutcome::Rejected(RejectReason::InsufficientHeldFunds)
            &&& (out is Applied <==> checks is None && s.clients[client].held.value()
                >= s.txs[tx].amount.value())
            &&& out !is Applied ==> t == s
        },
        spec_resolve(s, client, tx) is None ==> first_failed_check(s, client, tx, TxState::Disputed, RejectReason::TxNotDisputed)
            is None && s.clients[client].held.value() >= s.txs[tx].amount.value(),
        spec_resolve(s, client, tx) matches Some((t, OpOutcome::Applied)) ==> {
            let old_c = s.clients[client];
            let c = t.clients[client];
            let amt = s.txs[tx].amount;
            &&& decimal_sum(old_c.available, amt) == Some(c.available)
            &&& decimal_difference(old_c.held, amt) == Some(c.held)
            &&& c.total == old_c.total
            &&& c.locked == old_c.locked
            &&& t.clients == s.clients.insert(client, c)
            &&& t.txs == s.txs.insert(tx, TxView { state: TxState::Resolved, ..s.txs[tx] })
        },
{
}

/// A chargeback applies exactly to a disputed transaction of the client
/// (deposit or withdrawal alike) whose amount the client's held funds
/// cover: anything else is refused and changes nothing. Applied (always,
/// where the arithmetic is exact), it takes the amount out of held and the
/// total, keeps the available funds, locks the account, marks the
/// transaction charged back and keeps all else.
pub proof fn law_chargeback(s: LedgerView, client: u16, tx: u32)
    ensures
        step_is_exact(s, Command::Chargeback { client, tx }) ==> spec_chargeback(s, client, tx) is Some,
        spec_chargeback(s, client, tx) matches Some((t, out)) ==> {
            let checks = first_failed_check(s, client, tx, TxState::Disputed, RejectReason::TxNotDisputed);
            &&& checks matches Some(r) ==> out == OpOutcome::Rejected(r)
            &&& checks is None && s.clients[client].held.value() < s.txs[tx].amount.value() ==> out
                == OpOutcome::Rejected(RejectReason::InsufficientHeldFunds)
            &&& (out is Applied <==> checks is None && s.clients[client].held.value()
                >= s.txs[tx].amount.value())
            &&& out !is Applied ==> t == s
        },
        spec_chargeback(s, client, tx) is None ==> first_failed_check(s, client, tx, TxState::Disputed, RejectReason::TxNotDisputed)
            is None && s.clients[client].held.value() >= s.txs[tx].amount.value(),
        spec_chargeback(s, client, tx) matches Some((t, OpOutcome::Applied)) ==> {
            let old_c = s.clients[client];
            let c = t.clients[client];
            let amt = s.txs[tx].amount;
            &&& decimal_difference(old_c.held, amt) == Some(c.held)
            &&& decimal_difference(old_c.total, amt) == Some(c.total)
            &&& c.available == old_c.available
            &&& c.locked
            &&& t.clients == s.clients.insert(client, c)
            &&& t.txs == s.txs.insert(tx, TxView { state: TxState::ChargedBack, ..s.txs[tx] })
        },
{
}

/// Raising the scale of a zero mantissa keeps it zero, at a scale no larger
/// than the larger of the two.
proof fn lemma_raise_scale_zero(scale: nat, places: nat)
    ensures
        raise_scale(0, scale, places).0 == 0,
        raise_scale(0, scale, places).1 <= if scale >= places { scale } else { places },
    decreases places - scale,
{
    if scale < places {
        assert(0int * 10 == 0);
        lemma_raise_scale_zero(scale + 1, places);
    }
}

/// `text` is what `str::parse` reads as the unsigned number `v` for a type
/// whose largest value is `max`: an optional `+`, then at least one decimal
/// digit, writing `v`, no larger than `max`.
pub open spec fn reads_as_unsigned(text: Seq<char>, v: int, max: int) -> bool {
    let d = unsigned_digits(text);
    &&& d.len() > 0
    &&& all_digits(d)
    &&& digits_value(d) == v
    &&& v <= max
}

/// The amount column of a row of kind `op` reads as `a`: a decimal number
/// that `Decimal::from_str` reads, kept to four places; or, for kinds other
/// than deposit and withdrawal, an empty field, read as zero.
pub open spec fn reads_as_amount(text: Seq<char>, op: TypeOp, a: AmountView) -> bool {
    ||| text.len() > 0 && (decimal_from_str(text) matches Some(d) && a == truncated(d, 4))
    ||| text.len() == 0 && !(op is Deposit || op is Withdrawal) && a.value() == 0 && a.wf()
}

/// A data row is read exactly when its `type` field names an operation,
/// its `client` field is a `u16` and its `tx` field a `u32` as `str::parse`
/// reads them, and its amount field reads as an amount; the record then
/// holds those values.
pub proof fn law_parse_record_reads_the_fields(fields: Seq<Seq<char>>, cols: ColumnsView)
    requires
        cols.type_op >= 0,
        cols.client >= 0,
        cols.tx >= 0,
        cols.amount >= 0,
    ensures
        spec_parse_record(fields, cols) matches RecordParse::Parsed { type_op, op, client, tx, amount } ==> {
            &&& 0 <= cols.type_op < fields.len() && 0 <= cols.client < fields.len()
            &&& 0 <= cols.tx < fields.len() && 0 <= cols.amount < fields.len()
            &&& type_op == fields[cols.type_op]
            &&& fields[cols.type_op] == spec_type_op_name(op)
            &&& reads_as_unsigned(fields[cols.client], client as int, u16::MAX as int)
            &&& reads_as_unsigned(fields[cols.tx], tx as int, u32::MAX as int)
            &&& reads_as_amount(fields[cols.amount], op, amount)
        },
        forall|op: TypeOp, client: int, tx: int, amount: AmountView|
            0 <= cols.type_op < fields.len() && 0 <= cols.client < fields.len() && 0 <= cols.tx
                < fields.len() && 0 <= cols.amount < fields.len() && fields[cols.type_op]
                == spec_type_op_name(op) && #[trigger] reads_as_unsigned(fields[cols.client], client, u16::MAX as int)
                && #[trigger] reads_as_unsigned(fields[cols.tx], tx, u32::MAX as int)
                && #[trigger] reads_as_amount(fields[cols.amount], op, amount) ==> (spec_parse_record(
                fields,
                cols,
            ) matches RecordParse::Parsed { type_op: t, op: o, client: c, tx: x, amount: a } && t
                == fields[cols.type_op] && o == op && c == client && x == tx && a.value()
                == amount.value()),
{
    if let RecordParse::Parsed { op, client, tx, amount, .. } = spec_parse_record(fields, cols) {
        let ct = fields[cols.client];
        let xt = fields[cols.tx];
        let at = fields[cols.amount];
        assert(spec_parse_unsigned(ct, 0xFFFF) is Some);
        assert(spec_parse_unsigned(xt, 0xFFFF_FFFF) is Some);
        lemma_digits_value_prefix(unsigned_digits(ct), 0);
        lemma_digits_value_prefix(unsigned_digits(xt), 0);
        assert(reads_as_unsigned(ct, client as int, u16::MAX as int));
        assert(reads_as_unsigned(xt, tx as int, u32::MAX as int));
        assert(spec_read_amount(at) == Some(amount));
        if at.len() == 0 {
            assert(amount == spec_from_decimal_parts(0, 0));
            lemma_raise_scale_zero(0, 4);
            assert(amount.mantissa == 0);
            assert(amount.value() == 0) by (nonlinear_arith)
                requires
                    amount.mantissa == 0,
                    amount.value() == amount.mantissa * pow10((MAX_SCALE - amount.scale) as nat),
            ;
        }
        assert(reads_as_amount(at, op, amount));
    }
    assert forall|op: TypeOp, client: int, tx: int, amount: AmountView|
        0 <= cols.type_op < fields.len() && 0 <= cols.client < fields.len() && 0 <= cols.tx
            < fields.len() && 0 <= cols.amount < fields.len() && fields[cols.type_op]
            == spec_type_op_name(op) && #[trigger] reads_as_unsigned(fields[cols.client], client, u16::MAX as int)
            && #[trigger] reads_as_unsigned(fields[cols.tx], tx, u32::MAX as int)
            && #[trigger] reads_as_amount(fields[cols.amount], op, amount) implies (spec_parse_record(
            fields,
            cols,
        ) matches RecordParse::Parsed { type_op: t, op: o, client: c, tx: x, amount: a } && t
            == fields[cols.type_op] && o == op && c == client && x == tx && a.value()
            == amount.value()) by {
        law_type_op_name_round_trip(op);
        lemma_digits_value_prefix(unsigned_digits(fields[cols.client]), 0);
        lemma_digits_value_prefix(unsigned_digits(fields[cols.tx]), 0);
        let at = fields[cols.amount];
        assert(spec_parse_unsigned(fields[cols.client], 0xFFFF) == Some(client));
        assert(spec_parse_unsigned(fields[cols.tx], 0xFFFF_FFFF) == Some(tx));
        if at.len() == 0 {
            assert(spec_read_amount(at) == Some(spec_from_decimal_parts(0, 0)));
            lemma_raise_scale_zero(0, 4);
            let z = spec_from_decimal_parts(0, 0);
            assert(z.mantissa == 0);
            assert(z.value() == 0) by (nonlinear_arith)
                requires
                    z.mantissa == 0,
                    z.value() == z.mantissa * pow10((MAX_SCALE - z.scale) as nat),
            ;
        } else {
            assert(spec_read_amount(at) == Some(amount));
        }
    }
}

/// The names of the operation kinds in the `type` column.
pub proof fn law_type_op_names()
    ensures
        spec_type_op_name(TypeOp::Deposit) == "deposit"@,
        spec_type_op_name(TypeOp::Withdrawal) == "withdrawal"@,
        spec_type_op_name(TypeOp::Dispute) == "dispute"@,
        spec_type_op_name(TypeOp::Resolve) == "resolve"@,
        spec_type_op_name(TypeOp::Chargeback) == "chargeback"@,
{
}

/// Some header is `name` up to ASCII case.
pub open spec fn has_column(headers: Seq<Seq<char>>, name: Seq<char>) -> bool {
    exists|i: int| 0 <= i < headers.len() && eq_ignore_ascii_case(#[trigger] headers[i], name)
}

/// Header `i` is `name` up to ASCII case, and no header before it is.
pub open spec fn first_named(headers: Seq<Seq<char>>, name: Seq<char>, i: int) -> bool {
    &&& 0 <= i < headers.len()
    &&& eq_ignore_ascii_case(headers[i], name)
    &&& forall|j: int| 0 <= j < i ==> !eq_ignore_ascii_case(#[trigger] headers[j], name)
}

/// Where some header is `name`, a first such header exists.
proof fn lemma_first_named_exists(headers: Seq<Seq<char>>, name: Seq<char>, i: int)
    requires
        0 <= i < headers.len(),
        eq_ignore_ascii_case(headers[i], name),
    ensures
        exists|k: int| first_named(headers, name, k),
        find_column(headers, name) matches Some(k) && first_named(headers, name, k),
    decreases i,
{
    if exists|j: int| 0 <= j < i && eq_ignore_ascii_case(#[trigger] headers[j], name) {
        let j = choose|j: int| 0 <= j < i && eq_ignore_ascii_case(#[trigger] headers[j], name);
        lemma_first_named_exists(headers, name, j);
    } else {
        assert(first_named(headers, name, i));
        assert(is_first_column(headers, name, i));
    }
}

/// The header row is resolved exactly when each of `type`, `client`, `tx`
/// and `amount` names some column (up to ASCII case), and then each column
/// is the first so named. Otherwise the missing name is reported, the first
/// missing one in that order.
pub proof fn law_resolve_finds_the_first_columns(headers: Seq<Seq<char>>)
    ensures
        crate::parser::spec_resolve(headers) is Ok <==> has_column(headers, "type"@) && has_column(headers, "client"@)
            && has_column(headers, "tx"@) && has_column(headers, "amount"@),
        crate::parser::spec_resolve(headers) matches Ok(c) ==> {
            &&& first_named(headers, "type"@, c.type_op)
            &&& first_named(headers, "client"@, c.client)
            &&& first_named(headers, "tx"@, c.tx)
            &&& first_named(headers, "amount"@, c.amount)
        },
        crate::parser::spec_resolve(headers) matches Err(n) ==> {
            &&& !has_column(headers, n)
            &&& (n == "type"@ || n == "client"@ || n == "tx"@ || n == "amount"@)
            &&& n != "type"@ ==> has_column(headers, "type"@)
            &&& n != "type"@ && n != "client"@ ==> has_column(headers, "client"@)
            &&& n == "amount"@ ==> has_column(headers, "tx"@)
        },
{
    reveal_strlit("type");
    reveal_strlit("client");
    reveal_strlit("tx");
    reveal_strlit("amount");
    lemma_find_column_meaning(headers, "type"@);
    lemma_find_column_meaning(headers, "client"@);
    lemma_find_column_meaning(headers, "tx"@);
    lemma_find_column_meaning(headers, "amount"@);
    assert("type"@.len() != "client"@.len() && "type"@.len() != "tx"@.len() && "type"@.len() != "amount"@.len());
    assert("client"@.len() != "tx"@.len() && "tx"@.len() != "amount"@.len());
    assert("client"@[0] != "amount"@[0]);
}

/// `find_column` gives the first header named `name`, and none only where
/// no header is so named.
proof fn lemma_find_column_meaning(headers: Seq<Seq<char>>, name: Seq<char>)
    ensures
        find_column(headers, name) matches Some(i) ==> first_named(headers, name, i),
        find_column(headers, name) is None <==> !has_column(headers, name),
{
    if has_column(headers, name) {
        let i = choose|i: int| 0 <= i < headers.len() && eq_ignore_ascii_case(#[trigger] headers[i], name);
        lemma_first_named_exists(headers, name, i);
    }
    if let Some(i) = find_column(headers, name) {
        assert(is_first_column(headers, name, i));
        assert(0 <= i < headers.len() && eq_ignore_ascii_case(headers[i], name));
    }
}

/// Running rows one after another is running them all: the refusals of
/// the first part come first, and the second part starts from the ledger
/// the first part ends with; a run that stops in the first part never
/// reaches the second.
pub proof fn law_run_rows_concat(
    s: LedgerView,
    cols: ColumnsView,
    a: Seq<(Seq<Seq<char>>, u64)>,
    b: Seq<(Seq<Seq<char>>, u64)>,
)
    ensures
        run_rows(s, cols, a + b) == (match run_rows(s, cols, a) {
            (r, Err(e)) => (r, Err(e)),
            (r, Ok(t)) => (r + run_rows(t, cols, b).0, run_rows(t, cols, b).1),
        }),
    decreases a.len(),
{
    if a.len() == 0 {
        assert(a + b =~= b);
        assert(Seq::<(u32, RejectReason)>::empty() + run_rows(s, cols, b).0 =~= run_rows(s, cols, b).0);
    } else {
        assert((a + b)[0] == a[0]);
        assert((a + b).drop_first() =~= a.drop_first() + b);
        law_run_rows_concat_step(s, cols, a, b);
    }
}

proof fn law_run_rows_concat_step(
    s: LedgerView,
    cols: ColumnsView,
    a: Seq<(Seq<Seq<char>>, u64)>,
    b: Seq<(Seq<Seq<char>>, u64)>,
)
    requires
        a.len() > 0,
        (a + b)[0] == a[0],
        (a + b).drop_first() == a.drop_first() + b,
    ensures
        run_rows(s, cols, a + b) == (match run_rows(s, cols, a) {
            (r, Err(e)) => (r, Err(e)),
            (r, Ok(t)) => (r + run_rows(t, cols, b).0, run_rows(t, cols, b).1),
        }),
    decreases a.len(), 0nat,
{
    if let RecordParse::Parsed { op, client, tx, amount, .. } = spec_parse_record(a[0].0, cols) {
        if let Some((t, out)) = spec_apply(s, spec_command_of(op, client, amount, tx)) {
            law_run_rows_concat(t, cols, a.drop_first(), b);
            if let OpOutcome::Rejected(reason) = out {
                if let (r, Ok(u)) = run_rows(t, cols, a.drop_first()) {
                    assert(seq![(tx, reason)] + (r + run_rows(u, cols, b).0) =~= (seq![(tx, reason)] + r)
                        + run_rows(u, cols, b).0);
                }
            }
        }
    }
}

/// One row: one that cannot be read stops the run with `BadField` at its
/// line; one whose arithmetic overflows stops it as out of range; an
/// applied one goes on from the new ledger with no refusal; a refused one
/// goes on from the same ledger and records its transaction and reason.
pub proof fn law_run_one_row(s: LedgerView, cols: ColumnsView, row: (Seq<Seq<char>>, u64))
    ensures
        run_rows(s, cols, seq![row]) == (match spec_parse_record(row.0, cols) {
            RecordParse::Bad { column, value, expected } => (
                Seq::empty(),
                Err(RunError::BadField { line: row.1, column, value, expected }),
            ),
            RecordParse::Parsed { op, client, tx, amount, .. } => match spec_apply(
                s,
                spec_command_of(op, client, amount, tx),
            ) {
                None => (Seq::empty(), Err(RunError::OutOfRange)),
                Some((t, OpOutcome::Applied)) => (Seq::empty(), Ok(t)),
                Some((t, OpOutcome::Rejected(reason))) => (seq![(tx, reason)], Ok(t)),
            },
        }),
{
    reveal_with_fuel(run_rows, 2);
    assert(seq![row].drop_first() =~= Seq::<(Seq<Seq<char>>, u64)>::empty());
    assert(seq![row][0] == row);
    if let RecordParse::Parsed { op, client, tx, amount, .. } = spec_parse_record(row.0, cols) {
        if let Some((t, OpOutcome::Rejected(reason))) = spec_apply(s, spec_command_of(op, client, amount, tx)) {
            assert(seq![(tx, reason)] + Seq::<(u32, RejectReason)>::empty() =~= seq![(tx, reason)]);
        }
    }
}

/// The character of digit `d` is a digit worth `d`.
proof fn lemma_digit_char(d: nat)
    requires
        d < 10,
    ensures
        is_digit(digit_char(d)),
        digit_char(d) as int - '0' as int == d,
        digit_char(d) == '0' ==> d == 0,
{
}

/// A client id is written as its decimal digits: at least one digit, no
/// leading zero, and the digits read back as the id.
pub proof fn law_client_id_digits(n: nat)
    ensures
        spec_digits(n).len() > 0,
        all_digits(spec_digits(n)),
        digits_value(spec_digits(n)) == n,
        spec_digits(n).len() > 1 ==> spec_digits(n)[0] != '0',
    decreases n,
{
    let x = spec_digits(n);
    if n < 10 {
        lemma_digit_char(n);
        assert(x.drop_last() =~= Seq::<char>::empty());
        assert(digits_value(x) == digits_value(x.drop_last()) * 10 + (x.last() as int - '0' as int));
    } else {
        law_client_id_digits(n / 10);
        lemma_digit_char(n % 10);
        let d = spec_digits(n / 10);
        assert(x.drop_last() =~= d);
        assert(x.last() == digit_char(n % 10));
        assert(x[0] == d[0]);
        assert(digits_value(x) == digits_value(d) * 10 + (x.last() as int - '0' as int));
        assert(n == (n / 10) * 10 + n % 10);
        assert forall|i: int| 0 <= i < x.len() implies is_digit(#[trigger] x[i]) by {
            if i < d.len() {
                assert(x[i] == d[i]);
            }
        }
        if d.len() == 1 {
            assert(n / 10 < 10) by {
                if n / 10 >= 10 {
                    law_client_id_digits(n / 10 / 10);
                    assert(d.len() > 1);
                }
            }
            lemma_digit_char(n / 10);
        }
    }
}

/// `10^(a + b) == 10^a * 10^b`.
proof fn lemma_pow10_add(a: nat, b: nat)
    ensures
        pow10(a + b) == pow10(a) * pow10(b),
    decreases a,
{
    if a == 0 {
        assert(pow10(a) == 1);
        assert(a + b == b);
    } else {
        lemma_pow10_add((a - 1) as nat, b);
        assert(pow10(a + b) == 10 * pow10((a - 1 + b) as nat));
        assert(pow10(a) == 10 * pow10((a - 1) as nat));
        assert(10 * (pow10((a - 1) as nat) * pow10(b)) == (10 * pow10((a - 1) as nat)) * pow10(b)) by (nonlinear_arith);
    }
}

/// `10^a` is positive.
proof fn lemma_pow10_positive(a: nat)
    ensures
        pow10(a) > 0,
    decreases a,
{
    if a > 0 {
        lemma_pow10_positive((a - 1) as nat);
    }
}

/// Keeping a decimal with more decimal places to `places` of them drops
/// the extra digits toward zero: the result has `places` decimal places,
/// the sign of its value is not flipped, and it is less than one unit of
/// the last kept place closer to zero.
pub proof fn law_truncation_toward_zero(a: AmountView, places: nat)
    requires
        a.wf(),
        a.scale >= places,
    ensures
        truncated(a, places).scale == places,
        a.value() >= 0 ==> 0 <= a.value() - truncated(a, places).value() < pow10((MAX_SCALE - places) as nat),
        a.value() <= 0 ==> 0 <= truncated(a, places).value() - a.value() < pow10((MAX_SCALE - places) as nat),
{
    let k = (a.scale - places) as nat;
    let low = (MAX_SCALE - a.scale) as nat;
    let p: int = pow10(k) as int;
    lemma_pow10_positive(k);
    lemma_pow10_positive(low);
    lemma_pow10_add(k, low);
    assert((MAX_SCALE - places) as nat == k + low);
    let t = truncated(a, places);
    let m = a.mantissa as int;
    let mag: int = if m >= 0 { m } else { -m };
    let q: int = mag / p;
    let r: int = mag % p;
    assert(mag == q * p + r && 0 <= r < p) by (nonlinear_arith)
        requires
            p > 0,
            q == mag / p,
            r == mag % p,
    ;
    assert(q <= mag) by (nonlinear_arith)
        requires
            p > 0,
            mag >= 0,
            q == mag / p,
    ;
    assert(units_in_range(m));
    assert(t.mantissa as int == if m >= 0 { q } else { -q });
    let lp: int = pow10(low) as int;
    assert(a.value() == m * lp);
    assert(t.value() == (t.mantissa as int) * pow10(k + low));
    assert(mag * lp - q * (p * lp) == r * lp) by (nonlinear_arith)
        requires
            mag == q * p + r,
    ;
    assert(0 <= r * lp < p * lp) by (nonlinear_arith)
        requires
            0 <= r < p,
            lp > 0,
    ;
    if m >= 0 {
        assert(a.value() == mag * lp);
        assert(t.value() == q * (p * lp));
    } else {
        assert(a.value() == -(mag * lp)) by (nonlinear_arith)
            requires
                a.value() == m * lp,
                mag == -m,
        ;
        assert(t.value() == -(q * (p * lp))) by (nonlinear_arith)
            requires
                t.value() == (-q) * (p * lp),
        ;
    }
}

/// An output line lists the client id, then the available, held and total
/// funds as `Decimal` writes them, then `true` or `false` for the lock,
/// separated by commas.
pub proof fn law_output_line_fields(rec: OutputRecord)
    ensures
        spec_output_line(rec) == spec_digits(rec.client as nat) + seq![','] + decimal_text(rec.available@)
            + seq![','] + decimal_text(rec.held@) + seq![','] + decimal_text(rec.total@) + seq![',']
            + (if rec.locked { seq!['t', 'r', 'u', 'e'] } else { seq!['f', 'a', 'l', 's', 'e'] }),
{
}

} // verus!
