//! Properties of the ledger that hold across operations.
use vstd::prelude::*;
use crate::amount::AmountView;
use crate::ledger::{
    Command, LedgerView, held_share, step_is_exact, sum_held, spec_apply, spec_chargeback, spec_deposit, spec_dispute, spec_resolve,
    spec_withdrawal,
};
use crate::dispatcher::spec_command_of;
use crate::driver::{csv_read, run_rows, spec_run};
use crate::parser::{find_column, is_first_column, spec_parse_record, ColumnsView, RecordParse};
use crate::text::eq_ignore_ascii_case;
use crate::types::{OpOutcome, RejectReason, TxState, TypeOp, spec_parse_type_op, spec_type_op_name};

verus! {

/// The commands that act on a stored transaction.
pub open spec fn acts_on_stored_tx(cmd: Command) -> bool {
    cmd is Dispute || cmd is Resolve || cmd is Chargeback
}

/// Where its decimal arithmetic is exact, every operation keeps every
/// account balanced (`available + held == total`) and every balance and
/// stored amount a decimal.
pub proof fn law_operations_keep_accounts_balanced(s: LedgerView, cmd: Command)
    requires
        s.wf(),
        s.balanced(),
        cmd.wf(),
        step_is_exact(s, cmd),
    ensures
        spec_apply(s, cmd) matches Some((t, _)) ==> t.wf() && t.balanced(),
{
    match cmd {
        Command::Deposit { client, amount, tx } => {
            if s.clients.contains_key(client) {
                assert(s.clients[client].wf() && s.clients[client].balanced());
            }
            if s.txs.contains_key(tx) {
                assert(s.txs[tx].wf());
            }
            assert(AmountView::zero().value() == 0);
            lemma_step_keeps_wf(s, spec_deposit(s, client, amount, tx), client, tx);
        },
        Command::Withdrawal { client, amount, tx } => {
            if s.clients.contains_key(client) {
                assert(s.clients[client].wf() && s.clients[client].balanced());
            }
            if s.txs.contains_key(tx) {
                assert(s.txs[tx].wf());
            }
            assert(AmountView::zero().value() == 0);
            lemma_step_keeps_wf(s, spec_withdrawal(s, client, amount, tx), client, tx);
        },
        Command::Dispute { client, tx } => {
            if s.clients.contains_key(client) && s.txs.contains_key(tx) {
                assert(s.clients[client].wf() && s.clients[client].balanced());
                assert(s.txs[tx].wf());
            }
            lemma_step_keeps_wf(s, spec_dispute(s, client, tx), client, tx);
        },
        Command::Resolve { client, tx } => {
            if s.clients.contains_key(client) && s.txs.contains_key(tx) {
                assert(s.clients[client].wf() && s.clients[client].balanced());
                assert(s.txs[tx].wf());
            }
            lemma_step_keeps_wf(s, spec_resolve(s, client, tx), client, tx);
        },
        Command::Chargeback { client, tx } => {
            if s.clients.contains_key(client) && s.txs.contains_key(tx) {
                assert(s.clients[client].wf() && s.clients[client].balanced());
                assert(s.txs[tx].wf());
            }
            lemma_step_keeps_wf(s, spec_chargeback(s, client, tx), client, tx);
        },
    }
}

/// A step that changes at most `client` and `tx`, leaving them well formed,
/// and balanced, keeps the whole ledger so.
proof fn lemma_step_keeps_wf(s: LedgerView, step: crate::ledger::Step, client: u16, tx: u32)
    requires
        s.wf(),
        s.balanced(),
        step matches Some((t, _)) ==> {
            &&& forall|c: u16| c != client && #[trigger] t.clients.contains_key(c) ==> s.clients.contains_key(c) && t.clients[c] == s.clients[c]
            &&& forall|x: u32| x != tx && #[trigger] t.txs.contains_key(x) ==> s.txs.contains_key(x) && t.txs[x] == s.txs[x]
            &&& t.clients.contains_key(client) ==> t.clients[client].wf() && t.clients[client].balanced()
            &&& t.txs.contains_key(tx) ==> t.txs[tx].wf()
        },
    ensures
        step matches Some((t, _)) ==> t.wf() && t.balanced(),
{
    if let Some((t, _)) = step {
        assert forall|c: u16| #[trigger] t.clients.contains_key(c) implies t.clients[c].wf()
            && t.clients[c].balanced() by {
            if c != client {
                assert(s.clients[c].wf() && s.clients[c].balanced());
            }
        }
        assert forall|x: u32| #[trigger] t.txs.contains_key(x) implies t.txs[x].wf() by {
            if x != tx {
                assert(s.txs[x].wf());
            }
        }
    }
}

/// A refused operation changes nothing.
pub proof fn law_rejection_changes_nothing(s: LedgerView, cmd: Command)
    ensures
        spec_apply(s, cmd) matches Some((t, OpOutcome::Rejected(_))) ==> t == s,
{
}

/// Accounts are never removed, and a locked account stays locked.
pub proof fn law_lock_is_permanent(s: LedgerView, cmd: Command, client: u16)
    requires
        s.clients.contains_key(client),
    ensures
        spec_apply(s, cmd) matches Some((t, _)) ==> {
            &&& t.clients.contains_key(client)
            &&& s.clients[client].locked ==> t.clients[client].locked
        },
{
}

/// A locked account refuses deposits and withdrawals.
pub proof fn law_locked_account_refuses_deposit_and_withdrawal(
    s: LedgerView,
    client: u16,
    amount: AmountView,
    tx: u32,
)
    requires
        s.clients.contains_key(client),
        s.clients[client].locked,
    ensures
        spec_deposit(s, client, amount, tx) == Some(
            (s, OpOutcome::Rejected(RejectReason::AccountLocked)),
        ),
        spec_withdrawal(s, client, amount, tx) == Some(
            (s, OpOutcome::Rejected(RejectReason::AccountLocked)),
        ),
{
}

/// A lock is never a reason to refuse a dispute, resolve or chargeback:
/// they reach the same outcome on the account as if it were unlocked.
pub proof fn law_lock_does_not_stop_adjudication(s: LedgerView, cmd: Command, client: u16)
    requires
        acts_on_stored_tx(cmd),
        s.clients.contains_key(client),
    ensures
        ({
            let unlocked = LedgerView {
                clients: s.clients.insert(
                    client,
                    crate::types::ClientView { locked: false, ..s.clients[client] },
                ),
                txs: s.txs,
            };
            match (spec_apply(s, cmd), spec_apply(unlocked, cmd)) {
                (Some((_, o1)), Some((_, o2))) => o1 == o2,
                (None, None) => true,
                _ => false,
            }
        }),
{
}

/// Dispute, resolve and chargeback apply at most once: applied again to the
/// ledger they produced, they are refused and change nothing.
pub proof fn law_no_double_apply(s: LedgerView, cmd: Command)
    requires
        acts_on_stored_tx(cmd),
    ensures
        spec_apply(s, cmd) matches Some((t, OpOutcome::Applied)) ==> spec_apply(t, cmd) matches Some(
            (u, OpOutcome::Rejected(_)),
        ) && u == t,
{
}

/// Dispute, resolve and chargeback change only the state of the transaction
/// they name: its kind, client and amount stay, and every other stored
/// transaction stays as it was.
pub proof fn law_tx_record_keeps_kind_client_amount(s: LedgerView, cmd: Command, other: u32)
    requires
        acts_on_stored_tx(cmd),
    ensures
        spec_apply(s, cmd) matches Some((t, OpOutcome::Applied)) ==> {
            let tx = match cmd {
                Command::Dispute { tx, .. } => tx,
                Command::Resolve { tx, .. } => tx,
                Command::Chargeback { tx, .. } => tx,
                _ => 0,
            };
            &&& s.txs.contains_key(tx) && t.txs.contains_key(tx)
            &&& t.txs[tx].type_op == s.txs[tx].type_op
            &&& t.txs[tx].client == s.txs[tx].client
            &&& t.txs[tx].amount == s.txs[tx].amount
            &&& t.txs.dom() == s.txs.dom()
            &&& other != tx && s.txs.contains_key(other) ==> t.txs[other] == s.txs[other]
        },
{
    if let Some((t, OpOutcome::Applied)) = spec_apply(s, cmd) {
        assert(t.txs.dom() =~= s.txs.dom());
    }
}

/// The lifecycle of a stored transaction: a dispute takes it from active to
/// disputed, a resolve from disputed to resolved, a chargeback from
/// disputed to charged back.
pub proof fn law_tx_lifecycle(s: LedgerView, client: u16, tx: u32)
    ensures
        spec_dispute(s, client, tx) matches Some((t, OpOutcome::Applied)) ==> s.txs[tx].state
            == TxState::Active && t.txs[tx].state == TxState::Disputed,
        spec_resolve(s, client, tx) matches Some((t, OpOutcome::Applied)) ==> s.txs[tx].state
            == TxState::Disputed && t.txs[tx].state == TxState::Resolved,
        spec_chargeback(s, client, tx) matches Some((t, OpOutcome::Applied)) ==> s.txs[tx].state
            == TxState::Disputed && t.txs[tx].state == TxState::ChargedBack,
{
}

/// A resolved or charged-back transaction can no longer be disputed,
/// resolved or charged back.
pub proof fn law_settled_tx_is_final(s: LedgerView, cmd: Command, tx: u32)
    requires
        acts_on_stored_tx(cmd),
        s.txs.contains_key(tx),
        s.txs[tx].state == TxState::Resolved || s.txs[tx].state == TxState::ChargedBack,
        cmd matches Command::Dispute { tx: t, .. } ==> t == tx,
        cmd matches Command::Resolve { tx: t, .. } ==> t == tx,
        cmd matches Command::Chargeback { tx: t, .. } ==> t == tx,
    ensures
        spec_apply(s, cmd) matches Some((t, OpOutcome::Rejected(_))) && t == s,
{
}

/// Where the decimal arithmetic is exact, a resolve undoes a dispute: the
/// account's available and held funds return to their values before the
/// dispute, and the total never moves.
pub proof fn law_resolve_undoes_dispute(s: LedgerView, client: u16, tx: u32)
    requires
        s.wf(),
        s.clients.contains_key(client) ==> s.clients[client].held.value() >= 0,
        step_is_exact(s, Command::Dispute { client, tx }),
        spec_dispute(s, client, tx) matches Some((t, _)) ==> step_is_exact(
            t,
            Command::Resolve { client, tx },
        ),
    ensures
        spec_dispute(s, client, tx) matches Some((t, OpOutcome::Applied)) ==> (
        spec_resolve(t, client, tx) matches Some((u, OpOutcome::Applied)) && {
            &&& u.clients[client].available.value() == s.clients[client].available.value()
            &&& u.clients[client].held.value() == s.clients[client].held.value()
            &&& u.clients[client].total == s.clients[client].total
            &&& t.clients[client].total == s.clients[client].total
        }),
{
}

/// A chargeback takes the disputed amount out of the account for good:
/// where the decimal arithmetic is exact, the total and the held funds drop
/// by it; the available funds stay, and the account is locked.
pub proof fn law_chargeback_removes_disputed_funds(s: LedgerView, client: u16, tx: u32)
    requires
        step_is_exact(s, Command::Chargeback { client, tx }),
    ensures
        spec_chargeback(s, client, tx) matches Some((t, OpOutcome::Applied)) ==> {
            &&& t.clients[client].total.value() == s.clients[client].total.value()
                - s.txs[tx].amount.value()
            &&& t.clients[client].held.value() == s.clients[client].held.value()
                - s.txs[tx].amount.value()
            &&& t.clients[client].available == s.clients[client].available
            &&& t.clients[client].locked
        },
{
}

/// Every operation kind's name reads back as that kind.
pub proof fn law_type_op_name_round_trip(op: TypeOp)
    ensures
        spec_parse_type_op(spec_type_op_name(op)) == Some(op),
{
    reveal_strlit("deposit");
    reveal_strlit("withdrawal");
    reveal_strlit("dispute");
    reveal_strlit("resolve");
    reveal_strlit("chargeback");
    match op {
        TypeOp::Deposit => {},
        TypeOp::Withdrawal => {
            assert("withdrawal"@.len() != "deposit"@.len());
        },
        TypeOp::Dispute => {
            assert("dispute"@[1] != "deposit"@[1]);
            assert("dispute"@.len() != "withdrawal"@.len());
        },
        TypeOp::Resolve => {
            assert("resolve"@[0] != "deposit"@[0]);
            assert("resolve"@.len() != "withdrawal"@.len());
            assert("resolve"@[0] != "dispute"@[0]);
        },
        TypeOp::Chargeback => {
            assert("chargeback"@.len() != "deposit"@.len());
            assert("chargeback"@[0] != "withdrawal"@[0]);
            assert("chargeback"@.len() != "dispute"@.len());
            assert("chargeback"@.len() != "resolve"@.len());
        },
    }
}

/// Held funds are the money in open disputes: only an applied dispute
/// raises a client's held funds (by the disputed amount, where the decimal
/// arithmetic is exact), only an applied resolve or chargeback lowers them
/// (by that amount), and no operation touches another client's held funds.
pub proof fn law_held_moves_only_with_disputes(s: LedgerView, cmd: Command, c: u16)
    requires
        s.clients.contains_key(c),
        step_is_exact(s, cmd),
    ensures
        spec_apply(s, cmd) matches Some((t, out)) ==> t.clients[c].held.value() - s.clients[c].held.value()
            == match cmd {
            Command::Dispute { client, tx } => if client == c && out == OpOutcome::Applied {
                s.txs[tx].amount.value()
            } else {
                0
            },
            Command::Resolve { client, tx } => if client == c && out == OpOutcome::Applied {
                -s.txs[tx].amount.value()
            } else {
                0
            },
            Command::Chargeback { client, tx } => if client == c && out == OpOutcome::Applied {
                -s.txs[tx].amount.value()
            } else {
                0
            },
            _ => 0,
        },
{
}

/// Where the decimal arithmetic is exact, a withdrawal of what was just
/// deposited into an existing account undoes the deposit's effect on the
/// balances.
pub proof fn law_withdrawal_undoes_deposit(
    s: LedgerView,
    client: u16,
    amount: AmountView,
    tx1: u32,
    tx2: u32,
)
    requires
        s.wf(),
        amount.wf(),
        s.clients.contains_key(client),
        s.clients[client].available.value() >= 0,
        tx1 != tx2,
        !s.txs.contains_key(tx2),
        step_is_exact(s, Command::Deposit { client, amount, tx: tx1 }),
        spec_deposit(s, client, amount, tx1) matches Some((t, _)) ==> step_is_exact(
            t,
            Command::Withdrawal { client, amount, tx: tx2 },
        ),
    ensures
        spec_deposit(s, client, amount, tx1) matches Some((t, OpOutcome::Applied)) ==> (
        spec_withdrawal(t, client, amount, tx2) matches Some((u, OpOutcome::Applied)) && {
            &&& u.clients[client].available.value() == s.clients[client].available.value()
            &&& u.clients[client].held == s.clients[client].held
            &&& u.clients[client].total.value() == s.clients[client].total.value()
        }),
{
    assert(s.clients[client].wf());
}

/// A stored transaction's kind, client and amount never change, and it is
/// never removed; only a dispute, resolve or chargeback changes its state.
pub proof fn law_stored_records_keep_kind_client_amount(s: LedgerView, cmd: Command, id: u32)
    requires
        s.txs.contains_key(id),
    ensures
        spec_apply(s, cmd) matches Some((t, _)) ==> {
            &&& t.txs.contains_key(id)
            &&& t.txs[id].type_op == s.txs[id].type_op
            &&& t.txs[id].client == s.txs[id].client
            &&& t.txs[id].amount == s.txs[id].amount
            &&& !acts_on_stored_tx(cmd) ==> t.txs[id] == s.txs[id]
        },
{
}

/// The sum over a set may take out any of its members first.
proof fn lemma_sum_held_remove(ids: Set<u32>, txs: Map<u32, crate::types::TxView>, c: u16, x: u32)
    requires
        ids.finite(),
        ids.contains(x),
    ensures
        sum_held(ids, txs, c) == held_share(txs, x, c) + sum_held(ids.remove(x), txs, c),
    decreases ids.len(),
{
    let y = ids.choose();
    if y != x {
        lemma_sum_held_remove(ids.remove(y), txs, c, x);
        lemma_sum_held_remove(ids.remove(x), txs, c, y);
        assert(ids.remove(y).remove(x) =~= ids.remove(x).remove(y));
    }
}

/// Sums over the same ids agree where every share agrees.
proof fn lemma_sum_held_same_shares(
    ids: Set<u32>,
    t1: Map<u32, crate::types::TxView>,
    t2: Map<u32, crate::types::TxView>,
    c: u16,
)
    requires
        ids.finite(),
        forall|id: u32| ids.contains(id) ==> held_share(t1, id, c) == held_share(t2, id, c),
    ensures
        sum_held(ids, t1, c) == sum_held(ids, t2, c),
    decreases ids.len(),
{
    if ids.len() > 0 {
        let y = ids.choose();
        lemma_sum_held_same_shares(ids.remove(y), t1, t2, c);
    }
}

/// Storing `rec` as `id` changes `c`'s open disputes by the change of that
/// one share.
proof fn lemma_open_disputes_store(s: LedgerView, id: u32, rec: crate::types::TxView, c: u16)
    requires
        s.txs.dom().finite(),
    ensures
        ({
            let t = s.txs.insert(id, rec);
            sum_held(t.dom(), t, c) == sum_held(s.txs.dom(), s.txs, c) - held_share(s.txs, id, c)
                + held_share(t, id, c)
        }),
{
    let t = s.txs.insert(id, rec);
    let rest = s.txs.dom().remove(id);
    assert(t.dom().remove(id) =~= rest);
    lemma_sum_held_remove(t.dom(), t, c, id);
    lemma_sum_held_same_shares(rest, s.txs, t, c);
    if s.txs.contains_key(id) {
        lemma_sum_held_remove(s.txs.dom(), s.txs, c, id);
    } else {
        assert(s.txs.dom().remove(id) =~= s.txs.dom());
    }
}

/// A client with no stored transactions has no open disputes.
proof fn lemma_open_disputes_none(ids: Set<u32>, txs: Map<u32, crate::types::TxView>, c: u16)
    requires
        ids.finite(),
        forall|id: u32| ids.contains(id) ==> held_share(txs, id, c) == 0,
    ensures
        sum_held(ids, txs, c) == 0,
    decreases ids.len(),
{
    if ids.len() > 0 {
        let y = ids.choose();
        lemma_open_disputes_none(ids.remove(y), txs, c);
    }
}

/// Held funds are the money in open disputes: where every client's held
/// funds are the sum of the amounts of its disputed transactions, every
/// operation whose decimal arithmetic is exact keeps it so. (A deposit that
/// opens an account needs that no disputed transaction belongs to a client
/// without one.)
#[verifier::spinoff_prover]
pub proof fn law_held_is_open_disputes(s: LedgerView, cmd: Command)
    requires
        s.held_is_open_disputes(),
        step_is_exact(s, cmd),
        cmd is Deposit ==> s.disputes_have_accounts(),
    ensures
        spec_apply(s, cmd) matches Some((t, _)) ==> t.held_is_open_disputes(),
{
    if let Some((t, out)) = spec_apply(s, cmd) {
        if out is Applied {
            let (client, tx) = match cmd {
                Command::Deposit { client, tx, .. } => (client, tx),
                Command::Withdrawal { client, tx, .. } => (client, tx),
                Command::Dispute { client, tx } => (client, tx),
                Command::Resolve { client, tx } => (client, tx),
                Command::Chargeback { client, tx } => (client, tx),
            };
            assert(t.txs == s.txs.insert(tx, t.txs[tx]));
            assert forall|c: u16| #[trigger] t.clients.contains_key(c) implies t.clients[c].held.value()
                == t.open_disputes(c) by {
                lemma_open_disputes_store(s, tx, t.txs[tx], c);
                if !s.clients.contains_key(c) {
                    assert forall|id: u32| s.txs.dom().contains(id) implies held_share(s.txs, id, c)
                        == 0 by {
                        if s.txs[id].state == TxState::Disputed {
                            assert(s.clients.contains_key(s.txs[id].client));
                        }
                    }
                    lemma_open_disputes_none(s.txs.dom(), s.txs, c);
                }
            }
        }
    }
}

/// Every disputed transaction keeps belonging to a client with an account.
pub proof fn law_disputes_have_accounts(s: LedgerView, cmd: Command)
    requires
        s.disputes_have_accounts(),
    ensures
        spec_apply(s, cmd) matches Some((t, _)) ==> t.disputes_have_accounts(),
{
}

/// `p` reorders `n` columns: every index below `n` appears exactly once.
pub open spec fn is_permutation(p: Seq<int>, n: int) -> bool {
    &&& p.len() == n
    &&& forall|i: int| 0 <= i < n ==> 0 <= #[trigger] p[i] < n
    &&& forall|i: int, j: int| 0 <= i < n && 0 <= j < n && i != j ==> p[i] != p[j]
    &&& forall|k: int| 0 <= k < n ==> #[trigger] takes_from(p, k)
}

/// Some entry of `p` is `k`.
pub open spec fn takes_from(p: Seq<int>, k: int) -> bool {
    exists|j: int| 0 <= j < p.len() && #[trigger] p[j] == k
}

/// `b` is `a` with its entries taken in the order `p`.
pub open spec fn reordered(a: Seq<Seq<char>>, p: Seq<int>, b: Seq<Seq<char>>) -> bool {
    &&& b.len() == a.len()
    &&& forall|i: int| 0 <= i < b.len() ==> #[trigger] b[i] == a[p[i]]
}

/// No two header names are equal up to ASCII case.
pub open spec fn distinct_headers(h: Seq<Seq<char>>) -> bool {
    forall|i: int, j: int|
        0 <= i < h.len() && 0 <= j < h.len() && i != j ==> !eq_ignore_ascii_case(
            #[trigger] h[i],
            #[trigger] h[j],
        )
}

/// Two texts that both equal `name` up to ASCII case equal each other so.
proof fn lemma_eq_ignore_case_through(a: Seq<char>, b: Seq<char>, name: Seq<char>)
    requires
        eq_ignore_ascii_case(a, name),
        eq_ignore_ascii_case(b, name),
    ensures
        eq_ignore_ascii_case(a, b),
{
    assert forall|i: int| 0 <= i < a.len() implies crate::text::fold_ascii_case(#[trigger] a[i])
        == crate::text::fold_ascii_case(b[i]) by {
        assert(crate::text::fold_ascii_case(a[i]) == crate::text::fold_ascii_case(name[i]));
        assert(crate::text::fold_ascii_case(b[i]) == crate::text::fold_ascii_case(name[i]));
    }
}

/// With distinct headers, the column named `name` moves with the reordering.
proof fn lemma_find_column_reordered(h: Seq<Seq<char>>, p: Seq<int>, h2: Seq<Seq<char>>, name: Seq<char>)
    requires
        is_permutation(p, h.len() as int),
        reordered(h, p, h2),
        distinct_headers(h),
    ensures
        match find_column(h, name) {
            Some(i) => find_column(h2, name) matches Some(j) && 0 <= j < h.len() && p[j] == i,
            None => find_column(h2, name) is None,
        },
{
    let n = h.len() as int;
    if exists|i: int| is_first_column(h, name, i) {
        let i = choose|i: int| is_first_column(h, name, i);
        assert(takes_from(p, i));
        let j = choose|j: int| 0 <= j < n && #[trigger] p[j] == i;
        assert(h2[j] == h[p[j]]);
        assert forall|k: int| 0 <= k < j implies !eq_ignore_ascii_case(#[trigger] h2[k], name) by {
            assert(h2[k] == h[p[k]]);
            assert(p[k] != i);
            if eq_ignore_ascii_case(h2[k], name) {
                lemma_eq_ignore_case_through(h[p[k]], h[i], name);
                assert(!eq_ignore_ascii_case(h[p[k]], h[i]));
            }
        }
        assert(is_first_column(h2, name, j));
        assert forall|k: int| is_first_column(h2, name, k) implies k == j by {
            if k < j {
            } else if k > j {
                assert(!eq_ignore_ascii_case(h2[j], name));
            }
        }
    } else {
        assert forall|k: int| !is_first_column(h2, name, k) by {
            if is_first_column(h2, name, k) {
                assert(h2[k] == h[p[k]]);
                let i = p[k];
                assert forall|m: int| 0 <= m < i implies !eq_ignore_ascii_case(#[trigger] h[m], name) by {
                    if eq_ignore_ascii_case(h[m], name) {
                        lemma_eq_ignore_case_through(h[m], h[i], name);
                    }
                }
                assert(is_first_column(h, name, i));
            }
        }
    }
}

/// The order of the columns does not matter: reordering the header row and
/// a data row alike (with no header name given twice, up to ASCII case)
/// finds the same columns missing, or reads the row to the same result.
pub proof fn law_column_order_does_not_matter(
    h: Seq<Seq<char>>,
    rec: Seq<Seq<char>>,
    p: Seq<int>,
    h2: Seq<Seq<char>>,
    rec2: Seq<Seq<char>>,
)
    requires
        rec.len() == h.len(),
        is_permutation(p, h.len() as int),
        reordered(h, p, h2),
        reordered(rec, p, rec2),
        distinct_headers(h),
    ensures
        match (crate::parser::spec_resolve(h), crate::parser::spec_resolve(h2)) {
            (Ok(c1), Ok(c2)) => spec_parse_record(rec2, c2) == spec_parse_record(rec, c1),
            (Err(n1), Err(n2)) => n1 == n2,
            _ => false,
        },
{
    lemma_find_column_reordered(h, p, h2, "type"@);
    lemma_find_column_reordered(h, p, h2, "client"@);
    lemma_find_column_reordered(h, p, h2, "tx"@);
    lemma_find_column_reordered(h, p, h2, "amount"@);
    if let (Ok(c1), Ok(c2)) = (crate::parser::spec_resolve(h), crate::parser::spec_resolve(h2)) {
        assert(rec2[c2.type_op] == rec[c1.type_op]);
        assert(rec2[c2.client] == rec[c1.client]);
        assert(rec2[c2.tx] == rec[c1.tx]);
        assert(rec2[c2.amount] == rec[c1.amount]);
    }
}

} // verus!

verus! {

/// Every row of a run from `s` that is read gives a command with a decimal
/// amount whose arithmetic is exact, up to the row where the run stops.
pub open spec fn run_is_exact(s: LedgerView, cols: ColumnsView, rows: Seq<(Seq<Seq<char>>, u64)>) -> bool
    decreases rows.len(),
{
    if rows.len() == 0 {
        true
    } else {
        match spec_parse_record(rows[0].0, cols) {
            RecordParse::Bad { .. } => true,
            RecordParse::Parsed { op, client, tx, amount, .. } => {
                let cmd = spec_command_of(op, client, amount, tx);
                &&& cmd.wf()
                &&& step_is_exact(s, cmd)
                &&& match spec_apply(s, cmd) {
                    None => true,
                    Some((t, _)) => run_is_exact(t, cols, rows.drop_first()),
                }
            },
        }
    }
}

/// The accounts stay balanced over a whole run of rows: where every step's
/// decimal arithmetic is exact, a run that ends leaves every account with
/// `available + held == total`, every client's held funds equal to its open
/// disputes, and every disputed transaction with its client's account.
pub proof fn law_run_keeps_accounts_balanced(s: LedgerView, cols: ColumnsView, rows: Seq<(Seq<Seq<char>>, u64)>)
    requires
        s.wf(),
        s.balanced(),
        s.held_is_open_disputes(),
        s.disputes_have_accounts(),
        run_is_exact(s, cols, rows),
    ensures
        run_rows(s, cols, rows).1 matches Ok(t) ==> {
            &&& t.wf()
            &&& t.balanced()
            &&& t.held_is_open_disputes()
            &&& t.disputes_have_accounts()
        },
    decreases rows.len(),
{
    if rows.len() > 0 {
        if let RecordParse::Parsed { op, client, tx, amount, .. } = spec_parse_record(rows[0].0, cols) {
            let cmd = spec_command_of(op, client, amount, tx);
            law_operations_keep_accounts_balanced(s, cmd);
            law_held_is_open_disputes(s, cmd);
            law_disputes_have_accounts(s, cmd);
            if let Some((t, _)) = spec_apply(s, cmd) {
                law_run_keeps_accounts_balanced(t, cols, rows.drop_first());
            }
        }
    }
}

/// A whole run on CSV input starts from no accounts, so where every step's
/// decimal arithmetic is exact, the accounts it ends with (those whose
/// output lines `TxProcessor::process` gives) are balanced, and every
/// client's held funds are its open disputes.
pub proof fn law_processed_accounts_are_balanced(input: Seq<u8>)
    requires
        csv_read(input) matches Ok((h, rows, _)) ==> (crate::parser::spec_resolve(h) matches Ok(cols)
            ==> run_is_exact(LedgerView::empty(), cols, rows)),
    ensures
        spec_run(input).1 matches Ok(t) ==> t.balanced() && t.held_is_open_disputes(),
{
    if let Ok((h, rows, _)) = csv_read(input) {
        if let Ok(cols) = crate::parser::spec_resolve(h) {
            let e = LedgerView::empty();
            assert(e.txs.dom() =~= Set::<u32>::empty());
            law_run_keeps_accounts_balanced(e, cols, rows);
        }
    }
}

} // verus!
