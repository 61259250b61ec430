//! What holds of every ledger the use cases can reach, stated over the steps
//! themselves and proved once for all inputs.
//!
//! A store is only ever changed through an exclusive reference, so whatever
//! callers run side by side, the ledger goes through a plain sequence of
//! steps. What every single step keeps therefore holds at all times.

use vstd::prelude::*;
use crate::decimal::{lemma_negated_value, lemma_plus_value, lemma_value_sign, Decimal};
use crate::model::{LedgerError, Timestamp, TransactionView};
use crate::state::{
    lemma_apply_transfer_wf, lemma_apply_wf, lemma_open_account_wf, posted_count, posted_sum,
    LedgerState,
};
use crate::use_case::{create_account_step, deposit_step, transfer_step, withdraw_step};

verus! {

/// One request to the ledger, with the identifiers and the time it is given.
pub enum Operation {
    CreateAccount { id: u128, currency: Seq<char>, now: Timestamp },
    Deposit { account_id: u128, amount: Decimal, key: Seq<char>, tx_id: u128, now: Timestamp },
    Withdraw { account_id: u128, amount: Decimal, key: Seq<char>, tx_id: u128, now: Timestamp },
    Transfer {
        from: u128,
        to: u128,
        amount: Decimal,
        key: Seq<char>,
        debit_id: u128,
        credit_id: u128,
        now: Timestamp,
    },
}

/// Where one operation leaves the ledger.
pub open spec fn step(s: LedgerState, op: Operation) -> LedgerState {
    match op {
        Operation::CreateAccount { id, currency, now } => create_account_step(
            s,
            id,
            currency,
            now,
        ).state,
        Operation::Deposit { account_id, amount, key, tx_id, now } => deposit_step(
            s,
            account_id,
            amount,
            key,
            tx_id,
            now,
        ).state,
        Operation::Withdraw { account_id, amount, key, tx_id, now } => withdraw_step(
            s,
            account_id,
            amount,
            key,
            tx_id,
            now,
        ).state,
        Operation::Transfer { from, to, amount, key, debit_id, credit_id, now } => transfer_step(
            s,
            from,
            to,
            amount,
            key,
            debit_id,
            credit_id,
            now,
        ).state,
    }
}

/// Where a sequence of operations, taken one after the other, leaves the ledger.
pub open spec fn run(s: LedgerState, ops: Seq<Operation>) -> LedgerState
    decreases ops.len(),
{
    if ops.len() == 0 {
        s
    } else {
        step(run(s, ops.drop_last()), ops.last())
    }
}

/// What adding an amount to a balance, or taking it away, does to the
/// numbers: a sum that can be held is the sum, an opposite that can be held
/// is the opposite, and each number has the sign of its units.
proof fn lemma_balance_moves(balance: Decimal, amount: Decimal)
    ensures
        balance.can_add(amount) ==> balance.plus(amount).value() == balance.value()
            + amount.value(),
        amount.can_negate() ==> amount.negated().value() == -amount.value(),
        amount.can_negate() && balance.can_add(amount.negated()) ==> balance.plus(
            amount.negated(),
        ).value() == balance.value() - amount.value(),
        balance.value() >= 0 <==> balance.units >= 0,
        amount.value() > 0 <==> amount.units > 0,
        balance.plus(amount).value() >= 0 <==> balance.plus(amount).units >= 0,
        balance.plus(amount.negated()).value() >= 0 <==> balance.plus(amount.negated()).units >= 0,
{
    if balance.can_add(amount) {
        lemma_plus_value(balance, amount);
    }
    if amount.can_negate() {
        lemma_negated_value(amount);
        if balance.can_add(amount.negated()) {
            lemma_plus_value(balance, amount.negated());
        }
    }
    lemma_value_sign(balance);
    lemma_value_sign(amount);
    lemma_value_sign(balance.plus(amount));
    lemma_value_sign(balance.plus(amount.negated()));
}

/// Whatever sequence of operations is run, the invariant is kept: at all
/// times every balance is the sum of the entries posted against its account.
pub proof fn lemma_run_keeps_invariant(s: LedgerState, ops: Seq<Operation>)
    requires
        s.wf(),
    ensures
        run(s, ops).wf(),
    decreases ops.len(),
{
    if ops.len() > 0 {
        lemma_run_keeps_invariant(s, ops.drop_last());
        let m = run(s, ops.drop_last());
        match ops.last() {
            Operation::CreateAccount { id, currency, now } => {
                lemma_create_account_keeps_invariant(m, id, currency, now);
            },
            Operation::Deposit { account_id, amount, key, tx_id, now } => {
                lemma_deposit_keeps_invariant(m, account_id, amount, key, tx_id, now);
            },
            Operation::Withdraw { account_id, amount, key, tx_id, now } => {
                lemma_withdraw_keeps_invariant(m, account_id, amount, key, tx_id, now);
            },
            Operation::Transfer { from, to, amount, key, debit_id, credit_id, now } => {
                lemma_transfer_keeps_invariant(m, from, to, amount, key, debit_id, credit_id, now);
            },
        }
    }
}

/// Whatever sequence of operations is run from a ledger in which no balance
/// is below zero, none is below zero at any time.
pub proof fn lemma_run_keeps_solvent(s: LedgerState, ops: Seq<Operation>)
    requires
        s.solvent(),
    ensures
        run(s, ops).solvent(),
    decreases ops.len(),
{
    if ops.len() > 0 {
        lemma_run_keeps_solvent(s, ops.drop_last());
        let m = run(s, ops.drop_last());
        let none = Decimal { units: 0, places: 0 };
        match ops.last() {
            Operation::CreateAccount { id, currency, now } => {
                lemma_steps_keep_solvent(m, id, id, none, currency, currency, 0, 0, now);
            },
            Operation::Deposit { account_id, amount, key, tx_id, now } => {
                lemma_steps_keep_solvent(m, account_id, account_id, amount, key, key, tx_id, 0, now);
            },
            Operation::Withdraw { account_id, amount, key, tx_id, now } => {
                lemma_steps_keep_solvent(m, account_id, account_id, amount, key, key, tx_id, 0, now);
            },
            Operation::Transfer { from, to, amount, key, debit_id, credit_id, now } => {
                lemma_steps_keep_solvent(m, from, to, amount, key, key, debit_id, credit_id, now);
            },
        }
    }
}

/// A reply, once recorded, is never changed or removed by any operation.
pub proof fn lemma_step_keeps_replies(s: LedgerState, op: Operation, k: (u128, Seq<char>))
    requires
        s.replies.contains_key(k),
    ensures
        step(s, op).replies.contains_key(k),
        step(s, op).replies[k] == s.replies[k],
{
}

/// A reply, once recorded, is never changed or removed by any sequence of
/// operations.
pub proof fn lemma_run_keeps_replies(s: LedgerState, ops: Seq<Operation>, k: (u128, Seq<char>))
    requires
        s.replies.contains_key(k),
    ensures
        run(s, ops).replies.contains_key(k),
        run(s, ops).replies[k] == s.replies[k],
    decreases ops.len(),
{
    if ops.len() > 0 {
        lemma_run_keeps_replies(s, ops.drop_last(), k);
        lemma_step_keeps_replies(run(s, ops.drop_last()), ops.last(), k);
    }
}

/// Whatever sequence of operations is run, an account stays, keeps its
/// identifier, its currency and its time of creation, and its version never
/// goes down.
pub proof fn lemma_run_keeps_accounts(s: LedgerState, ops: Seq<Operation>, id: u128)
    requires
        s.accounts.contains_key(id),
    ensures
        ({
            let t = run(s, ops);
            &&& t.accounts.contains_key(id)
            &&& t.accounts[id].uuid == s.accounts[id].uuid
            &&& t.accounts[id].currency == s.accounts[id].currency
            &&& t.accounts[id].created_at == s.accounts[id].created_at
            &&& t.accounts[id].version >= s.accounts[id].version
        }),
    decreases ops.len(),
{
    if ops.len() > 0 {
        lemma_run_keeps_accounts(s, ops.drop_last(), id);
    }
}

/// An operation that is refused leaves the ledger exactly as it was.
pub proof fn lemma_refusal_changes_nothing(
    s: LedgerState,
    a: u128,
    b: u128,
    amount: Decimal,
    key: Seq<char>,
    currency: Seq<char>,
    first_id: u128,
    second_id: u128,
    now: Timestamp,
)
    ensures
        create_account_step(s, a, currency, now).result is Err ==> create_account_step(
            s,
            a,
            currency,
            now,
        ).state == s,
        deposit_step(s, a, amount, key, first_id, now).result is Err ==> deposit_step(
            s,
            a,
            amount,
            key,
            first_id,
            now,
        ).state == s,
        withdraw_step(s, a, amount, key, first_id, now).result is Err ==> withdraw_step(
            s,
            a,
            amount,
            key,
            first_id,
            now,
        ).state == s,
        transfer_step(s, a, b, amount, key, first_id, second_id, now).result is Err
            ==> transfer_step(s, a, b, amount, key, first_id, second_id, now).state == s,
{
}

/// A deposit or a withdrawal of a positive amount on an account that does
/// not exist is refused with `NotFound`, whatever the key; one of an amount
/// that is not positive is refused with `InvalidAmount`, whatever the
/// account.
pub proof fn lemma_posting_refusals(
    s: LedgerState,
    account_id: u128,
    amount: Decimal,
    key: Seq<char>,
    tx_id: u128,
    now: Timestamp,
)
    requires
        s.wf(),
    ensures
        amount.units <= 0 ==> deposit_step(s, account_id, amount, key, tx_id, now).result == Err::<
            Seq<TransactionView>,
            LedgerError,
        >(LedgerError::InvalidAmount),
        amount.units <= 0 ==> withdraw_step(s, account_id, amount, key, tx_id, now).result == Err::<
            Seq<TransactionView>,
            LedgerError,
        >(LedgerError::InvalidAmount),
        amount.units > 0 && !s.accounts.contains_key(account_id) ==> deposit_step(
            s,
            account_id,
            amount,
            key,
            tx_id,
            now,
        ).result == Err::<Seq<TransactionView>, LedgerError>(LedgerError::NotFound),
        amount.units > 0 && !s.accounts.contains_key(account_id) ==> withdraw_step(
            s,
            account_id,
            amount,
            key,
            tx_id,
            now,
        ).result == Err::<Seq<TransactionView>, LedgerError>(LedgerError::NotFound),
{
    if s.replies.contains_key((account_id, key)) {
        assert(s.accounts.contains_key(account_id));
    }
}

/// A deposit of a positive amount to an existing account under a key not
/// yet processed for it is applied, provided the key is not empty, the
/// entry's identifier is fresh and the account can hold the amount. It
/// answers the one new entry, which joins the end of the log; the balance
/// goes up by the amount and the version by one, which the entry carries;
/// every other account stays as it was.
pub proof fn lemma_deposit_applies(
    s: LedgerState,
    account_id: u128,
    amount: Decimal,
    key: Seq<char>,
    tx_id: u128,
    now: Timestamp,
)
    requires
        s.accounts.contains_key(account_id),
        amount.units > 0,
        key.len() > 0,
        !s.replies.contains_key((account_id, key)),
        !s.has_entry(tx_id),
        s.can_hold(account_id, amount),
    ensures
        ({
            let step = deposit_step(s, account_id, amount, key, tx_id, now);
            let e = s.entry(account_id, amount, key, tx_id, now);
            &&& step.result == Ok::<Seq<TransactionView>, LedgerError>(seq![e])
            &&& step.state.log == s.log.push(e)
            &&& step.state.replies[(account_id, key)] == seq![e]
            &&& step.state.accounts[account_id].balance.value() == s.accounts[account_id].balance.value()
                + amount.value()
            &&& step.state.accounts[account_id].version == s.accounts[account_id].version + 1
            &&& e.account_version == step.state.accounts[account_id].version
            &&& e.amount == amount && e.account_id == account_id && e.idempotency_key == key
            &&& forall|other: u128|
                other != account_id && #[trigger] s.accounts.contains_key(other)
                    ==> step.state.accounts[other] == s.accounts[other]
        }),
{
    lemma_balance_moves(s.accounts[account_id].balance, amount);
}

/// A withdrawal of a positive amount that the balance covers, from an
/// existing account under a key not yet processed for it, is applied,
/// provided the key is not empty, the entry's identifier is fresh and the
/// version can still go up. It answers the one new entry, a debit, which
/// joins the end of the log; the balance goes down by the amount and the
/// version up by one; every other account stays as it was.
pub proof fn lemma_withdraw_applies(
    s: LedgerState,
    account_id: u128,
    amount: Decimal,
    key: Seq<char>,
    tx_id: u128,
    now: Timestamp,
)
    requires
        s.accounts.contains_key(account_id),
        amount.units > 0,
        s.accounts[account_id].balance.value() >= amount.value(),
        key.len() > 0,
        !s.replies.contains_key((account_id, key)),
        !s.has_entry(tx_id),
        s.can_hold(account_id, amount.negated()),
    ensures
        ({
            let step = withdraw_step(s, account_id, amount, key, tx_id, now);
            let e = s.entry(account_id, amount.negated(), key, tx_id, now);
            &&& step.result == Ok::<Seq<TransactionView>, LedgerError>(seq![e])
            &&& step.state.log == s.log.push(e)
            &&& step.state.accounts[account_id].balance.value() == s.accounts[account_id].balance.value()
                - amount.value()
            &&& step.state.accounts[account_id].balance.units >= 0
            &&& step.state.accounts[account_id].version == s.accounts[account_id].version + 1
            &&& e.account_version == step.state.accounts[account_id].version
            &&& forall|other: u128|
                other != account_id && #[trigger] s.accounts.contains_key(other)
                    ==> step.state.accounts[other] == s.accounts[other]
        }),
{
    lemma_balance_moves(s.accounts[account_id].balance, amount);
}

/// A transfer of a positive amount that the payer's balance covers, between
/// two different existing accounts of one currency under a key not yet
/// processed for either, is applied, provided the key is not empty, the two
/// entries' identifiers are fresh and differ, and both accounts can hold the
/// result. It answers the debit and the credit, which join the end of the
/// log together in that order; the payer's balance goes down by the amount
/// and the payee's up by it, so that their sum stays; both versions go up by
/// one; every other account stays as it was.
pub proof fn lemma_transfer_applies(
    s: LedgerState,
    from: u128,
    to: u128,
    amount: Decimal,
    key: Seq<char>,
    debit_id: u128,
    credit_id: u128,
    now: Timestamp,
)
    requires
        from != to,
        s.accounts.contains_key(from),
        s.accounts.contains_key(to),
        s.accounts[from].currency == s.accounts[to].currency,
        amount.units > 0,
        s.accounts[from].balance.value() >= amount.value(),
        key.len() > 0,
        !s.replies.contains_key((from, key)),
        !s.replies.contains_key((to, key)),
        debit_id != credit_id,
        !s.has_entry(debit_id),
        !s.has_entry(credit_id),
        s.can_hold(from, amount.negated()),
        s.can_hold(to, amount),
    ensures
        ({
            let step = transfer_step(s, from, to, amount, key, debit_id, credit_id, now);
            let d = s.debit_leg(from, amount, key, debit_id, now);
            let c = s.credit_leg(to, amount, key, credit_id, now);
            let t = step.state;
            &&& step.result == Ok::<Seq<TransactionView>, LedgerError>(seq![d, c])
            &&& t.log == s.log.push(d).push(c)
            &&& t.accounts[from].balance.value() == s.accounts[from].balance.value() - amount.value()
            &&& t.accounts[to].balance.value() == s.accounts[to].balance.value() + amount.value()
            &&& t.accounts[from].balance.value() + t.accounts[to].balance.value()
                == s.accounts[from].balance.value() + s.accounts[to].balance.value()
            &&& t.accounts[from].version == s.accounts[from].version + 1
            &&& t.accounts[to].version == s.accounts[to].version + 1
            &&& d.account_version == t.accounts[from].version
            &&& c.account_version == t.accounts[to].version
            &&& forall|other: u128|
                other != from && other != to && #[trigger] s.accounts.contains_key(other)
                    ==> t.accounts[other] == s.accounts[other]
        }),
{
    lemma_balance_moves(s.accounts[from].balance, amount);
    lemma_balance_moves(s.accounts[to].balance, amount);
}

/// In a ledger that satisfies the invariant, the balance of every account is
/// the sum of the amounts of the entries posted against it, and its version
/// is the number of those entries.
pub proof fn lemma_balance_is_sum_of_entries(s: LedgerState, id: u128)
    requires
        s.wf(),
        s.accounts.contains_key(id),
    ensures
        s.accounts[id].balance.value() == posted_sum(s.log, id),
        s.accounts[id].version == posted_count(s.log, id),
{
}

/// Creating an account keeps the invariant.
pub proof fn lemma_create_account_keeps_invariant(
    s: LedgerState,
    id: u128,
    currency: Seq<char>,
    now: Timestamp,
)
    requires
        s.wf(),
    ensures
        create_account_step(s, id, currency, now).state.wf(),
{
    if currency.len() != 0 && !s.accounts.contains_key(id) {
        lemma_open_account_wf(s, id, currency, now);
    }
}

/// A deposit keeps the invariant.
pub proof fn lemma_deposit_keeps_invariant(
    s: LedgerState,
    account_id: u128,
    amount: Decimal,
    key: Seq<char>,
    tx_id: u128,
    now: Timestamp,
)
    requires
        s.wf(),
    ensures
        deposit_step(s, account_id, amount, key, tx_id, now).state.wf(),
{
    if s.apply_refusal(account_id, amount, key, tx_id) is None {
        lemma_apply_wf(s, account_id, amount, key, tx_id, now);
    }
}

/// A withdrawal keeps the invariant.
pub proof fn lemma_withdraw_keeps_invariant(
    s: LedgerState,
    account_id: u128,
    amount: Decimal,
    key: Seq<char>,
    tx_id: u128,
    now: Timestamp,
)
    requires
        s.wf(),
    ensures
        withdraw_step(s, account_id, amount, key, tx_id, now).state.wf(),
{
    if s.apply_refusal(account_id, amount.negated(), key, tx_id) is None {
        lemma_apply_wf(s, account_id, amount.negated(), key, tx_id, now);
    }
}

/// A transfer keeps the invariant.
pub proof fn lemma_transfer_keeps_invariant(
    s: LedgerState,
    from: u128,
    to: u128,
    amount: Decimal,
    key: Seq<char>,
    debit_id: u128,
    credit_id: u128,
    now: Timestamp,
)
    requires
        s.wf(),
    ensures
        transfer_step(s, from, to, amount, key, debit_id, credit_id, now).state.wf(),
{
    if s.transfer_refusal(from, to, amount, key, debit_id, credit_id) is None {
        lemma_apply_transfer_wf(s, from, to, amount, key, debit_id, credit_id, now);
    }
}

/// Creating an account leaves every existing account's version as it was and
/// starts a new account at version zero with a zero balance.
pub proof fn lemma_create_account_versions(
    s: LedgerState,
    id: u128,
    currency: Seq<char>,
    now: Timestamp,
    other: u128,
)
    requires
        s.accounts.contains_key(other),
    ensures
        ({
            let step = create_account_step(s, id, currency, now);
            &&& step.state.accounts.contains_key(other)
            &&& step.state.accounts[other].version == s.accounts[other].version
            &&& step.result is Ok ==> step.state.accounts[id].version == 0
                && step.state.accounts[id].balance.units == 0
        }),
{
}

/// A deposit appends one entry or none. Where it appends one, the version
/// of its account goes up by exactly one; every other version, and every
/// version where nothing is appended, stays as it was.
pub proof fn lemma_deposit_versions(
    s: LedgerState,
    account_id: u128,
    amount: Decimal,
    key: Seq<char>,
    tx_id: u128,
    now: Timestamp,
    id: u128,
)
    requires
        s.accounts.contains_key(id),
    ensures
        ({
            let t = deposit_step(s, account_id, amount, key, tx_id, now).state;
            let grown = t.log.len() == s.log.len() + 1;
            &&& t.log.len() == s.log.len() || grown
            &&& t.accounts.contains_key(id)
            &&& t.accounts[id].version == s.accounts[id].version + if grown && id == account_id {
                1nat
            } else {
                0nat
            }
        }),
{
}

/// A withdrawal appends one entry or none. Where it appends one, the version
/// of its account goes up by exactly one; every other version, and every
/// version where nothing is appended, stays as it was.
pub proof fn lemma_withdraw_versions(
    s: LedgerState,
    account_id: u128,
    amount: Decimal,
    key: Seq<char>,
    tx_id: u128,
    now: Timestamp,
    id: u128,
)
    requires
        s.accounts.contains_key(id),
    ensures
        ({
            let t = withdraw_step(s, account_id, amount, key, tx_id, now).state;
            let grown = t.log.len() == s.log.len() + 1;
            &&& t.log.len() == s.log.len() || grown
            &&& t.accounts.contains_key(id)
            &&& t.accounts[id].version == s.accounts[id].version + if grown && id == account_id {
                1nat
            } else {
                0nat
            }
        }),
{
}

/// A transfer appends two entries or none. Where it appends them, the
/// versions of both of its accounts go up by exactly one each; every other
/// version, and every version where nothing is appended, stays as it was.
pub proof fn lemma_transfer_versions(
    s: LedgerState,
    from: u128,
    to: u128,
    amount: Decimal,
    key: Seq<char>,
    debit_id: u128,
    credit_id: u128,
    now: Timestamp,
    id: u128,
)
    requires
        s.accounts.contains_key(id),
    ensures
        ({
            let t = transfer_step(s, from, to, amount, key, debit_id, credit_id, now).state;
            let grown = t.log.len() == s.log.len() + 2;
            &&& t.log.len() == s.log.len() || grown
            &&& t.accounts.contains_key(id)
            &&& t.accounts[id].version == s.accounts[id].version + if grown && (id == from || id
                == to) {
                1nat
            } else {
                0nat
            }
        }),
{
}

/// A deposit that was answered with entries, asked again for the same
/// account and key after any operations in between, is answered with the
/// same entries and changes nothing, whichever identifier and time the
/// repetition is given.
pub proof fn lemma_deposit_idempotent(
    s: LedgerState,
    account_id: u128,
    amount: Decimal,
    key: Seq<char>,
    tx_id: u128,
    now: Timestamp,
    between: Seq<Operation>,
    again_tx_id: u128,
    again_now: Timestamp,
)
    requires
        deposit_step(s, account_id, amount, key, tx_id, now).result is Ok,
    ensures
        ({
            let first = deposit_step(s, account_id, amount, key, tx_id, now);
            let later = run(first.state, between);
            let second = deposit_step(later, account_id, amount, key, again_tx_id, again_now);
            &&& second.result == first.result
            &&& second.state == later
        }),
{
    let first = deposit_step(s, account_id, amount, key, tx_id, now);
    lemma_run_keeps_replies(first.state, between, (account_id, key));
}

/// A withdrawal that was answered with entries, asked again for the same
/// account and key after any operations in between, is answered with the
/// same entries and changes nothing, whichever identifier and time the
/// repetition is given and whatever the balance has become.
pub proof fn lemma_withdraw_idempotent(
    s: LedgerState,
    account_id: u128,
    amount: Decimal,
    key: Seq<char>,
    tx_id: u128,
    now: Timestamp,
    between: Seq<Operation>,
    again_tx_id: u128,
    again_now: Timestamp,
)
    requires
        withdraw_step(s, account_id, amount, key, tx_id, now).result is Ok,
    ensures
        ({
            let first = withdraw_step(s, account_id, amount, key, tx_id, now);
            let later = run(first.state, between);
            let second = withdraw_step(later, account_id, amount, key, again_tx_id, again_now);
            &&& second.result == first.result
            &&& second.state == later
        }),
{
    let first = withdraw_step(s, account_id, amount, key, tx_id, now);
    lemma_run_keeps_replies(first.state, between, (account_id, key));
}

/// A transfer that was answered with entries, asked again for the same two
/// accounts and key after any operations in between, is answered with the
/// same two entries in the same order and changes nothing, whichever
/// identifiers and time the repetition is given and whatever the balances
/// have become.
pub proof fn lemma_transfer_idempotent(
    s: LedgerState,
    from: u128,
    to: u128,
    amount: Decimal,
    key: Seq<char>,
    debit_id: u128,
    credit_id: u128,
    now: Timestamp,
    between: Seq<Operation>,
    again_debit_id: u128,
    again_credit_id: u128,
    again_now: Timestamp,
)
    requires
        transfer_step(s, from, to, amount, key, debit_id, credit_id, now).result is Ok,
    ensures
        ({
            let first = transfer_step(s, from, to, amount, key, debit_id, credit_id, now);
            let later = run(first.state, between);
            let second = transfer_step(
                later,
                from,
                to,
                amount,
                key,
                again_debit_id,
                again_credit_id,
                again_now,
            );
            &&& second.result == first.result
            &&& second.state == later
            &&& first.result.unwrap().len() == 2
            &&& first.result.unwrap()[0].account_id == from
            &&& first.result.unwrap()[1].account_id == to
        }),
{
    let first = transfer_step(s, from, to, amount, key, debit_id, credit_id, now);
    let list = first.result.unwrap();
    assert(first.state.transfer_reply(from, to, key) == Some(list));
    lemma_run_keeps_replies(first.state, between, (from, key));
    lemma_run_keeps_replies(first.state, between, (to, key));
}

/// A withdrawal takes no balance below zero: an account that was not
/// overdrawn before the step is not overdrawn after it, and the account
/// withdrawn from is left with what it had less the amount.
pub proof fn lemma_withdraw_never_overdraws(
    s: LedgerState,
    account_id: u128,
    amount: Decimal,
    key: Seq<char>,
    tx_id: u128,
    now: Timestamp,
    id: u128,
)
    requires
        s.accounts.contains_key(id),
        s.accounts[id].balance.units >= 0,
    ensures
        ({
            let t = withdraw_step(s, account_id, amount, key, tx_id, now).state;
            &&& t.accounts.contains_key(id)
            &&& t.accounts[id].balance.units >= 0
            &&& t.accounts[id].balance.value() == s.accounts[id].balance.value() - if t.log.len()
                > s.log.len() && id == account_id {
                amount.value()
            } else {
                0
            }
        }),
{
    lemma_balance_moves(s.accounts[account_id].balance, amount);
}

/// No step overdraws an account: from a ledger in which no balance is below
/// zero, creating an account, a deposit, a withdrawal and a transfer each
/// lead to a ledger in which none is.
pub proof fn lemma_steps_keep_solvent(
    s: LedgerState,
    a: u128,
    b: u128,
    amount: Decimal,
    key: Seq<char>,
    currency: Seq<char>,
    first_id: u128,
    second_id: u128,
    now: Timestamp,
)
    requires
        s.solvent(),
    ensures
        create_account_step(s, a, currency, now).state.solvent(),
        deposit_step(s, a, amount, key, first_id, now).state.solvent(),
        withdraw_step(s, a, amount, key, first_id, now).state.solvent(),
        transfer_step(s, a, b, amount, key, first_id, second_id, now).state.solvent(),
{
    lemma_balance_moves(s.accounts[a].balance, amount);
    lemma_balance_moves(s.accounts[b].balance, amount);
}

/// A transfer posts both legs or neither. A refused transfer leaves the
/// ledger as it was. One that is answered either repeats a recorded reply
/// and leaves the ledger as it was, or appends exactly its two legs, the
/// debit first, takes the amount from the payer's balance and adds it to
/// the payee's.
pub proof fn lemma_transfer_all_or_nothing(
    s: LedgerState,
    from: u128,
    to: u128,
    amount: Decimal,
    key: Seq<char>,
    debit_id: u128,
    credit_id: u128,
    now: Timestamp,
)
    ensures
        ({
            let step = transfer_step(s, from, to, amount, key, debit_id, credit_id, now);
            let d = s.debit_leg(from, amount, key, debit_id, now);
            let c = s.credit_leg(to, amount, key, credit_id, now);
            &&& step.result is Err ==> step.state == s
            &&& step.state == s || {
                &&& step.result == Ok::<Seq<TransactionView>, LedgerError>(seq![d, c])
                &&& step.state.log == s.log.push(d).push(c)
                &&& step.state.accounts[from].balance.value() == s.accounts[from].balance.value()
                    - amount.value()
                &&& step.state.accounts[to].balance.value() == s.accounts[to].balance.value()
                    + amount.value()
                &&& d.account_id == from && d.amount == amount.negated() && d.idempotency_key == key
                &&& c.account_id == to && c.amount == amount && c.idempotency_key == key
            }
        }),
{
    lemma_balance_moves(s.accounts[from].balance, amount);
    lemma_balance_moves(s.accounts[to].balance, amount);
}

} // verus!
