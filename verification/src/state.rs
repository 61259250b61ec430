//! The ledger as a mathematical value: the accounts, the append-only log of
//! entries, and the replies recorded per account and idempotency key, with
//! the transitions between such values and the invariant they keep.

use vstd::prelude::*;
use crate::decimal::{lemma_plus_value, lemma_value_sign, Decimal};
use crate::model::{AccountView, LedgerError, Timestamp, TransactionView};

verus! {

/// The sum of the amounts of the entries of `log` that are posted against
/// `id`, in the finest unit a decimal can have.
pub open spec fn posted_sum(log: Seq<TransactionView>, id: u128) -> int
    decreases log.len(),
{
    if log.len() == 0 {
        0
    } else {
        posted_sum(log.drop_last(), id) + if log.last().account_id == id {
            log.last().amount.value()
        } else {
            0
        }
    }
}

/// The number of entries of `log` that are posted against `id`.
pub open spec fn posted_count(log: Seq<TransactionView>, id: u128) -> nat
    decreases log.len(),
{
    if log.len() == 0 {
        0
    } else {
        posted_count(log.drop_last(), id) + if log.last().account_id == id {
            1nat
        } else {
            0nat
        }
    }
}

/// Every entry of `list` stands in `log` and carries `key`.
pub open spec fn listed_in_log(
    log: Seq<TransactionView>,
    key: Seq<char>,
    list: Seq<TransactionView>,
) -> bool {
    forall|j: int|
        0 <= j < list.len() ==> log.contains(#[trigger] list[j]) && list[j].idempotency_key == key
}

/// The whole of the ledger's state.
pub struct LedgerState {
    /// The accounts by identifier.
    pub accounts: Map<u128, AccountView>,
    /// Every entry ever applied, oldest first.
    pub log: Seq<TransactionView>,
    /// For each account and idempotency key already processed, the entries
    /// that its first application produced.
    pub replies: Map<(u128, Seq<char>), Seq<TransactionView>>,
}

impl LedgerState {
    /// The ledger with no account and no entry.
    pub open spec fn empty() -> LedgerState {
        LedgerState { accounts: Map::empty(), log: Seq::empty(), replies: Map::empty() }
    }

    /// Some entry of the log has the identifier `tx_id`.
    pub open spec fn has_entry(self, tx_id: u128) -> bool {
        exists|i: int| 0 <= i < self.log.len() && (#[trigger] self.log[i]).id == tx_id
    }

    /// Each account is filed under its own identifier, its balance is the sum
    /// of the entries posted against it, and its version is their number.
    pub open spec fn books_balance(self) -> bool {
        forall|id: u128| #[trigger]
            self.accounts.contains_key(id) ==> {
                &&& self.accounts[id].uuid == id
                &&& self.accounts[id].balance.value() == posted_sum(self.log, id)
                &&& self.accounts[id].version == posted_count(self.log, id)
            }
    }

    /// Each entry is posted against an existing account, in that account's
    /// currency, and carries the version the account had once it was applied.
    pub open spec fn entries_sound(self) -> bool {
        forall|i: int|
            0 <= i < self.log.len() ==> {
                let e = #[trigger] self.log[i];
                &&& self.accounts.contains_key(e.account_id)
                &&& e.currency == self.accounts[e.account_id].currency
                &&& e.account_version == posted_count(self.log.take(i + 1), e.account_id)
            }
    }

    /// No two entries share an identifier.
    pub open spec fn entry_ids_unique(self) -> bool {
        forall|i: int, j: int|
            0 <= i < j < self.log.len() ==> (#[trigger] self.log[i]).id != (#[trigger] self.log[j]).id
    }

    /// A reply is recorded for an existing account and lists entries of the
    /// log that carry its key, and every entry of the log is listed in the
    /// reply recorded for its account and key.
    pub open spec fn replies_sound(self) -> bool {
        &&& forall|k: (u128, Seq<char>)| #[trigger]
            self.replies.contains_key(k) ==> self.accounts.contains_key(k.0) && listed_in_log(
                self.log,
                k.1,
                self.replies[k],
            )
        &&& forall|i: int|
            0 <= i < self.log.len() ==> {
                let e = #[trigger] self.log[i];
                &&& self.replies.contains_key((e.account_id, e.idempotency_key))
                &&& self.replies[(e.account_id, e.idempotency_key)].contains(e)
            }
    }

    /// The invariant of the ledger.
    pub open spec fn wf(self) -> bool {
        &&& self.books_balance()
        &&& self.entries_sound()
        &&& self.entry_ids_unique()
        &&& self.replies_sound()
    }

    /// No account is overdrawn.
    pub open spec fn solvent(self) -> bool {
        forall|id: u128| #[trigger] self.accounts.contains_key(id) ==> self.accounts[id].balance.units >= 0
    }

    /// The ledger with a new, empty account `id`.
    pub open spec fn open_account(self, id: u128, currency: Seq<char>, now: Timestamp) -> LedgerState {
        LedgerState {
            accounts: self.accounts.insert(
                id,
                AccountView {
                    uuid: id,
                    currency,
                    balance: Decimal { units: 0, places: 0 },
                    version: 0,
                    created_at: now,
                    last_updated_at: now,
                },
            ),
            ..self
        }
    }

    /// The entry that posting `amount` against `account_id` produces.
    pub open spec fn entry(
        self,
        account_id: u128,
        amount: Decimal,
        key: Seq<char>,
        tx_id: u128,
        now: Timestamp,
    ) -> TransactionView {
        TransactionView {
            id: tx_id,
            account_id,
            amount,
            currency: self.accounts[account_id].currency,
            account_version: self.accounts[account_id].version + 1,
            created_at: now,
            idempotency_key: key,
        }
    }

    /// The ledger with `e` appended to the log and its account brought up to date.
    pub open spec fn post(self, e: TransactionView) -> LedgerState {
        let a = self.accounts[e.account_id];
        LedgerState {
            accounts: self.accounts.insert(
                e.account_id,
                AccountView {
                    balance: a.balance.plus(e.amount),
                    version: a.version + 1,
                    last_updated_at: e.created_at,
                    ..a
                },
            ),
            log: self.log.push(e),
            replies: self.replies,
        }
    }

    /// The ledger with `list` recorded as the reply for `account_id` and `key`.
    pub open spec fn record(
        self,
        account_id: u128,
        key: Seq<char>,
        list: Seq<TransactionView>,
    ) -> LedgerState {
        LedgerState { replies: self.replies.insert((account_id, key), list), ..self }
    }

    /// The ledger after one entry of `amount` is applied to `account_id` under `key`.
    pub open spec fn apply(
        self,
        account_id: u128,
        amount: Decimal,
        key: Seq<char>,
        tx_id: u128,
        now: Timestamp,
    ) -> LedgerState {
        let e = self.entry(account_id, amount, key, tx_id, now);
        self.post(e).record(account_id, key, seq![e])
    }

    /// The debit leg of a transfer.
    pub open spec fn debit_leg(
        self,
        from: u128,
        amount: Decimal,
        key: Seq<char>,
        debit_id: u128,
        now: Timestamp,
    ) -> TransactionView {
        self.entry(from, amount.negated(), key, debit_id, now)
    }

    /// The credit leg of a transfer.
    pub open spec fn credit_leg(
        self,
        to: u128,
        amount: Decimal,
        key: Seq<char>,
        credit_id: u128,
        now: Timestamp,
    ) -> TransactionView {
        self.entry(to, amount, key, credit_id, now)
    }

    /// The ledger after both legs of a transfer are applied: the debit, then
    /// the credit, and the pair recorded for either account.
    pub open spec fn apply_transfer(
        self,
        from: u128,
        to: u128,
        amount: Decimal,
        key: Seq<char>,
        debit_id: u128,
        credit_id: u128,
        now: Timestamp,
    ) -> LedgerState {
        let d = self.debit_leg(from, amount, key, debit_id, now);
        let c = self.credit_leg(to, amount, key, credit_id, now);
        self.post(d).post(c).record(from, key, seq![d, c]).record(to, key, seq![d, c])
    }

    /// Account `account_id` can take `amount` more: the new balance can be
    /// held, and so can the new version.
    pub open spec fn can_hold(self, account_id: u128, amount: Decimal) -> bool {
        &&& self.accounts[account_id].balance.can_add(amount)
        &&& self.accounts[account_id].version < u64::MAX
    }

    /// The reply recorded for the transfer from `from` to `to` under `key`,
    /// if that transfer was applied: the one list of two entries that is
    /// recorded for either account, the first entry on `from` and the second
    /// on `to`. A reply that another operation recorded under the key is none.
    pub open spec fn transfer_reply(self, from: u128, to: u128, key: Seq<char>) -> Option<
        Seq<TransactionView>,
    > {
        if self.replies.contains_key((from, key)) && self.replies.contains_key((to, key)) && {
            let list = self.replies[(from, key)];
            &&& self.replies[(to, key)] == list
            &&& list.len() == 2
            &&& list[0].account_id == from
            &&& list[1].account_id == to
        } {
            Some(self.replies[(from, key)])
        } else {
            None
        }
    }

    /// Why the store refuses to open account `id`, if it does: the
    /// identifier is taken, or else the currency code is empty.
    pub open spec fn open_refusal(self, id: u128, currency: Seq<char>) -> Option<LedgerError> {
        if self.accounts.contains_key(id) {
            Some(LedgerError::AlreadyExists)
        } else if currency.len() == 0 {
            Some(LedgerError::InvalidOperation)
        } else {
            None
        }
    }

    /// Why the store refuses to apply an entry, if it does: the account is
    /// missing, or else the key is empty, or else the key was processed for
    /// the account before, or else the entry cannot be held.
    pub open spec fn apply_refusal(
        self,
        account_id: u128,
        amount: Decimal,
        key: Seq<char>,
        tx_id: u128,
    ) -> Option<LedgerError> {
        if !self.accounts.contains_key(account_id) {
            Some(LedgerError::NotFound)
        } else if key.len() == 0 {
            Some(LedgerError::InvalidOperation)
        } else if self.replies.contains_key((account_id, key)) {
            Some(LedgerError::AlreadyExists)
        } else if self.has_entry(tx_id) || !self.can_hold(account_id, amount) {
            Some(LedgerError::StorageUnavailable)
        } else {
            None
        }
    }

    /// Why the store refuses to apply a transfer, if it does: the two
    /// accounts are one, or else one is missing, or else the key is empty,
    /// or else the key was processed for either account before, or else the
    /// entries cannot be held.
    pub open spec fn transfer_refusal(
        self,
        from: u128,
        to: u128,
        amount: Decimal,
        key: Seq<char>,
        debit_id: u128,
        credit_id: u128,
    ) -> Option<LedgerError> {
        if from == to {
            Some(LedgerError::InvalidOperation)
        } else if !self.accounts.contains_key(from) || !self.accounts.contains_key(to) {
            Some(LedgerError::NotFound)
        } else if key.len() == 0 {
            Some(LedgerError::InvalidOperation)
        } else if self.replies.contains_key((from, key)) || self.replies.contains_key((to, key)) {
            Some(LedgerError::AlreadyExists)
        } else if debit_id == credit_id || self.has_entry(debit_id) || self.has_entry(credit_id)
            || !amount.can_negate() || !self.can_hold(from, amount.negated()) || !self.can_hold(
            to,
            amount,
        ) {
            Some(LedgerError::StorageUnavailable)
        } else {
            None
        }
    }
}

/// Appending an entry adds its amount to the sum of its account and leaves
/// every other sum alone; likewise for the counts.
pub proof fn lemma_posted_push(log: Seq<TransactionView>, e: TransactionView, id: u128)
    ensures
        posted_sum(log.push(e), id) == posted_sum(log, id) + if e.account_id == id {
            e.amount.value()
        } else {
            0
        },
        posted_count(log.push(e), id) == posted_count(log, id) + if e.account_id == id {
            1nat
        } else {
            0nat
        },
{
    assert(log.push(e).drop_last() =~= log);
}

/// A log without entries for `id` sums and counts to zero for it.
pub proof fn lemma_posted_none(log: Seq<TransactionView>, id: u128)
    requires
        forall|i: int| 0 <= i < log.len() ==> (#[trigger] log[i]).account_id != id,
    ensures
        posted_sum(log, id) == 0,
        posted_count(log, id) == 0,
    decreases log.len(),
{
    if log.len() > 0 {
        lemma_posted_none(log.drop_last(), id);
    }
}

/// The empty ledger satisfies the invariant and is solvent.
pub proof fn lemma_empty_wf()
    ensures
        LedgerState::empty().wf(),
        LedgerState::empty().solvent(),
{
}

/// Opening an account that does not exist yet keeps the invariant.
pub proof fn lemma_open_account_wf(s: LedgerState, id: u128, currency: Seq<char>, now: Timestamp)
    requires
        s.wf(),
        !s.accounts.contains_key(id),
    ensures
        s.open_account(id, currency, now).wf(),
{
    let t = s.open_account(id, currency, now);
    lemma_posted_none(s.log, id);
    lemma_value_sign(Decimal { units: 0, places: 0 });
    assert(t.books_balance());
    assert(t.entries_sound());
    assert forall|k: (u128, Seq<char>)| #[trigger] t.replies.contains_key(k) implies t.accounts.contains_key(
        k.0,
    ) by {
        assert(s.replies.contains_key(k));
    }
}

/// Appending an entry for an existing account, under a fresh identifier, in
/// the account's currency and with its next version, keeps what the invariant
/// says of accounts and entries.
proof fn lemma_post_core(s: LedgerState, e: TransactionView)
    requires
        s.books_balance(),
        s.entries_sound(),
        s.entry_ids_unique(),
        s.accounts.contains_key(e.account_id),
        !s.has_entry(e.id),
        s.accounts[e.account_id].balance.can_add(e.amount),
        e.currency == s.accounts[e.account_id].currency,
        e.account_version == s.accounts[e.account_id].version + 1,
    ensures
        s.post(e).books_balance(),
        s.post(e).entries_sound(),
        s.post(e).entry_ids_unique(),
{
    let t = s.post(e);
    let n = s.log.len() as int;
    lemma_plus_value(s.accounts[e.account_id].balance, e.amount);
    assert forall|id: u128| #[trigger] t.accounts.contains_key(id) implies {
        &&& t.accounts[id].uuid == id
        &&& t.accounts[id].balance.value() == posted_sum(t.log, id)
        &&& t.accounts[id].version == posted_count(t.log, id)
    } by {
        lemma_posted_push(s.log, e, id);
        assert(s.accounts.contains_key(id));
    }
    assert forall|i: int| 0 <= i < t.log.len() implies {
        let x = #[trigger] t.log[i];
        &&& t.accounts.contains_key(x.account_id)
        &&& x.currency == t.accounts[x.account_id].currency
        &&& x.account_version == posted_count(t.log.take(i + 1), x.account_id)
    } by {
        if i < n {
            assert(t.log[i] == s.log[i]);
            assert(t.log.take(i + 1) =~= s.log.take(i + 1));
        } else {
            assert(t.log.take(i + 1) =~= t.log);
            lemma_posted_push(s.log, e, e.account_id);
        }
    }
    assert forall|i: int, j: int| 0 <= i < j < t.log.len() implies (#[trigger] t.log[i]).id != (
    #[trigger] t.log[j]).id by {
        assert(t.log[i] == s.log[i]);
        if j < n {
            assert(t.log[j] == s.log[j]);
        }
    }
}

/// What stood in a log still stands in it after an entry is appended.
proof fn lemma_push_contains(log: Seq<TransactionView>, e: TransactionView, x: TransactionView)
    requires
        log.contains(x) || x == e,
    ensures
        log.push(e).contains(x),
{
    if log.contains(x) {
        let i = choose|i: int| 0 <= i < log.len() && log[i] == x;
        assert(log.push(e)[i] == x);
    } else {
        assert(log.push(e)[log.len() as int] == x);
    }
}

/// Applying an entry that the store can hold keeps the invariant.
pub proof fn lemma_apply_wf(
    s: LedgerState,
    account_id: u128,
    amount: Decimal,
    key: Seq<char>,
    tx_id: u128,
    now: Timestamp,
)
    requires
        s.wf(),
        s.accounts.contains_key(account_id),
        !s.replies.contains_key((account_id, key)),
        !s.has_entry(tx_id),
        s.accounts[account_id].balance.can_add(amount),
    ensures
        s.apply(account_id, amount, key, tx_id, now).wf(),
{
    let e = s.entry(account_id, amount, key, tx_id, now);
    let t = s.apply(account_id, amount, key, tx_id, now);
    lemma_post_core(s, e);
    assert(t.accounts == s.post(e).accounts);
    assert(t.log == s.post(e).log);
    assert forall|k: (u128, Seq<char>)| #[trigger] t.replies.contains_key(k) implies t.accounts.contains_key(
        k.0,
    ) && listed_in_log(t.log, k.1, t.replies[k]) by {
        if k != (account_id, key) {
            assert(s.replies.contains_key(k));
        }
        let list = t.replies[k];
        assert forall|j: int| 0 <= j < list.len() implies t.log.contains(#[trigger] list[j])
            && list[j].idempotency_key == k.1 by {
            if k == (account_id, key) {
                lemma_push_contains(s.log, e, list[j]);
            } else {
                assert(s.replies.contains_key(k));
                assert(listed_in_log(s.log, k.1, s.replies[k]));
                lemma_push_contains(s.log, e, list[j]);
            }
        }
    }
    assert forall|i: int| 0 <= i < t.log.len() implies {
        let x = #[trigger] t.log[i];
        &&& t.replies.contains_key((x.account_id, x.idempotency_key))
        &&& t.replies[(x.account_id, x.idempotency_key)].contains(x)
    } by {
        if i < s.log.len() {
            assert(t.log[i] == s.log[i]);
        } else {
            assert(seq![e][0] == e);
        }
    }
}

/// Applying a transfer that the store can hold keeps the invariant.
pub proof fn lemma_apply_transfer_wf(
    s: LedgerState,
    from: u128,
    to: u128,
    amount: Decimal,
    key: Seq<char>,
    debit_id: u128,
    credit_id: u128,
    now: Timestamp,
)
    requires
        s.wf(),
        from != to,
        s.accounts.contains_key(from),
        s.accounts.contains_key(to),
        !s.replies.contains_key((from, key)),
        !s.replies.contains_key((to, key)),
        debit_id != credit_id,
        !s.has_entry(debit_id),
        !s.has_entry(credit_id),
        s.accounts[from].balance.can_add(amount.negated()),
        s.accounts[to].balance.can_add(amount),
    ensures
        s.apply_transfer(from, to, amount, key, debit_id, credit_id, now).wf(),
{
    let d = s.debit_leg(from, amount, key, debit_id, now);
    let c = s.credit_leg(to, amount, key, credit_id, now);
    let m = s.post(d);
    let t = s.apply_transfer(from, to, amount, key, debit_id, credit_id, now);
    let pair = seq![d, c];
    lemma_post_core(s, d);
    assert(!m.has_entry(credit_id)) by {
        if m.has_entry(credit_id) {
            let i = choose|i: int| 0 <= i < m.log.len() && (#[trigger] m.log[i]).id == credit_id;
            if i < s.log.len() {
                assert(s.log[i].id == credit_id);
            }
        }
    }
    lemma_post_core(m, c);
    assert(t.accounts == m.post(c).accounts);
    assert(t.log == m.post(c).log);
    assert(pair[0] == d && pair[1] == c);
    assert forall|x: TransactionView| s.log.contains(x) || x == d || x == c implies t.log.contains(
        x,
    ) by {
        if x != c {
            lemma_push_contains(s.log, d, x);
        }
        lemma_push_contains(m.log, c, x);
    }
    assert forall|k: (u128, Seq<char>)| #[trigger] t.replies.contains_key(k) implies t.accounts.contains_key(
        k.0,
    ) && listed_in_log(t.log, k.1, t.replies[k]) by {
        if k != (from, key) && k != (to, key) {
            assert(s.replies.contains_key(k));
        }
        let list = t.replies[k];
        assert forall|j: int| 0 <= j < list.len() implies t.log.contains(#[trigger] list[j])
            && list[j].idempotency_key == k.1 by {
            if k == (from, key) || k == (to, key) {
                assert(list == pair);
            } else {
                assert(s.replies.contains_key(k));
                assert(listed_in_log(s.log, k.1, s.replies[k]));
            }
        }
    }
    assert forall|i: int| 0 <= i < t.log.len() implies {
        let x = #[trigger] t.log[i];
        &&& t.replies.contains_key((x.account_id, x.idempotency_key))
        &&& t.replies[(x.account_id, x.idempotency_key)].contains(x)
    } by {
        if i < s.log.len() {
            assert(t.log[i] == s.log[i]);
        } else if i == s.log.len() {
            assert(t.log[i] == d);
        } else {
            assert(t.log[i] == c);
        }
    }
}

} // verus!
