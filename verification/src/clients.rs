use vstd::prelude::*;

use crate::fixed_number::FixedNumber;
use crate::fixed_number::i64_fits;
use crate::transactions::Transaction;
use crate::transactions::TransactionType;

verus! {

/// The mathematical state of one client's ledger: scaled balances as
/// unbounded integers, the lock flag, and the stored history.
#[verifier::ext_equal]
pub struct ClientModel {
    pub id: u16,
    pub available: int,
    pub held: int,
    pub total: int,
    pub locked: bool,
    pub transactions: Seq<Transaction>,
}

impl ClientModel {
    /// The ledger invariant: the total is exactly the available part plus
    /// the held part.
    pub open spec fn balanced(self) -> bool {
        self.total == self.available + self.held
    }
}

/// The state of a client ledger seen for the first time: zeroed balances,
/// unlocked, with an empty history.
pub open spec fn fresh_client(id: u16) -> ClientModel {
    ClientModel {
        id,
        available: 0,
        held: 0,
        total: 0,
        locked: false,
        transactions: Seq::empty(),
    }
}

/// The index of the first stored transaction whose id is `id`, or `-1` when
/// none carries it.
pub open spec fn find_first(txs: Seq<Transaction>, id: u32) -> int
    decreases txs.len(),
{
    if txs.len() == 0 {
        -1
    } else if txs[0].id == id {
        0
    } else if find_first(txs.subrange(1, txs.len() as int), id) == -1 {
        -1
    } else {
        1 + find_first(txs.subrange(1, txs.len() as int), id)
    }
}

/// `find_first` returns either `-1`, and then no stored transaction carries
/// the id, or the first index that does.
pub proof fn lemma_find_first(txs: Seq<Transaction>, id: u32)
    ensures
        -1 <= find_first(txs, id) < txs.len(),
        find_first(txs, id) == -1 ==> forall|j: int| 0 <= j < txs.len() ==> txs[j].id != id,
        find_first(txs, id) >= 0 ==> txs[find_first(txs, id)].id == id,
        find_first(txs, id) >= 0 ==> forall|j: int| 0 <= j < find_first(txs, id) ==> txs[j].id != id,
    decreases txs.len(),
{
    if txs.len() == 0 {
    } else if txs[0].id == id {
    } else {
        let rest = txs.subrange(1, txs.len() as int);
        lemma_find_first(rest, id);
        assert(forall|j: int| 1 <= j < txs.len() ==> txs[j] == rest[j - 1]);
    }
}

/// The effect of a deposit: when the amount is present and positive, the
/// available balance grows by it, the event is stored, and the total is
/// recomputed; otherwise nothing changes.
pub open spec fn spec_deposit(m: ClientModel, tx: Transaction) -> ClientModel {
    if tx.has_positive_amount() {
        let a = tx.amount_value();
        ClientModel {
            available: m.available + a,
            total: m.held + (m.available + a),
            transactions: m.transactions.push(tx),
            ..m
        }
    } else {
        m
    }
}

/// The effect of a withdrawal: when the amount is present, positive and
/// covered by the available balance, the available balance shrinks by it,
/// the event is stored, and the total is recomputed; otherwise nothing
/// changes.
pub open spec fn spec_withdraw(m: ClientModel, tx: Transaction) -> ClientModel {
    if tx.has_positive_amount() && m.available >= tx.amount_value() {
        let a = tx.amount_value();
        ClientModel {
            available: m.available - a,
            total: m.held + (m.available - a),
            transactions: m.transactions.push(tx),
            ..m
        }
    } else {
        m
    }
}

/// The effect of a dispute: the first stored transaction carrying the id is
/// marked disputed; a disputed deposit moves its amount from available to
/// held, and a disputed withdrawal holds its amount without touching the
/// available balance. An id no stored transaction carries changes nothing.
pub open spec fn spec_dispute(m: ClientModel, tx: Transaction) -> ClientModel {
    let i = find_first(m.transactions, tx.id);
    if i == -1 {
        m
    } else {
        let t = m.transactions[i];
        let marked = m.transactions.update(i, Transaction { disputed: true, ..t });
        if t.amount is Some {
            let a = t.amount_value();
            match t.transaction_type {
                TransactionType::Deposit => ClientModel {
                    available: m.available - a,
                    held: m.held + a,
                    total: (m.held + a) + (m.available - a),
                    transactions: marked,
                    ..m
                },
                TransactionType::Withdrawal => ClientModel {
                    held: m.held + a,
                    total: (m.held + a) + m.available,
                    transactions: marked,
                    ..m
                },
                _ => ClientModel { transactions: marked, ..m },
            }
        } else {
            ClientModel { transactions: marked, ..m }
        }
    }
}

/// The effect of a resolve: a stored, currently disputed transaction with
/// the id is cleared, and its amount moves back from held to available.
/// An unknown id, or one whose transaction is not disputed, changes nothing.
pub open spec fn spec_resolve(m: ClientModel, tx: Transaction) -> ClientModel {
    let i = find_first(m.transactions, tx.id);
    if i == -1 {
        m
    } else {
        let t = m.transactions[i];
        if !t.disputed {
            m
        } else {
            let cleared = m.transactions.update(i, Transaction { disputed: false, ..t });
            if t.amount is Some {
                let a = t.amount_value();
                ClientModel {
                    available: m.available + a,
                    held: m.held - a,
                    total: (m.held - a) + (m.available + a),
                    transactions: cleared,
                    ..m
                }
            } else {
                ClientModel { transactions: cleared, ..m }
            }
        }
    }
}

/// The effect of a chargeback: a stored, currently disputed transaction with
/// the id is cleared, its amount leaves the held balance for good, and the
/// ledger is locked. An unknown id, or one whose transaction is not
/// disputed, changes nothing.
pub open spec fn spec_chargeback(m: ClientModel, tx: Transaction) -> ClientModel {
    let i = find_first(m.transactions, tx.id);
    if i == -1 {
        m
    } else {
        let t = m.transactions[i];
        if !t.disputed {
            m
        } else {
            let cleared = m.transactions.update(i, Transaction { disputed: false, ..t });
            if t.amount is Some {
                let a = t.amount_value();
                ClientModel {
                    held: m.held - a,
                    locked: true,
                    total: (m.held - a) + m.available,
                    transactions: cleared,
                    ..m
                }
            } else {
                ClientModel { transactions: cleared, ..m }
            }
        }
    }
}

/// The effect of any event, dispatched on its type.
pub open spec fn spec_apply(m: ClientModel, tx: Transaction) -> ClientModel {
    match tx.transaction_type {
        TransactionType::Deposit => spec_deposit(m, tx),
        TransactionType::Withdrawal => spec_withdraw(m, tx),
        TransactionType::Dispute => spec_dispute(m, tx),
        TransactionType::Resolve => spec_resolve(m, tx),
        TransactionType::Chargeback => spec_chargeback(m, tx),
    }
}

/// True when the balances a deposit of `tx` would write stay within `i64`.
pub open spec fn deposit_fits(m: ClientModel, tx: Transaction) -> bool {
    tx.has_positive_amount() ==> i64_fits(m.available + tx.amount_value()) && i64_fits(
        m.held + (m.available + tx.amount_value()),
    )
}

/// True when the balances a withdrawal of `tx` would write stay within `i64`.
pub open spec fn withdraw_fits(m: ClientModel, tx: Transaction) -> bool {
    tx.has_positive_amount() && m.available >= tx.amount_value() ==> i64_fits(
        m.available - tx.amount_value(),
    ) && i64_fits(m.held + (m.available - tx.amount_value()))
}

/// True when the balances a dispute of `tx` would write stay within `i64`.
pub open spec fn dispute_fits(m: ClientModel, tx: Transaction) -> bool {
    find_first(m.transactions, tx.id) >= 0 ==> dispute_target_fits(
        m,
        m.transactions[find_first(m.transactions, tx.id)],
    )
}

/// True when disputing the stored transaction `t` keeps the balances within
/// `i64`.
pub open spec fn dispute_target_fits(m: ClientModel, t: Transaction) -> bool {
    t.amount is Some ==> match t.transaction_type {
        TransactionType::Deposit => i64_fits(m.available - t.amount_value()) && i64_fits(
            m.held + t.amount_value(),
        ) && i64_fits((m.held + t.amount_value()) + (m.available - t.amount_value())),
        TransactionType::Withdrawal => i64_fits(m.held + t.amount_value()) && i64_fits(
            (m.held + t.amount_value()) + m.available,
        ),
        _ => true,
    }
}

/// True when the balances a resolve of `tx` would write stay within `i64`.
pub open spec fn resolve_fits(m: ClientModel, tx: Transaction) -> bool {
    find_first(m.transactions, tx.id) >= 0 ==> resolve_target_fits(
        m,
        m.transactions[find_first(m.transactions, tx.id)],
    )
}

/// True when resolving the stored transaction `t` keeps the balances within
/// `i64`.
pub open spec fn resolve_target_fits(m: ClientModel, t: Transaction) -> bool {
    t.disputed && t.amount is Some ==> i64_fits(m.available + t.amount_value()) && i64_fits(
        m.held - t.amount_value(),
    ) && i64_fits((m.held - t.amount_value()) + (m.available + t.amount_value()))
}

/// True when the balances a chargeback of `tx` would write stay within
/// `i64`.
pub open spec fn chargeback_fits(m: ClientModel, tx: Transaction) -> bool {
    find_first(m.transactions, tx.id) >= 0 ==> chargeback_target_fits(
        m,
        m.transactions[find_first(m.transactions, tx.id)],
    )
}

/// True when charging back the stored transaction `t` keeps the balances
/// within `i64`.
pub open spec fn chargeback_target_fits(m: ClientModel, t: Transaction) -> bool {
    t.disputed && t.amount is Some ==> i64_fits(m.held - t.amount_value()) && i64_fits(
        (m.held - t.amount_value()) + m.available,
    )
}

/// True when applying `tx` keeps every balance it writes within `i64`.
pub open spec fn apply_fits(m: ClientModel, tx: Transaction) -> bool {
    match tx.transaction_type {
        TransactionType::Deposit => deposit_fits(m, tx),
        TransactionType::Withdrawal => withdraw_fits(m, tx),
        TransactionType::Dispute => dispute_fits(m, tx),
        TransactionType::Resolve => resolve_fits(m, tx),
        TransactionType::Chargeback => chargeback_fits(m, tx),
    }
}

/// One client's balances, lock flag, and the stored deposit and withdrawal
/// history that future disputes may reference.
#[derive(Debug, PartialEq)]
pub struct Client {
    pub id: u16,
    pub available: FixedNumber,
    pub held: FixedNumber,
    pub total: FixedNumber,
    pub locked: bool,
    pub transactions: Vec<Transaction>,
}

impl View for Client {
    type V = ClientModel;

    open spec fn view(&self) -> ClientModel {
        ClientModel {
            id: self.id,
            available: self.available.value as int,
            held: self.held.value as int,
            total: self.total.value as int,
            locked: self.locked,
            transactions: self.transactions@,
        }
    }
}

impl Client {
    /// True when every amount the ledger holds carries the shared four
    /// decimal digits.
    pub open spec fn wf(self) -> bool {
        &&& self.available.wf()
        &&& self.held.wf()
        &&& self.total.wf()
        &&& forall|i: int|
            0 <= i < self.transactions@.len() ==> (#[trigger] self.transactions@[i]).wf()
    }

    /// Stores one event in the history.
    fn add_transaction(&mut self, tx: &Transaction)
        ensures
            final(self).transactions@ == old(self).transactions@.push(*tx),
            final(self).id == old(self).id,
            final(self).available == old(self).available,
            final(self).held == old(self).held,
            final(self).total == old(self).total,
            final(self).locked == old(self).locked,
    {
        self.transactions.push(*tx);
    }

    /// Recomputes the total as held plus available.
    fn calculate_total(&mut self)
        requires
            old(self).wf(),
            i64_fits(old(self).held.value + old(self).available.value),
        ensures
            final(self).total.value == old(self).held.value + old(self).available.value,
            final(self).total.wf(),
            final(self).id == old(self).id,
            final(self).available == old(self).available,
            final(self).held == old(self).held,
            final(self).locked == old(self).locked,
            final(self).transactions == old(self).transactions,
    {
        self.total = FixedNumber::add(&self.held, &self.available);
    }

    /// The index of the first stored transaction carrying `id`, if any.
    fn find_index(&self, id: u32) -> (r: Option<usize>)
        ensures
            match r {
                Some(i) => i == find_first(self.transactions@, id) && i
                    < self.transactions@.len(),
                None => find_first(self.transactions@, id) == -1,
            },
    {
        let n: usize = self.transactions.len();
        let mut k: usize = 0;
        while k < n
            invariant
                n == self.transactions@.len(),
                k <= n,
                forall|j: int| 0 <= j < k ==> self.transactions@[j].id != id,
            decreases n - k,
        {
            if self.transactions[k].id == id {
                proof {
                    lemma_find_first(self.transactions@, id);
                }
                return Some(k);
            }
            k += 1;
        }
        proof {
            lemma_find_first(self.transactions@, id);
        }
        None
    }

    /// Credits a positive amount to the available balance and stores the
    /// event; anything else is ignored.
    pub fn deposit(&mut self, tx: &Transaction)
        requires
            old(self).wf(),
            tx.wf(),
            deposit_fits(old(self)@, *tx),
        ensures
            final(self)@ == spec_deposit(old(self)@, *tx),
            final(self).wf(),
    {
        match &tx.amount {
            Some(amount) => {
                if amount.gt(0) {
                    self.available = FixedNumber::add(&self.available, amount);
                    self.add_transaction(tx);
                    self.calculate_total();
                }
            },
            None => {},
        }
        proof {
            assert(self@ =~= spec_deposit(old(self)@, *tx));
        }
    }

    /// Debits a positive amount covered by the available balance and stores
    /// the event; anything else is ignored.
    pub fn withdraw(&mut self, tx: &Transaction)
        requires
            old(self).wf(),
            tx.wf(),
            withdraw_fits(old(self)@, *tx),
        ensures
            final(self)@ == spec_withdraw(old(self)@, *tx),
            final(self).wf(),
    {
        match &tx.amount {
            Some(amount) => {
                if amount.gt(0) && self.available.gt_eq(amount) {
                    self.available = FixedNumber::subtract(&self.available, amount);
                    self.add_transaction(tx);
                    self.calculate_total();
                }
            },
            None => {},
        }
        proof {
            assert(self@ =~= spec_withdraw(old(self)@, *tx));
        }
    }

    /// Opens a dispute against the stored transaction carrying the event's
    /// id: the transaction is marked disputed, and its amount is held. An
    /// unknown id is ignored.
    pub fn dispute(&mut self, tx: &Transaction)
        requires
            old(self).wf(),
            dispute_fits(old(self)@, *tx),
        ensures
            final(self)@ == spec_dispute(old(self)@, *tx),
            final(self).wf(),
    {
        match self.find_index(tx.id) {
            None => {},
            Some(i) => {
                let mut target = self.transactions[i];
                target.mark_disputed();
                self.transactions[i] = target;
                match &target.amount {
                    Some(amount) => {
                        match target.transaction_type {
                            TransactionType::Deposit => {
                                self.available = FixedNumber::subtract(&self.available, amount);
                                self.held = FixedNumber::add(&self.held, amount);
                                self.calculate_total();
                            },
                            TransactionType::Withdrawal => {
                                self.held = FixedNumber::add(&self.held, amount);
                                self.calculate_total();
                            },
                            _ => {},
                        }
                    },
                    None => {},
                }
            },
        }
        proof {
            assert(self@ =~= spec_dispute(old(self)@, *tx));
        }
    }

    /// Closes an open dispute: the stored transaction is unmarked and its
    /// amount moves back from held to available. An unknown id, or one whose
    /// stored transaction is not disputed, is ignored.
    pub fn resolve(&mut self, tx: &Transaction)
        requires
            old(self).wf(),
            resolve_fits(old(self)@, *tx),
        ensures
            final(self)@ == spec_resolve(old(self)@, *tx),
            final(self).wf(),
    {
        match self.find_index(tx.id) {
            None => {},
            Some(i) => {
                let mut target = self.transactions[i];
                if target.disputed {
                    target.mark_resolved();
                    self.transactions[i] = target;
                    match &target.amount {
                        Some(amount) => {
                            self.available = FixedNumber::add(&self.available, amount);
                            self.held = FixedNumber::subtract(&self.held, amount);
                            self.calculate_total();
                        },
                        None => {},
                    }
                }
            },
        }
        proof {
            assert(self@ =~= spec_resolve(old(self)@, *tx));
        }
    }

    /// Settles an open dispute against the client: the stored transaction is
    /// unmarked, its amount leaves the held balance for good, and the ledger
    /// is locked. An unknown id, or one whose stored transaction is not
    /// disputed, is ignored.
    pub fn chargeback(&mut self, tx: &Transaction)
        requires
            old(self).wf(),
            chargeback_fits(old(self)@, *tx),
        ensures
            final(self)@ == spec_chargeback(old(self)@, *tx),
            final(self).wf(),
    {
        match self.find_index(tx.id) {
            None => {},
            Some(i) => {
                let mut target = self.transactions[i];
                if target.disputed {
                    target.mark_resolved();
                    self.transactions[i] = target;
                    match &target.amount {
                        Some(amount) => {
                            self.held = FixedNumber::subtract(&self.held, amount);
                            self.locked = true;
                            self.calculate_total();
                        },
                        None => {},
                    }
                }
            },
        }
        proof {
            assert(self@ =~= spec_chargeback(old(self)@, *tx));
        }
    }

    /// True when applying `tx` would keep every balance it writes within
    /// `i64`, so that the operation may be called.
    pub fn can_apply(&self, tx: &Transaction) -> (r: bool)
        ensures
            r == apply_fits(self@, *tx),
    {
        match tx.transaction_type {
            TransactionType::Deposit => {
                match &tx.amount {
                    None => true,
                    Some(a) => {
                        if !a.gt(0) {
                            true
                        } else {
                            match self.available.value.checked_add(a.value) {
                                None => false,
                                Some(av) => self.held.value.checked_add(av).is_some(),
                            }
                        }
                    },
                }
            },
            TransactionType::Withdrawal => {
                match &tx.amount {
                    None => true,
                    Some(a) => {
                        if !a.gt(0) || !self.available.gt_eq(a) {
                            true
                        } else {
                            self.held.value.checked_add(self.available.value - a.value).is_some()
                        }
                    },
                }
            },
            TransactionType::Dispute => {
                match self.find_index(tx.id) {
                    None => true,
                    Some(i) => {
                        let t = self.transactions[i];
                        match &t.amount {
                            None => true,
                            Some(a) => {
                                match t.transaction_type {
                                    TransactionType::Deposit => {
                                        match (
                                            self.available.value.checked_sub(a.value),
                                            self.held.value.checked_add(a.value),
                                        ) {
                                            (Some(av), Some(hv)) => hv.checked_add(av).is_some(),
                                            _ => false,
                                        }
                                    },
                                    TransactionType::Withdrawal => {
                                        match self.held.value.checked_add(a.value) {
                                            None => false,
                                            Some(hv) => hv.checked_add(
                                                self.available.value,
                                            ).is_some(),
                                        }
                                    },
                                    _ => true,
                                }
                            },
                        }
                    },
                }
            },
            TransactionType::Resolve => {
                match self.find_index(tx.id) {
                    None => true,
                    Some(i) => {
                        let t = self.transactions[i];
                        if !t.disputed {
                            true
                        } else {
                            match &t.amount {
                                None => true,
                                Some(a) => {
                                    match (
                                        self.available.value.checked_add(a.value),
                                        self.held.value.checked_sub(a.value),
                                    ) {
                                        (Some(av), Some(hv)) => hv.checked_add(av).is_some(),
                                        _ => false,
                                    }
                                },
                            }
                        }
                    },
                }
            },
            TransactionType::Chargeback => {
                match self.find_index(tx.id) {
                    None => true,
                    Some(i) => {
                        let t = self.transactions[i];
                        if !t.disputed {
                            true
                        } else {
                            match &t.amount {
                                None => true,
                                Some(a) => {
                                    match self.held.value.checked_sub(a.value) {
                                        None => false,
                                        Some(hv) => hv.checked_add(self.available.value).is_some(),
                                    }
                                },
                            }
                        }
                    },
                }
            },
        }
    }
}

/// A client ledger seen for the first time: zeroed balances, unlocked,
/// empty history.
pub fn create_client(id: u16) -> (c: Client)
    ensures
        c@ == fresh_client(id),
        c.wf(),
{
    let c = Client {
        id,
        available: FixedNumber::new(),
        held: FixedNumber::new(),
        total: FixedNumber::new(),
        locked: false,
        transactions: Vec::new(),
    };
    proof {
        assert(c@ =~= fresh_client(id));
    }
    c
}

/// Law: every operation keeps the ledger balanced — the total equals the
/// available part plus the held part.
pub proof fn lemma_apply_balanced(m: ClientModel, tx: Transaction)
    requires
        m.balanced(),
    ensures
        spec_apply(m, tx).balanced(),
{
}

/// Law: the lock flag is monotonic — no operation ever clears it.
pub proof fn lemma_apply_locked_monotonic(m: ClientModel, tx: Transaction)
    ensures
        m.locked ==> spec_apply(m, tx).locked,
{
}

/// Law: a stored transaction's dispute flag is raised only by a dispute
/// event that names its id, and only on the first stored transaction that
/// carries the id.
pub proof fn lemma_disputed_raised_only_by_dispute(m: ClientModel, tx: Transaction, i: int)
    requires
        0 <= i < m.transactions.len(),
        !m.transactions[i].disputed,
        spec_apply(m, tx).transactions[i].disputed,
    ensures
        tx.transaction_type == TransactionType::Dispute,
        m.transactions[i].id == tx.id,
        i == find_first(m.transactions, tx.id),
{
    lemma_find_first(m.transactions, tx.id);
}

/// Law: an open dispute on a stored transaction is closed only by a resolve
/// or a chargeback that names its id.
pub proof fn lemma_disputed_cleared_only_by_resolution(m: ClientModel, tx: Transaction, i: int)
    requires
        0 <= i < m.transactions.len(),
        m.transactions[i].disputed,
        !spec_apply(m, tx).transactions[i].disputed,
    ensures
        tx.transaction_type == TransactionType::Resolve || tx.transaction_type
            == TransactionType::Chargeback,
        m.transactions[i].id == tx.id,
{
    lemma_find_first(m.transactions, tx.id);
}

/// Law: an event that is not itself marked disputed enters the history with
/// the flag down, so a fresh deposit or withdrawal is stored undisputed.
pub proof fn lemma_appended_entry_undisputed(m: ClientModel, tx: Transaction)
    requires
        !tx.disputed,
    ensures
        forall|j: int|
            m.transactions.len() <= j < spec_apply(m, tx).transactions.len()
                ==> !spec_apply(m, tx).transactions[j].disputed,
{
    lemma_find_first(m.transactions, tx.id);
    let n = spec_apply(m, tx).transactions;
    assert forall|j: int| m.transactions.len() <= j < n.len() implies !n[j].disputed by {
        assert(n[j] == tx);
    }
}

} // verus!
