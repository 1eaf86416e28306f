use vstd::prelude::*;

verus! {

/// One recorded change of the balance.
///
/// `amount` is given in minor currency units; the direction is carried by
/// `is_withdrawal`, not by the sign of the amount.
#[derive(Clone, Debug, PartialEq)]
pub struct Transaction {
    pub is_withdrawal: bool,
    pub amount: i64,
    pub message: Option<String>,
}

/// The change that a transaction makes to the balance.
pub open spec fn delta(t: Transaction) -> int {
    if t.is_withdrawal {
        -(t.amount as int)
    } else {
        t.amount as int
    }
}

/// The balance reached after applying `ts` in order, starting from zero.
pub open spec fn sum_of(ts: Seq<Transaction>) -> int
    decreases ts.len(),
{
    if ts.len() == 0 {
        0
    } else {
        sum_of(ts.drop_last()) + delta(ts.last())
    }
}

/// A message taken as its characters.
pub open spec fn message_view(m: Option<String>) -> Option<Seq<char>> {
    match m {
        Some(s) => Some(s@),
        None => None,
    }
}

/// A transaction as plain values: direction, amount and message text.
pub open spec fn tx_view(t: Transaction) -> (bool, i64, Option<Seq<char>>) {
    (t.is_withdrawal, t.amount, message_view(t.message))
}

/// A history as plain values, oldest first.
pub open spec fn history_view(h: Seq<Transaction>) -> Seq<(bool, i64, Option<Seq<char>>)> {
    h.map_values(|t: Transaction| tx_view(t))
}

/// Histories that agree on every direction and amount have the same sum.
pub proof fn lemma_sum_same_moves(x: Seq<Transaction>, y: Seq<Transaction>)
    requires
        x.len() == y.len(),
        forall|i: int|
            0 <= i < x.len() ==> (#[trigger] x[i]).is_withdrawal == y[i].is_withdrawal
                && x[i].amount == y[i].amount,
    ensures
        sum_of(x) == sum_of(y),
    decreases x.len(),
{
    if x.len() > 0 {
        lemma_sum_same_moves(x.drop_last(), y.drop_last());
    }
}

pub open spec fn fits_i64(x: int) -> bool {
    i64::MIN <= x <= i64::MAX
}

/// Every running balance along `ts` (including the empty start) fits in an `i64`.
pub open spec fn prefixes_fit(ts: Seq<Transaction>) -> bool {
    forall|k: int| 0 <= k <= ts.len() ==> fits_i64(#[trigger] sum_of(ts.take(k)))
}

/// Why a ledger operation was refused.
#[derive(Clone, Copy, Debug, PartialEq, Eq, Structural)]
pub enum LedgerError {
    /// The new balance would not fit in the balance's integer type.
    Overflow,
}

/// What the engine reports after one operation, for the caller to display
/// and, where `recorded` is set, to persist.
#[derive(Clone, Debug, PartialEq)]
pub struct Applied {
    pub balance: i64,
    pub amount: i64,
    pub message: Option<String>,
    pub recorded: bool,
}

/// One line of the annotated history: the 1-based position, the
/// transaction's fields, and the running balance after it.
#[derive(Clone, Debug, PartialEq)]
pub struct ReplayEntry {
    pub index: usize,
    pub is_withdrawal: bool,
    pub amount: i64,
    pub message: Option<String>,
    pub balance: i64,
}

/// `e` is the annotated form of the `i`-th transaction of `h`.
pub open spec fn replays_at(h: Seq<Transaction>, i: int, e: ReplayEntry) -> bool {
    &&& e.index == i + 1
    &&& e.is_withdrawal == h[i].is_withdrawal
    &&& e.amount == h[i].amount
    &&& e.message == h[i].message
    &&& e.balance == sum_of(h.take(i + 1))
}

/// `r` is the annotated history of `h`: one entry per transaction, in order.
pub open spec fn is_replay_of(h: Seq<Transaction>, r: Seq<ReplayEntry>) -> bool {
    &&& r.len() == h.len()
    &&& forall|i: int| 0 <= i < h.len() ==> #[trigger] replays_at(h, i, r[i])
}

/// Appending one transaction adds its change to the sum.
pub proof fn lemma_sum_push(h: Seq<Transaction>, t: Transaction)
    ensures
        sum_of(h.push(t)) == sum_of(h) + delta(t),
{
    assert(h.push(t).drop_last() =~= h);
}

/// The sum over `k + 1` leading transactions extends the sum over `k`.
pub proof fn lemma_sum_take_step(h: Seq<Transaction>, k: int)
    requires
        0 <= k < h.len(),
    ensures
        sum_of(h.take(k + 1)) == sum_of(h.take(k)) + delta(h[k]),
{
    assert(h.take(k + 1).drop_last() =~= h.take(k));
}

pub(crate) fn copy_message(m: &Option<String>) -> (r: Option<String>)
    ensures
        r == *m,
{
    match m {
        Some(s) => Some(s.clone()),
        None => None,
    }
}

/// The persisted state of one user: the balance and the chronological history.
pub struct FigData {
    current_balance: i64,
    transactions: Vec<Transaction>,
}

impl FigData {
    /// The stored balance.
    pub closed spec fn balance_of(&self) -> int {
        self.current_balance as int
    }

    /// The stored history, oldest first.
    pub closed spec fn history(&self) -> Seq<Transaction> {
        self.transactions@
    }

    /// The balance is the signed sum of the history, and every running
    /// balance along the history is representable.
    pub open spec fn wf(&self) -> bool {
        &&& self.balance_of() == sum_of(self.history())
        &&& prefixes_fit(self.history())
    }

    /// A ledger with balance zero and no history.
    pub fn new() -> (r: FigData)
        ensures
            r.wf(),
            r.balance_of() == 0,
            r.history() == Seq::<Transaction>::empty(),
    {
        let r = FigData { current_balance: 0, transactions: Vec::new() };
        assert forall|k: int| 0 <= k <= r.history().len() implies fits_i64(
            #[trigger] sum_of(r.history().take(k)),
        ) by {
            assert(r.history().take(k) =~= Seq::<Transaction>::empty());
        }
        r
    }

    pub fn get_balance(&self) -> (r: i64)
        ensures
            r == self.balance_of(),
    {
        self.current_balance
    }

    pub fn get_transactions(&self) -> (r: &Vec<Transaction>)
        ensures
            r@ == self.history(),
    {
        &self.transactions
    }

    /// Appends a transaction and moves the balance by its signed amount.
    /// Refused, with the ledger unchanged, when the new balance would not
    /// fit in an `i64`.
    pub fn add_transaction(&mut self, sub: bool, amt: i64, msg: Option<String>) -> (r: Result<
        i64,
        LedgerError,
    >)
        requires
            old(self).wf(),
        ensures
            final(self).wf(),
            ({
                let t = Transaction { is_withdrawal: sub, amount: amt, message: msg };
                let nb = old(self).balance_of() + delta(t);
                if fits_i64(nb) {
                    &&& r == Ok::<i64, LedgerError>(nb as i64)
                    &&& final(self).balance_of() == nb
                    &&& final(self).history() == old(self).history().push(t)
                } else {
                    &&& r == Err::<i64, LedgerError>(LedgerError::Overflow)
                    &&& *final(self) == *old(self)
                }
            }),
    {
        let ghost t = Transaction { is_withdrawal: sub, amount: amt, message: msg };
        let change: i128 = if sub {
            -(amt as i128)
        } else {
            amt as i128
        };
        let nb: i128 = self.current_balance as i128 + change;
        if nb < i64::MIN as i128 || nb > i64::MAX as i128 {
            return Err(LedgerError::Overflow);
        }
        let ghost h = self.transactions@;
        self.transactions.push(Transaction { is_withdrawal: sub, amount: amt, message: msg });
        self.current_balance = nb as i64;
        proof {
            lemma_sum_push(h, t);
            assert(self.transactions@ == h.push(t));
            assert forall|k: int| 0 <= k <= h.len() + 1 implies fits_i64(
                #[trigger] sum_of(h.push(t).take(k)),
            ) by {
                if k <= h.len() {
                    assert(h.push(t).take(k) =~= h.take(k));
                } else {
                    assert(h.push(t).take(k) =~= h.push(t));
                }
            }
        }
        Ok(nb as i64)
    }

    /// Applies one signed operation. A zero amount changes nothing and is
    /// not recorded; any other amount is appended to the history and moves
    /// the balance. `recorded` tells whether the ledger must be saved.
    pub fn apply(&mut self, amount: i64, is_withdrawal: bool, message: Option<String>) -> (r:
        Result<Applied, LedgerError>)
        requires
            old(self).wf(),
        ensures
            final(self).wf(),
            amount == 0 ==> {
                &&& *final(self) == *old(self)
                &&& r == Ok::<Applied, LedgerError>(
                    Applied { balance: old(self).balance_of() as i64, amount, message, recorded: false },
                )
            },
            amount != 0 ==> ({
                let t = Transaction { is_withdrawal, amount, message };
                let nb = old(self).balance_of() + delta(t);
                if fits_i64(nb) {
                    &&& r == Ok::<Applied, LedgerError>(
                        Applied { balance: nb as i64, amount, message, recorded: true },
                    )
                    &&& final(self).balance_of() == nb
                    &&& final(self).history() == old(self).history().push(t)
                } else {
                    &&& r == Err::<Applied, LedgerError>(LedgerError::Overflow)
                    &&& *final(self) == *old(self)
                }
            }),
    {
        if amount == 0 {
            return Ok(Applied { balance: self.current_balance, amount, message, recorded: false });
        }
        let shown = copy_message(&message);
        match self.add_transaction(is_withdrawal, amount, message) {
            Ok(balance) => Ok(Applied { balance, amount, message: shown, recorded: true }),
            Err(e) => Err(e),
        }
    }

    /// The history annotated with positions and running balances, starting
    /// from zero rather than from the stored balance. Does not change the
    /// ledger, so it gives the same entries each time it is called.
    pub fn replay(&self) -> (r: Vec<ReplayEntry>)
        requires
            self.wf(),
        ensures
            is_replay_of(self.history(), r@),
    {
        let ghost h = self.transactions@;
        let mut out: Vec<ReplayEntry> = Vec::new();
        let mut running: i64 = 0;
        let n = self.transactions.len();
        let mut i: usize = 0;
        proof {
            assert(h.take(0) =~= Seq::<Transaction>::empty());
        }
        while i < n
            invariant
                h == self.transactions@,
                n == h.len(),
                self.wf(),
                0 <= i <= n,
                running == sum_of(h.take(i as int)),
                out@.len() == i,
                forall|j: int| 0 <= j < i ==> #[trigger] replays_at(h, j, out@[j]),
            decreases n - i,
        {
            let t = &self.transactions[i];
            proof {
                lemma_sum_take_step(h, i as int);
                assert(fits_i64(sum_of(h.take(i + 1))));
            }
            let change: i128 = if t.is_withdrawal {
                -(t.amount as i128)
            } else {
                t.amount as i128
            };
            running = (running as i128 + change) as i64;
            out.push(
                ReplayEntry {
                    index: i + 1,
                    is_withdrawal: t.is_withdrawal,
                    amount: t.amount,
                    message: copy_message(&t.message),
                    balance: running,
                },
            );
            i = i + 1;
        }
        out
    }
}

/// A well-formed ledger's balance is the signed sum of its history:
/// additions count up, withdrawals count down.
pub proof fn lemma_balance_is_signed_sum(l: FigData)
    requires
        l.wf(),
    ensures
        l.balance_of() == sum_of(l.history()),
{
}

/// The annotated history is determined by the stored history alone, so two
/// replays of an unchanged ledger give identical entries.
pub proof fn lemma_replay_deterministic(h: Seq<Transaction>, a: Seq<ReplayEntry>, b: Seq<
    ReplayEntry,
>)
    requires
        is_replay_of(h, a),
        is_replay_of(h, b),
    ensures
        a == b,
{
    assert forall|i: int| 0 <= i < a.len() implies a[i] == b[i] by {
        assert(replays_at(h, i, a[i]));
        assert(replays_at(h, i, b[i]));
    }
    assert(a =~= b);
}

} // verus!
