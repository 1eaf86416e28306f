use vstd::prelude::*;
use crate::config::FigSaveType;
use crate::ledger::{
    FigData, Transaction, copy_message, history_view, lemma_sum_same_moves, message_view, sum_of,
    prefixes_fit,
};

verus! {

/// The flat schema in which a ledger is written to disk, shared by both
/// encodings: the balance and one column per transaction field.
#[derive(Clone, Debug, PartialEq)]
pub struct LedgerRecord {
    pub current_balance: i64,
    pub sub: Vec<bool>,
    pub amt: Vec<i64>,
    pub msg: Vec<Option<String>>,
}

/// Why a stored record was not accepted as a ledger.
#[derive(Clone, Copy, Debug, PartialEq, Eq, Structural)]
pub enum LoadError {
    /// The columns of the record differ in length.
    Mismatched,
    /// The bytes are not a ledger record in the binary encoding.
    Undecodable,
    /// The stored balance is not the signed sum of the history, or a running
    /// balance along the history does not fit in an `i64`.
    Unbalanced,
}

/// The transactions that the columns of `rec` describe, row by row.
pub open spec fn rows_of(rec: LedgerRecord) -> Seq<Transaction> {
    Seq::new(
        rec.sub@.len(),
        |i: int| Transaction { is_withdrawal: rec.sub@[i], amount: rec.amt@[i], message: rec.msg@[i] },
    )
}

pub open spec fn columns_match(rec: LedgerRecord) -> bool {
    rec.sub@.len() == rec.amt@.len() && rec.sub@.len() == rec.msg@.len()
}

/// `rec` describes a well-formed ledger.
pub open spec fn record_ok(rec: LedgerRecord) -> bool {
    &&& columns_match(rec)
    &&& prefixes_fit(rows_of(rec))
    &&& rec.current_balance == sum_of(rows_of(rec))
}

/// The messages column with each message taken as its characters.
pub open spec fn message_chars(ms: Seq<Option<String>>) -> Seq<Option<Seq<char>>> {
    ms.map_values(|m: Option<String>| message_view(m))
}

/// The bytes of a ledger in the binary encoding: bincode's encoding of its
/// balance and of its history's columns.
pub open spec fn ledger_bytes(l: FigData) -> Seq<u8> {
    bincode_of(
        l.balance_of() as i64,
        l.history().map_values(|t: Transaction| t.is_withdrawal),
        l.history().map_values(|t: Transaction| t.amount),
        l.history().map_values(|t: Transaction| message_view(t.message)),
    )
}

/// The bytes that bincode's default configuration writes for the tuple
/// (balance, withdrawal flags, amounts, messages).
pub uninterp spec fn bincode_of(
    balance: i64,
    sub: Seq<bool>,
    amt: Seq<i64>,
    msg: Seq<Option<Seq<char>>>,
) -> Seq<u8>;

/// Relies on `bincode::serialize` (default configuration) to encode the
/// record's fields as one tuple.
/// Serializing these std types into a `Vec` with the default, unlimited
/// configuration does not fail.
#[verifier::external_body]
fn bincode_encode(rec: &LedgerRecord) -> (r: Option<Vec<u8>>)
    ensures
        r is Some,
        r matches Some(b) ==> b@ == bincode_of(
            rec.current_balance,
            rec.sub@,
            rec.amt@,
            message_chars(rec.msg@),
        ),
{
    bincode::serialize(&(rec.current_balance, &rec.sub, &rec.amt, &rec.msg)).ok()
}

/// Relies on `bincode::deserialize` (default configuration) to read the
/// tuple back; `None` where bincode reports an error. Bytes that
/// `bincode::serialize` wrote for a tuple decode to that tuple.
#[verifier::external_body]
fn bincode_decode(bytes: &[u8]) -> (r: Option<LedgerRecord>)
    ensures
        forall|b: i64, s: Seq<bool>, a: Seq<i64>, m: Seq<Option<Seq<char>>>|
            bytes@ == #[trigger] bincode_of(b, s, a, m) ==> {
                &&& r is Some
                &&& r->Some_0.current_balance == b
                &&& r->Some_0.sub@ == s
                &&& r->Some_0.amt@ == a
                &&& message_chars(r->Some_0.msg@) == m
            },
{
    match bincode::deserialize::<(i64, Vec<bool>, Vec<i64>, Vec<Option<String>>)>(bytes) {
        Ok((current_balance, sub, amt, msg)) => Some(LedgerRecord { current_balance, sub, amt, msg }),
        Err(_) => None,
    }
}

/// `rec` holds exactly the balance and history of `l`.
pub open spec fn is_record_of(l: FigData, rec: LedgerRecord) -> bool {
    &&& columns_match(rec)
    &&& rec.current_balance == l.balance_of()
    &&& rows_of(rec) == l.history()
}

/// The name of the data file for an encoding.
pub open spec fn data_file_name_spec(t: FigSaveType) -> Seq<char> {
    match t {
        FigSaveType::Bin => "data"@,
        FigSaveType::Xml => "data.xml"@,
    }
}

/// The decode error message of a structured-text file written before the
/// history columns existed.
pub open spec fn is_missing_history(message: Seq<char>) -> bool {
    ||| message == "missing field `sub`"@
    ||| message == "missing field `amt`"@
}

/// The two encodings live in differently named files, so switching the
/// encoding starts from a separate ledger.
pub fn data_file_name(t: FigSaveType) -> (r: &'static str)
    ensures
        r@ == data_file_name_spec(t),
{
    match t {
        FigSaveType::Bin => "data",
        FigSaveType::Xml => "data.xml",
    }
}

impl FigData {
    /// The record that is written to disk for this ledger.
    pub fn to_record(&self) -> (r: LedgerRecord)
        ensures
            is_record_of(*self, r),
    {
        let ts = self.get_transactions();
        let mut sub: Vec<bool> = Vec::new();
        let mut amt: Vec<i64> = Vec::new();
        let mut msg: Vec<Option<String>> = Vec::new();
        let mut i: usize = 0;
        while i < ts.len()
            invariant
                ts@ == self.history(),
                0 <= i <= ts@.len(),
                sub@.len() == i,
                amt@.len() == i,
                msg@.len() == i,
                forall|j: int|
                    0 <= j < i ==> {
                        &&& sub@[j] == (#[trigger] ts@[j]).is_withdrawal
                        &&& amt@[j] == ts@[j].amount
                        &&& msg@[j] == ts@[j].message
                    },
            decreases ts@.len() - i,
        {
            sub.push(ts[i].is_withdrawal);
            amt.push(ts[i].amount);
            msg.push(copy_message(&ts[i].message));
            i = i + 1;
        }
        let r = LedgerRecord { current_balance: self.get_balance(), sub, amt, msg };
        assert(rows_of(r) =~= self.history());
        r
    }

    /// Rebuilds a ledger from a stored record, accepting it only where it
    /// describes a well-formed ledger.
    pub fn from_record(rec: LedgerRecord) -> (r: Result<FigData, LoadError>)
        ensures
            match r {
                Ok(l) => {
                    &&& record_ok(rec)
                    &&& l.wf()
                    &&& is_record_of(l, rec)
                },
                Err(e) => {
                    &&& !record_ok(rec)
                    &&& (e == LoadError::Mismatched <==> !columns_match(rec))
                },
            },
    {
        let n = rec.sub.len();
        if rec.amt.len() != n || rec.msg.len() != n {
            return Err(LoadError::Mismatched);
        }
        let ghost rows = rows_of(rec);
        let LedgerRecord { current_balance, sub, amt, msg } = rec;
        let mut l = FigData::new();
        let mut msgs = msg;
        let mut k: usize = n;
        let mut rest: Vec<Option<String>> = Vec::new();
        // Messages are moved out back to front, then consumed front to back.
        while k > 0
            invariant
                msgs@ == rec.msg@.take(k as int),
                k <= n,
                n == rec.msg@.len(),
                rest@.len() == n - k,
                forall|j: int| 0 <= j < n - k ==> #[trigger] rest@[j] == rec.msg@[n - 1 - j],
            decreases k,
        {
            let m = msgs.pop().unwrap();
            rest.push(m);
            k = k - 1;
            assert(msgs@ =~= rec.msg@.take(k as int));
        }
        let mut i: usize = 0;
        while i < n
            invariant
                rows == rows_of(rec),
                sub@ == rec.sub@,
                amt@ == rec.amt@,
                n == rec.sub@.len(),
                n == rec.amt@.len(),
                n == rec.msg@.len(),
                0 <= i <= n,
                rest@.len() == n - i,
                forall|j: int| 0 <= j < n - i ==> #[trigger] rest@[j] == rec.msg@[n - 1 - j],
                l.wf(),
                l.history() == rows.take(i as int),
                prefixes_fit(rows.take(i as int)),
            decreases n - i,
        {
            let m = rest.pop().unwrap();
            proof {
                assert(m == rec.msg@[i as int]);
            }
            let ghost before = l;
            match l.add_transaction(sub[i], amt[i], m) {
                Ok(_) => {},
                Err(_) => {
                    proof {
                        assert(rows.take(i + 1) =~= before.history().push(rows[i as int]));
                        crate::ledger::lemma_sum_push(before.history(), rows[i as int]);
                    }
                    return Err(LoadError::Unbalanced);
                },
            }
            proof {
                assert(l.history() =~= rows.take(i + 1));
            }
            i = i + 1;
        }
        proof {
            assert(rows.take(n as int) =~= rows);
        }
        if l.get_balance() != current_balance {
            return Err(LoadError::Unbalanced);
        }
        Ok(l)
    }

    /// The ledger in the binary encoding: its record, written by bincode.
    pub fn encode_bin(&self) -> (r: Vec<u8>)
        ensures
            r@ == ledger_bytes(*self),
    {
        let rec = self.to_record();
        let r = bincode_encode(&rec).unwrap();
        proof {
            let h = self.history();
            assert(rec.sub@ =~= h.map_values(|t: Transaction| t.is_withdrawal));
            assert(rec.amt@ =~= h.map_values(|t: Transaction| t.amount));
            assert(message_chars(rec.msg@) =~= h.map_values(
                |t: Transaction| message_view(t.message),
            ));
        }
        r
    }

    /// Reads a ledger from bytes in the binary encoding. The bytes must
    /// decode to a record, and the record must describe a well-formed
    /// ledger (see `from_record`). The bytes of a well-formed ledger give
    /// back its balance and history.
    pub fn decode_bin(bytes: &[u8]) -> (r: Result<FigData, LoadError>)
        ensures
            r matches Ok(l) ==> l.wf() && exists|rec: LedgerRecord|
                record_ok(rec) && is_record_of(l, rec),
            forall|l0: FigData|
                l0.wf() && bytes@ == #[trigger] ledger_bytes(l0) ==> {
                    &&& r is Ok
                    &&& r->Ok_0.balance_of() == l0.balance_of()
                    &&& history_view(r->Ok_0.history()) == history_view(l0.history())
                },
    {
        let d = bincode_decode(bytes);
        match d {
            Some(rec) => {
                let ghost rec0 = rec;
                let r = FigData::from_record(rec);
                proof {
                    assert forall|l0: FigData|
                        l0.wf() && bytes@ == #[trigger] ledger_bytes(l0) implies {
                        &&& r is Ok
                        &&& r->Ok_0.balance_of() == l0.balance_of()
                        &&& history_view(r->Ok_0.history()) == history_view(l0.history())
                    } by {
                        let h = l0.history();
                        assert(bytes@ == bincode_of(
                            l0.balance_of() as i64,
                            h.map_values(|t: Transaction| t.is_withdrawal),
                            h.map_values(|t: Transaction| t.amount),
                            h.map_values(|t: Transaction| message_view(t.message)),
                        ));
                        assert(h.take(h.len() as int) =~= h);
                        assert(crate::ledger::fits_i64(sum_of(h.take(h.len() as int))));
                        lemma_decoded_ledger(l0, rec0);
                    }
                }
                r
            },
            None => {
                proof {
                    assert forall|l0: FigData| l0.wf() && bytes@ == #[trigger] ledger_bytes(
                        l0,
                    ) implies false by {
                        let h = l0.history();
                        assert(bytes@ == bincode_of(
                            l0.balance_of() as i64,
                            h.map_values(|t: Transaction| t.is_withdrawal),
                            h.map_values(|t: Transaction| t.amount),
                            h.map_values(|t: Transaction| message_view(t.message)),
                        ));
                    }
                }
                Err(LoadError::Undecodable)
            },
        }
    }

    /// The ledger that an old structured-text file stands for, chosen by the
    /// decoder's message: a file without the history columns is read as a
    /// fresh ledger (balance zero, no history). Any other message is no such
    /// file, and `None` is returned.
    pub fn recover_missing_history(message: &String) -> (r: Option<FigData>)
        ensures
            r.is_some() <==> is_missing_history(message@),
            r matches Some(l) ==> l.wf() && l.balance_of() == 0 && l.history().len() == 0,
    {
        if *message == "missing field `sub`".to_owned() || *message
            == "missing field `amt`".to_owned() {
            Some(FigData::new())
        } else {
            None
        }
    }
}

/// A record whose columns carry the directions, amounts and message texts of
/// a well-formed ledger is accepted, and describes that ledger.
proof fn lemma_decoded_ledger(l0: FigData, rec: LedgerRecord)
    requires
        l0.wf(),
        rec.current_balance == l0.balance_of(),
        rec.sub@ == l0.history().map_values(|t: Transaction| t.is_withdrawal),
        rec.amt@ == l0.history().map_values(|t: Transaction| t.amount),
        message_chars(rec.msg@) == l0.history().map_values(
            |t: Transaction| message_view(t.message),
        ),
    ensures
        record_ok(rec),
        history_view(rows_of(rec)) == history_view(l0.history()),
{
    let h = l0.history();
    let rows = rows_of(rec);
    assert(rec.msg@.len() == message_chars(rec.msg@).len());
    assert forall|i: int| 0 <= i < h.len() implies (#[trigger] rows[i]).is_withdrawal
        == h[i].is_withdrawal && rows[i].amount == h[i].amount && message_view(rows[i].message)
        == message_view(h[i].message) by {
        assert(rec.sub@[i] == h.map_values(|t: Transaction| t.is_withdrawal)[i]);
        assert(rec.amt@[i] == h.map_values(|t: Transaction| t.amount)[i]);
        assert(message_chars(rec.msg@)[i] == message_view(rec.msg@[i]));
    }
    lemma_sum_same_moves(rows, h);
    assert forall|k: int| 0 <= k <= rows.len() implies crate::ledger::fits_i64(
        #[trigger] sum_of(rows.take(k)),
    ) by {
        lemma_sum_same_moves(rows.take(k), h.take(k));
        assert(crate::ledger::fits_i64(sum_of(h.take(k))));
    }
    assert(history_view(rows) =~= history_view(h));
}

/// Writing a well-formed ledger to its record and reading that record back
/// is accepted and gives back the same balance and history.
pub proof fn lemma_record_round_trip(l: FigData, rec: LedgerRecord)
    requires
        l.wf(),
        is_record_of(l, rec),
    ensures
        record_ok(rec),
        forall|back: FigData| is_record_of(back, rec) ==> back.balance_of() == l.balance_of()
            && back.history() == l.history(),
{
}

} // verus!
