use fig::config::{FigConfig, FigSaveType};
use fig::ledger::{Applied, FigData, LedgerError, ReplayEntry, Transaction};
use fig::store::{data_file_name, LedgerRecord, LoadError};

fn tx(is_withdrawal: bool, amount: i64, message: Option<&str>) -> Transaction {
    Transaction { is_withdrawal, amount, message: message.map(|m| m.to_string()) }
}

fn scenario_c() -> FigData {
    let mut l = FigData::new();
    l.apply(5000, false, None).unwrap();
    l.apply(2000, true, Some("rent".to_string())).unwrap();
    l
}

#[test]
fn fresh_ledger_is_empty() {
    let l = FigData::new();
    assert_eq!(l.get_balance(), 0);
    assert!(l.get_transactions().is_empty());
    assert!(l.replay().is_empty());
}

#[test]
fn first_addition() {
    let mut l = FigData::new();
    let r = l.apply(5000, false, None).unwrap();
    assert_eq!(r, Applied { balance: 5000, amount: 5000, message: None, recorded: true });
    assert_eq!(l.get_balance(), 5000);
    assert_eq!(l.get_transactions(), &vec![tx(false, 5000, None)]);
}

#[test]
fn withdrawal_with_message() {
    let mut l = FigData::new();
    l.apply(5000, false, None).unwrap();
    let r = l.apply(2000, true, Some("rent".to_string())).unwrap();
    assert_eq!(r.balance, 3000);
    assert_eq!(r.message, Some("rent".to_string()));
    assert!(r.recorded);
    assert_eq!(l.get_balance(), 3000);
    assert_eq!(
        l.get_transactions(),
        &vec![tx(false, 5000, None), tx(true, 2000, Some("rent"))]
    );
}

#[test]
fn replay_annotates_running_balance() {
    let l = scenario_c();
    let r = l.replay();
    assert_eq!(
        r,
        vec![
            ReplayEntry { index: 1, is_withdrawal: false, amount: 5000, message: None, balance: 5000 },
            ReplayEntry {
                index: 2,
                is_withdrawal: true,
                amount: 2000,
                message: Some("rent".to_string()),
                balance: 3000,
            },
        ]
    );
}

#[test]
fn replay_twice_is_identical() {
    let l = scenario_c();
    assert_eq!(l.replay(), l.replay());
}

#[test]
fn replay_starts_from_zero_and_goes_negative() {
    let mut l = FigData::new();
    l.apply(700, true, None).unwrap();
    l.apply(200, false, Some(String::new())).unwrap();
    let r = l.replay();
    assert_eq!(r[0].balance, -700);
    assert_eq!(r[1].balance, -500);
    assert_eq!(r[1].message, Some(String::new()));
}

#[test]
fn zero_amount_is_not_recorded() {
    let mut l = scenario_c();
    let r = l.apply(0, true, Some("nothing".to_string())).unwrap();
    assert_eq!(
        r,
        Applied { balance: 3000, amount: 0, message: Some("nothing".to_string()), recorded: false }
    );
    assert_eq!(l.get_balance(), 3000);
    assert_eq!(l.get_transactions().len(), 2);
}

#[test]
fn balance_is_signed_sum() {
    let mut l = FigData::new();
    let moves = [(false, 120), (true, 45), (false, 3), (true, 200), (false, 1)];
    for (w, a) in moves {
        l.apply(a, w, None).unwrap();
    }
    let sum: i64 = l
        .get_transactions()
        .iter()
        .map(|t| if t.is_withdrawal { -t.amount } else { t.amount })
        .sum();
    assert_eq!(l.get_balance(), sum);
    assert_eq!(l.get_balance(), -121);
}

#[test]
fn overflow_is_refused_and_changes_nothing() {
    let mut l = FigData::new();
    l.apply(i64::MAX, false, None).unwrap();
    assert_eq!(l.apply(1, false, None), Err(LedgerError::Overflow));
    assert_eq!(l.get_balance(), i64::MAX);
    assert_eq!(l.get_transactions().len(), 1);
    assert_eq!(l.add_transaction(true, i64::MIN, None), Err(LedgerError::Overflow));
    assert_eq!(l.apply(i64::MAX, true, None).unwrap().balance, 0);
}

#[test]
fn add_transaction_records_zero_too() {
    let mut l = FigData::new();
    assert_eq!(l.add_transaction(false, 0, None), Ok(0));
    assert_eq!(l.get_transactions().len(), 1);
}

#[test]
fn record_round_trip() {
    let l = scenario_c();
    let rec = l.to_record();
    assert_eq!(
        rec,
        LedgerRecord {
            current_balance: 3000,
            sub: vec![false, true],
            amt: vec![5000, 2000],
            msg: vec![None, Some("rent".to_string())],
        }
    );
    let back = FigData::from_record(rec).unwrap();
    assert_eq!(back.get_balance(), 3000);
    assert_eq!(back.get_transactions(), l.get_transactions());
}

#[test]
fn record_round_trip_empty_and_many() {
    let e = FigData::from_record(FigData::new().to_record()).unwrap();
    assert_eq!(e.get_balance(), 0);
    assert!(e.get_transactions().is_empty());
    let mut l = FigData::new();
    for i in 1..200i64 {
        l.apply(i, i % 3 == 0, if i % 2 == 0 { Some(format!("n{i}")) } else { None }).unwrap();
    }
    let back = FigData::from_record(l.to_record()).unwrap();
    assert_eq!(back.get_balance(), l.get_balance());
    assert_eq!(back.get_transactions(), l.get_transactions());
}

#[test]
fn record_with_mismatched_columns() {
    let rec = LedgerRecord { current_balance: 5, sub: vec![false], amt: vec![], msg: vec![None] };
    assert_eq!(FigData::from_record(rec).err(), Some(LoadError::Mismatched));
}

#[test]
fn record_with_wrong_balance() {
    let rec = LedgerRecord { current_balance: 4, sub: vec![false], amt: vec![5], msg: vec![None] };
    assert_eq!(FigData::from_record(rec).err(), Some(LoadError::Unbalanced));
}

#[test]
fn record_with_unrepresentable_running_balance() {
    let rec = LedgerRecord {
        current_balance: 0,
        sub: vec![false, false, true],
        amt: vec![i64::MAX, 1, 1],
        msg: vec![None, None, None],
    };
    assert_eq!(FigData::from_record(rec).err(), Some(LoadError::Unbalanced));
}

#[test]
fn binary_round_trip() {
    let l = scenario_c();
    let bytes = l.encode_bin();
    let back = FigData::decode_bin(&bytes).unwrap();
    assert_eq!(back.get_balance(), 3000);
    assert_eq!(back.get_transactions(), l.get_transactions());
}

#[test]
fn binary_layout_of_empty_ledger() {
    let bytes = FigData::new().encode_bin();
    assert_eq!(bytes, vec![0u8; 32]);
}

#[test]
fn binary_layout_of_one_addition() {
    let mut l = FigData::new();
    l.apply(5, false, Some("a".to_string())).unwrap();
    let bytes = l.encode_bin();
    let mut want = vec![5, 0, 0, 0, 0, 0, 0, 0];
    want.extend([1, 0, 0, 0, 0, 0, 0, 0, 0]);
    want.extend([1, 0, 0, 0, 0, 0, 0, 0, 5, 0, 0, 0, 0, 0, 0, 0]);
    want.extend([1, 0, 0, 0, 0, 0, 0, 0, 1, 1, 0, 0, 0, 0, 0, 0, 0, b'a']);
    assert_eq!(bytes, want);
}

#[test]
fn binary_garbage_is_undecodable() {
    assert_eq!(FigData::decode_bin(&[1, 2, 3]).err(), Some(LoadError::Undecodable));
}

#[test]
fn legacy_structured_text_reads_as_fresh_ledger() {
    for m in ["missing field `sub`", "missing field `amt`"] {
        let l = FigData::recover_missing_history(&m.to_string()).unwrap();
        assert_eq!(l.get_balance(), 0);
        assert!(l.get_transactions().is_empty());
    }
    assert!(FigData::recover_missing_history(&"missing field `current_balance`".to_string()).is_none());
    assert!(FigData::recover_missing_history(&"unexpected end".to_string()).is_none());
    assert!(FigData::recover_missing_history(&"missing field `msg`".to_string()).is_none());
}

#[test]
fn data_file_names() {
    assert_eq!(data_file_name(FigSaveType::Bin), "data");
    assert_eq!(data_file_name(FigSaveType::Xml), "data.xml");
}

#[test]
fn config_defaults() {
    let c = FigConfig::new();
    assert_eq!(c.save_type(), FigSaveType::Xml);
    assert_eq!(FigSaveType::default(), FigSaveType::Xml);
    assert_eq!(c.get_character(), ("⬆".to_string(), "⬇".to_string()));
}

#[test]
fn config_overrides() {
    let c = FigConfig {
        add_char: Some("+".to_string()),
        take_char: None,
        save_type: Some(FigSaveType::Bin),
    };
    assert_eq!(c.save_type(), FigSaveType::Bin);
    assert_eq!(c.get_character(), ("+".to_string(), "⬇".to_string()));
}

#[test]
fn binary_decode_twice_is_identical() {
    let mut l = scenario_c();
    l.apply(150, false, Some(String::new())).unwrap();
    let bytes = l.encode_bin();
    let a = FigData::decode_bin(&bytes).unwrap();
    let b = FigData::decode_bin(&bytes).unwrap();
    assert_eq!(a.get_balance(), 3150);
    assert_eq!(a.get_balance(), b.get_balance());
    assert_eq!(a.get_transactions(), b.get_transactions());
    assert_eq!(a.get_transactions(), l.get_transactions());
    assert_eq!(a.get_transactions()[2].message, Some(String::new()));
}
