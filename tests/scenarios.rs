use paytoy::amount::Amount;
use paytoy::balance::Balance;
use paytoy::error::LedgerError;
use paytoy::ids::{ClientId, TxId};
use paytoy::pipeline::{lane_count, lane_of, Dispatcher};
use paytoy::transaction::{TranType, Transaction};

fn dec(mantissa: i128, scale: u32) -> Amount {
    Amount::new(mantissa, scale).unwrap()
}

#[test]
fn deposit_then_withdraw_same_amount_empties_account() {
    let mut b = Balance::new();
    b.deposit(TxId(1), dec(12345, 4)).unwrap();
    b.withdraw(TxId(2), dec(12345, 4)).unwrap();
    assert_eq!(b.available(), dec(0, 0));
    assert_eq!(b.held(), dec(0, 0));
    assert!(!b.locked());
}

#[test]
fn scenario_deposit_withdraw() {
    let mut b = Balance::new();
    b.deposit(TxId(4), dec(100, 1)).unwrap();
    assert_eq!(b.available(), dec(100, 1));
    assert_eq!(b.held(), dec(0, 0));
    b.withdraw(TxId(5), dec(110, 1)).unwrap();
    assert_eq!(b.available(), dec(100, 1));
    assert!(b.record(TxId(5)).is_none());
    b.withdraw(TxId(6), dec(30, 1)).unwrap();
    assert_eq!(b.available(), dec(70, 1));
}

#[test]
fn scenario_dispute_deposit() {
    let mut b = Balance::new();
    b.deposit(TxId(1), dec(100, 1)).unwrap();
    b.withdraw(TxId(2), dec(70, 1)).unwrap();
    assert_eq!(b.available(), dec(30, 1));
    b.dispute(TxId(1)).unwrap();
    assert_eq!(b.available(), dec(-70, 1));
    assert_eq!(b.held(), dec(100, 1));
    b.resolve(TxId(1)).unwrap();
    assert_eq!(b.available(), dec(30, 1));
    assert_eq!(b.held(), dec(0, 0));
}

#[test]
fn scenario_chargeback_withdrawal() {
    let mut b = Balance::new();
    b.deposit(TxId(1), dec(100, 1)).unwrap();
    b.withdraw(TxId(2), dec(70, 1)).unwrap();
    assert_eq!(b.available(), dec(30, 1));
    b.dispute(TxId(2)).unwrap();
    assert_eq!(b.held(), dec(-70, 1));
    b.chargeback(TxId(2)).unwrap();
    assert_eq!(b.available(), dec(100, 1));
    assert_eq!(b.held(), dec(0, 0));
    assert!(b.locked());
}

#[test]
fn locked_account_ignores_everything() {
    let mut b = Balance::new();
    b.deposit(TxId(1), dec(10, 0)).unwrap();
    b.deposit(TxId(2), dec(5, 0)).unwrap();
    b.dispute(TxId(1)).unwrap();
    b.chargeback(TxId(1)).unwrap();
    assert!(b.locked());
    b.deposit(TxId(3), dec(1, 0)).unwrap();
    b.withdraw(TxId(4), dec(1, 0)).unwrap();
    b.dispute(TxId(2)).unwrap();
    b.resolve(TxId(2)).unwrap();
    b.chargeback(TxId(2)).unwrap();
    assert_eq!(b.available(), dec(5, 0));
    assert_eq!(b.held(), dec(0, 0));
    assert!(b.locked());
    assert!(b.record(TxId(3)).is_none());
    // a locked account still refuses a reused id
    assert_eq!(b.deposit(TxId(2), dec(1, 0)), Err(LedgerError::DuplicateTransaction));
}

#[test]
fn dispute_twice_is_noop() {
    let mut b = Balance::new();
    b.deposit(TxId(1), dec(10, 0)).unwrap();
    b.dispute(TxId(1)).unwrap();
    b.dispute(TxId(1)).unwrap();
    assert_eq!(b.available(), dec(0, 0));
    assert_eq!(b.held(), dec(10, 0));
    assert!(b.record(TxId(1)).unwrap().disputed());
}

#[test]
fn negative_amount_is_invalid() {
    let mut b = Balance::new();
    assert_eq!(b.deposit(TxId(1), dec(-5, 1)), Err(LedgerError::InvalidAmount));
    assert_eq!(b.withdraw(TxId(1), dec(-5, 1)), Err(LedgerError::InvalidAmount));
}

#[test]
fn balance_overflow_is_refused() {
    let mut b = Balance::new();
    let big = dec(50_000_000_000_000_000_000, 0);
    b.deposit(TxId(1), big).unwrap();
    assert_eq!(b.deposit(TxId(2), dec(1, 4)), Err(LedgerError::Overflow));
    assert_eq!(b.available(), big);
    assert!(b.record(TxId(2)).is_none());
}

#[test]
fn amount_limits_and_text() {
    assert!(Amount::new(1, 5).is_none());
    assert!(Amount::new(100_000_000_000_000_000_000, 0).is_some());
    assert!(Amount::new(100_000_000_000_000_000_001, 0).is_none());
    assert_eq!(dec(-70, 1).to_text(), "-7.0");
    assert_eq!(dec(100, 2).to_text(), "1.00");
    assert_eq!(dec(12345, 4).units(), 12345);
    assert_eq!(dec(3, 0).units(), 30000);
    assert_eq!(dec(100, 2), dec(1, 0));
}

#[test]
fn sums_keep_decimal_scale() {
    let s = dec(100, 2).plus(dec(0, 0));
    assert_eq!(s.to_text(), "1.00");
    let d = dec(100, 2).minus(dec(100, 2));
    assert_eq!(d.to_text(), "0.00");
    assert_eq!(dec(15, 1).plus(dec(25, 2)).to_text(), "1.75");
    assert_eq!(dec(15, 1).minus(dec(25, 2)).to_text(), "1.25");
}

#[test]
fn global_id_reuse_across_clients_is_rejected() {
    let mut d = Dispatcher::new(4);
    let t1 = Transaction::new(TranType::Deposit, ClientId(1), TxId(9), Some(dec(1, 0)));
    let t2 = Transaction::new(TranType::Withdrawal, ClientId(2), TxId(9), Some(dec(1, 0)));
    assert_eq!(d.route(&t1), Ok(1));
    assert_eq!(d.route(&t2), Err(LedgerError::DuplicateTransaction));
    // dispute-class events do not mint ids
    let t3 = Transaction::new(TranType::Dispute, ClientId(6), TxId(9), None);
    assert_eq!(d.route(&t3), Ok(2));
}

#[test]
fn lanes() {
    assert_eq!(lane_count(0), 1);
    assert_eq!(lane_count(8), 8);
    assert_eq!(lane_count(1_000_000), 65535);
    assert_eq!(lane_of(ClientId(10), 4), 2);
    assert_eq!(lane_of(ClientId(3), 1), 0);
}
