use paytoy::amount::Amount;
use paytoy::clients::Clients;
use paytoy::error::LedgerError;
use paytoy::ids::{ClientId, TxId};
use paytoy::transaction::{TranType, Transaction};

fn dec(mantissa: i128, scale: u32) -> Amount {
    Amount::new(mantissa, scale).unwrap()
}

#[test]
fn test_process() -> Result<(), LedgerError> {
    let mut clients = Clients::default();
    clients.process(Transaction::new(
        TranType::Deposit,
        ClientId(1),
        TxId(1),
        Some(dec(100, 2)),
    ))?;
    assert!(clients.get(ClientId(1)).is_some());

    let t = Transaction::new(TranType::Deposit, ClientId(2), TxId(2), Some(dec(100, 2)));
    clients.process(t)?;
    assert!(clients.get(ClientId(2)).is_some());

    let t = Transaction::new(TranType::Withdrawal, ClientId(2), TxId(3), Some(dec(100, 2)));
    clients.process(t)?;
    assert!(clients.get(ClientId(2)).is_some());

    // Unknown client cases. partner error, ignore and check no client record is created
    let t = Transaction::new(TranType::Dispute, ClientId(99), TxId(2), None);
    assert!(clients.process(t).is_ok());
    assert!(clients.get(ClientId(99)).is_none());

    let t = Transaction::new(TranType::Resolve, ClientId(99), TxId(2), None);
    assert!(clients.process(t).is_ok());
    assert!(clients.get(ClientId(99)).is_none());

    let t = Transaction::new(TranType::Chargeback, ClientId(99), TxId(2), None);
    assert!(clients.process(t).is_ok());
    assert!(clients.get(ClientId(99)).is_none());

    let d = clients.render();
    let expected = "1,1.00,0,1.00,false
2,0.00,0,0,false
";
    assert_eq!(d, expected);

    Ok(())
}

#[test]
fn process_rejects_missing_amount() {
    let mut clients = Clients::new();
    let t = Transaction::new(TranType::Deposit, ClientId(1), TxId(1), None);
    assert_eq!(clients.process(t), Err(LedgerError::MalformedEvent));
    let t = Transaction::new(TranType::Withdrawal, ClientId(1), TxId(1), None);
    assert_eq!(clients.process(t), Err(LedgerError::MalformedEvent));
    assert!(clients.get(ClientId(1)).is_none());
}

#[test]
fn process_rejects_amount_on_dispute_class() {
    let mut clients = Clients::new();
    for kind in [TranType::Dispute, TranType::Resolve, TranType::Chargeback] {
        let t = Transaction::new(kind, ClientId(1), TxId(1), Some(dec(10, 1)));
        assert_eq!(clients.process(t), Err(LedgerError::MalformedEvent));
    }
    assert!(clients.get(ClientId(1)).is_none());
}

#[test]
fn failed_first_event_creates_no_account() {
    let mut clients = Clients::new();
    let t = Transaction::new(TranType::Deposit, ClientId(5), TxId(1), Some(dec(0, 0)));
    assert_eq!(clients.process(t), Err(LedgerError::InvalidAmount));
    assert!(clients.get(ClientId(5)).is_none());
}

#[test]
fn short_withdrawal_still_opens_account() {
    let mut clients = Clients::new();
    let t = Transaction::new(TranType::Withdrawal, ClientId(4), TxId(1), Some(dec(50, 1)));
    assert_eq!(clients.process(t), Ok(()));
    let b = clients.get(ClientId(4)).unwrap();
    assert_eq!(b.available(), dec(0, 0));
    assert!(b.record(TxId(1)).is_none());
}

#[test]
fn unknown_tx_dispute_is_noop() {
    let mut clients = Clients::new();
    let t = Transaction::new(TranType::Deposit, ClientId(1), TxId(1), Some(dec(10, 0)));
    clients.process(t).unwrap();
    for kind in [TranType::Dispute, TranType::Resolve, TranType::Chargeback] {
        let t = Transaction::new(kind, ClientId(1), TxId(77), None);
        assert_eq!(clients.process(t), Ok(()));
    }
    let b = clients.get(ClientId(1)).unwrap();
    assert_eq!(b.available(), dec(10, 0));
    assert_eq!(b.held(), dec(0, 0));
    assert!(b.record(TxId(77)).is_none());
}

#[test]
fn combine_disjoint_and_overlapping() {
    let mut a = Clients::new();
    a.process(Transaction::new(TranType::Deposit, ClientId(1), TxId(1), Some(dec(10, 0))))
        .unwrap();
    let mut b = Clients::new();
    b.process(Transaction::new(TranType::Deposit, ClientId(2), TxId(2), Some(dec(20, 0))))
        .unwrap();
    assert_eq!(a.combine(b), Ok(()));
    assert_eq!(a.get(ClientId(1)).unwrap().available(), dec(10, 0));
    assert_eq!(a.get(ClientId(2)).unwrap().available(), dec(20, 0));

    let mut c = Clients::new();
    c.process(Transaction::new(TranType::Deposit, ClientId(2), TxId(3), Some(dec(5, 0))))
        .unwrap();
    assert_eq!(a.combine(c), Err(LedgerError::PartitionInvariantViolation));
    assert_eq!(a.get(ClientId(2)).unwrap().available(), dec(20, 0));
    let ids: Vec<u16> = a.client_ids().iter().map(|c| c.id()).collect();
    assert_eq!(ids, vec![1, 2]);
}

#[test]
fn interleaving_across_clients_does_not_matter() {
    let e = |kind, client, tx, amount: Option<Amount>| {
        Transaction::new(kind, ClientId(client), TxId(tx), amount)
    };
    let first = vec![
        e(TranType::Deposit, 1, 1, Some(dec(100, 1))),
        e(TranType::Deposit, 2, 2, Some(dec(50, 1))),
        e(TranType::Withdrawal, 1, 3, Some(dec(70, 1))),
        e(TranType::Dispute, 2, 2, None),
        e(TranType::Dispute, 1, 3, None),
        e(TranType::Chargeback, 1, 3, None),
    ];
    let second = vec![
        e(TranType::Deposit, 2, 2, Some(dec(50, 1))),
        e(TranType::Dispute, 2, 2, None),
        e(TranType::Deposit, 1, 1, Some(dec(100, 1))),
        e(TranType::Withdrawal, 1, 3, Some(dec(70, 1))),
        e(TranType::Dispute, 1, 3, None),
        e(TranType::Chargeback, 1, 3, None),
    ];
    let mut a = Clients::new();
    let mut b = Clients::new();
    a.process_all(&first).unwrap();
    b.process_all(&second).unwrap();
    assert_eq!(a.render(), b.render());
    assert_eq!(a.render(), "1,10.0,0.0,10.0,true\n2,0.0,5.0,5.0,false\n");
}
