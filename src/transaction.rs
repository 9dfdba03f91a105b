use vstd::prelude::*;

use crate::amount::Amount;
use crate::ids::{ClientId, TxId};

verus! {

/// types of transaction we can process
#[derive(Clone, Copy, Debug, PartialEq, Eq, Structural)]
pub enum TranType {
    Deposit,
    Withdrawal,
    Dispute,
    Resolve,
    Chargeback,
}

/// What an event carries, with its amount in ten-thousandths.
pub ghost struct TransactionView {
    pub kind: TranType,
    pub client: u16,
    pub tx: u32,
    pub amount: Option<int>,
}

/// The input transaction
#[derive(Clone, Copy, Debug, PartialEq)]
pub struct Transaction {
    pub tran_type: TranType,
    pub client: ClientId,
    pub tx: TxId,
    pub amount: Option<Amount>,
}

impl View for Transaction {
    type V = TransactionView;

    open spec fn view(&self) -> TransactionView {
        TransactionView {
            kind: self.tran_type,
            client: self.client.0,
            tx: self.tx.0,
            amount: match self.amount {
                Some(a) => Some(a.value()),
                None => None,
            },
        }
    }
}

impl Transaction {
    pub fn new(tran_type: TranType, client: ClientId, tx: TxId, amount: Option<Amount>) -> (r: Self)
        ensures
            r.tran_type == tran_type,
            r.client == client,
            r.tx == tx,
            r.amount == amount,
    {
        Transaction { tran_type, client, tx, amount }
    }

    /// Whether the event mints a transaction id (a deposit or a withdrawal).
    pub fn mints_id(&self) -> (r: bool)
        ensures
            r == mints_id(self.tran_type),
    {
        match self.tran_type {
            TranType::Deposit | TranType::Withdrawal => true,
            _ => false,
        }
    }
}

/// Deposits and withdrawals mint transaction ids; the dispute-class kinds
/// refer to one.
pub open spec fn mints_id(kind: TranType) -> bool {
    kind == TranType::Deposit || kind == TranType::Withdrawal
}

} // verus!
