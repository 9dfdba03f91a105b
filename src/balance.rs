use std::collections::HashMap;
use vstd::prelude::*;

use crate::amount::{decimal_text, sum_parts, Amount};
use crate::text::{bool_text, push_char, push_str};
use crate::error::LedgerError;
use crate::ids::TxId;

verus! {

broadcast use vstd::std_specs::hash::group_hash_axioms;

/// Things we need to record in case they are disputed
#[derive(Clone, Copy, Debug, PartialEq, Eq, Structural)]
pub enum RecordType {
    Deposit,
    Withdrawal,
}

/// What a record holds, with its amount in ten-thousandths.
pub ghost struct RecordView {
    pub kind: RecordType,
    pub amount: int,
    pub disputed: bool,
}

/// What an account holds: the two balances in ten-thousandths, the lock,
/// and the record of each deposit and withdrawal by transaction id.
pub ghost struct BalanceView {
    pub available: int,
    pub held: int,
    pub locked: bool,
    pub records: Map<u32, RecordView>,
}

/// Record of a transaction in case of dispute
#[derive(Clone, Copy, Debug, PartialEq)]
pub struct TranRecord {
    rec_type: RecordType,
    amount: Amount,
    disputed: bool,
}

impl View for TranRecord {
    type V = RecordView;

    closed spec fn view(&self) -> RecordView {
        RecordView { kind: self.rec_type, amount: self.amount.value(), disputed: self.disputed }
    }
}

impl TranRecord {
    pub fn new(rec_type: RecordType, amount: Amount) -> (r: Self)
        ensures
            r@ == (RecordView { kind: rec_type, amount: amount.value(), disputed: false }),
    {
        TranRecord { rec_type, amount, disputed: false }
    }

    pub fn rec_type(&self) -> (r: RecordType)
        ensures
            r == self@.kind,
    {
        self.rec_type
    }

    pub fn amount(&self) -> (r: Amount)
        ensures
            r.value() == self@.amount,
    {
        self.amount
    }

    pub fn disputed(&self) -> (r: bool)
        ensures
            r == self@.disputed,
    {
        self.disputed
    }

    /// The same record with its dispute flag set to `disputed`.
    fn with_disputed(&self, disputed: bool) -> (r: Self)
        ensures
            r@ == (RecordView { disputed, ..self@ }),
    {
        TranRecord { rec_type: self.rec_type, amount: self.amount, disputed }
    }
}

/// Largest magnitude of a balance, in ten-thousandths: half of what an
/// amount can hold, so that `available + held` always fits in one.
pub const MAX_BALANCE: i128 = 500_000_000_000_000_000_000_000;

/// A value in ten-thousandths that a balance may take.
pub open spec fn balance_in_range(units: int) -> bool {
    -MAX_BALANCE <= units <= MAX_BALANCE
}

/// `amount` taken with the sign of `sign`.
pub open spec fn signed(sign: int, amount: int) -> int {
    if sign > 0 {
        amount
    } else if sign < 0 {
        -amount
    } else {
        0
    }
}

/// An account with nothing in it.
pub open spec fn empty_balance() -> BalanceView {
    BalanceView { available: 0, held: 0, locked: false, records: Map::empty() }
}

/// Deposit `amount` under `tx`.
pub open spec fn deposit_model(b: BalanceView, tx: u32, amount: int) -> Result<
    BalanceView,
    LedgerError,
> {
    if amount <= 0 {
        Err(LedgerError::InvalidAmount)
    } else if b.records.contains_key(tx) {
        Err(LedgerError::DuplicateTransaction)
    } else if b.locked {
        Ok(b)
    } else if !balance_in_range(b.available + amount) {
        Err(LedgerError::Overflow)
    } else {
        Ok(
            BalanceView {
                available: b.available + amount,
                records: b.records.insert(
                    tx,
                    RecordView { kind: RecordType::Deposit, amount, disputed: false },
                ),
                ..b
            },
        )
    }
}

/// Withdraw `amount` under `tx`; short funds make it a no-op.
pub open spec fn withdraw_model(b: BalanceView, tx: u32, amount: int) -> Result<
    BalanceView,
    LedgerError,
> {
    if amount <= 0 {
        Err(LedgerError::InvalidAmount)
    } else if b.records.contains_key(tx) {
        Err(LedgerError::DuplicateTransaction)
    } else if b.locked || b.available < amount {
        Ok(b)
    } else {
        Ok(
            BalanceView {
                available: b.available - amount,
                records: b.records.insert(
                    tx,
                    RecordView { kind: RecordType::Withdrawal, amount, disputed: false },
                ),
                ..b
            },
        )
    }
}

/// The account with both balances replaced and the record of `tx` marked.
pub open spec fn rebalance(
    b: BalanceView,
    tx: u32,
    available: int,
    held: int,
    disputed: bool,
    locked: bool,
) -> Result<BalanceView, LedgerError> {
    if !balance_in_range(available) || !balance_in_range(held) {
        Err(LedgerError::Overflow)
    } else {
        Ok(
            BalanceView {
                available,
                held,
                locked,
                records: b.records.insert(tx, RecordView { disputed, ..b.records[tx] }),
            },
        )
    }
}

/// Open a dispute on `tx`: a deposit's amount moves from available to held,
/// a withdrawal's amount is taken off held.
pub open spec fn dispute_model(b: BalanceView, tx: u32) -> Result<BalanceView, LedgerError> {
    if b.locked || !b.records.contains_key(tx) || b.records[tx].disputed {
        Ok(b)
    } else {
        let a = b.records[tx].amount;
        match b.records[tx].kind {
            RecordType::Deposit => rebalance(b, tx, b.available - a, b.held + a, true, false),
            RecordType::Withdrawal => rebalance(b, tx, b.available, b.held - a, true, false),
        }
    }
}

/// Close the dispute on `tx`, undoing what the dispute did.
pub open spec fn resolve_model(b: BalanceView, tx: u32) -> Result<BalanceView, LedgerError> {
    if b.locked || !b.records.contains_key(tx) || !b.records[tx].disputed {
        Ok(b)
    } else {
        let a = b.records[tx].amount;
        match b.records[tx].kind {
            RecordType::Deposit => rebalance(b, tx, b.available + a, b.held - a, false, false),
            RecordType::Withdrawal => rebalance(b, tx, b.available, b.held + a, false, false),
        }
    }
}

/// Settle the dispute on `tx` against the client and lock the account.
pub open spec fn chargeback_model(b: BalanceView, tx: u32) -> Result<BalanceView, LedgerError> {
    if b.locked || !b.records.contains_key(tx) || !b.records[tx].disputed {
        Ok(b)
    } else {
        let a = b.records[tx].amount;
        match b.records[tx].kind {
            RecordType::Deposit => rebalance(b, tx, b.available, b.held - a, false, true),
            RecordType::Withdrawal => rebalance(b, tx, b.available + a, b.held + a, false, true),
        }
    }
}

/// The call returned what `model` gives, and on an error left the account as it was.
pub open spec fn follows(
    r: Result<(), LedgerError>,
    before: BalanceView,
    after: BalanceView,
    model: Result<BalanceView, LedgerError>,
) -> bool {
    match model {
        Ok(v) => r is Ok && after == v,
        Err(e) => r == Err::<(), LedgerError>(e) && after == before,
    }
}

/// The report line of an account: available, held, total and lock flag.
pub open spec fn balance_text(b: Balance) -> Seq<char> {
    let t = sum_parts(b.available_amount(), b.held_amount());
    b.available_amount().text() + seq![','] + b.held_amount().text() + seq![','] + decimal_text(
        t.0,
        t.1,
    ) + seq![','] + bool_text_of(b@.locked)
}

/// `true` or `false`, spelt out.
pub open spec fn bool_text_of(b: bool) -> Seq<char> {
    if b {
        seq!['t', 'r', 'u', 'e']
    } else {
        seq!['f', 'a', 'l', 's', 'e']
    }
}

/// The two balances of an account, each within `MAX_BALANCE`.
#[derive(Clone, Copy, Debug)]
struct Funds {
    available: Amount,
    held: Amount,
}

impl Funds {
    #[verifier::type_invariant]
    spec fn inv(self) -> bool {
        balance_in_range(self.available.value()) && balance_in_range(self.held.value())
    }
}

/// Holds the balances for one client asset
#[derive(Debug)]
pub struct Balance {
    funds: Funds,
    locked: bool,
    trans: HashMap<u32, TranRecord>,
}

impl View for Balance {
    type V = BalanceView;

    closed spec fn view(&self) -> BalanceView {
        BalanceView {
            available: self.funds.available.value(),
            held: self.funds.held.value(),
            locked: self.locked,
            records: self.trans@.map_values(|r: TranRecord| r@),
        }
    }
}

impl Default for Balance {
    fn default() -> (r: Self)
        ensures
            r@ == empty_balance(),
    {
        Balance::new()
    }
}

impl Balance {
    /// An account with nothing in it.
    pub fn new() -> (r: Self)
        ensures
            r@ == empty_balance(),
    {
        let r = Balance {
            funds: Funds { available: Amount::zero(), held: Amount::zero() },
            locked: false,
            trans: HashMap::new(),
        };
        assert(r@.records =~= Map::empty());
        r
    }

    /// The available balance as it is written.
    pub closed spec fn available_amount(self) -> Amount {
        self.funds.available
    }

    /// The held balance as it is written.
    pub closed spec fn held_amount(self) -> Amount {
        self.funds.held
    }

    /// Funds the client can use.
    pub fn available(&self) -> (r: Amount)
        ensures
            r.value() == self@.available,
            r == self.available_amount(),
    {
        self.funds.available
    }

    /// Funds frozen by open disputes (negative while a withdrawal is disputed).
    pub fn held(&self) -> (r: Amount)
        ensures
            r.value() == self@.held,
            r == self.held_amount(),
    {
        self.funds.held
    }

    /// The account as a report line: available, held, total and lock flag,
    /// separated by commas.
    pub fn to_text(&self) -> (r: String)
        ensures
            r@ == balance_text(*self),
    {
        let total = self.total();
        let mut s = self.funds.available.to_text();
        push_char(&mut s, ',');
        push_str(&mut s, &self.funds.held.to_text());
        push_char(&mut s, ',');
        push_str(&mut s, &total.to_text());
        push_char(&mut s, ',');
        push_str(&mut s, &bool_text(self.locked));
        s
    }

    /// Whether a chargeback has frozen the account.
    pub fn locked(&self) -> (r: bool)
        ensures
            r == self@.locked,
    {
        self.locked
    }

    /// The record kept for `tx`, if any.
    pub fn record(&self, tx: TxId) -> (r: Option<TranRecord>)
        ensures
            r is Some <==> self@.records.contains_key(tx.0),
            r matches Some(rec) ==> rec@ == self@.records[tx.0],
    {
        match self.trans.get(&tx.0) {
            Some(rec) => Some(*rec),
            None => None,
        }
    }

    /// `available + held`, as `Decimal` writes it.
    pub fn total(&self) -> (r: Amount)
        ensures
            r.value() == self@.available + self@.held,
            (r.spec_mantissa(), r.spec_scale()) == sum_parts(self.available_amount(), self.held_amount()),
    {
        proof {
            use_type_invariant(&self.funds);
        }
        self.funds.available.plus(self.funds.held)
    }

    /// Credit `amount` under `tx`. A locked account takes nothing but still
    /// refuses a bad amount or a reused id.
    pub fn deposit(&mut self, tx: TxId, amount: Amount) -> (r: Result<(), LedgerError>)
        ensures
            follows(r, old(self)@, final(self)@, deposit_model(old(self)@, tx.0, amount.value())),
    {
        let units = amount.units();
        if units <= 0 {
            return Err(LedgerError::InvalidAmount);
        }
        if self.trans.contains_key(&tx.0) {
            return Err(LedgerError::DuplicateTransaction);
        }
        if self.locked {
            return Ok(());
        }
        if !balance_in_range_exec(self.funds.available.units() + units) {
            return Err(LedgerError::Overflow);
        }
        proof {
            use_type_invariant(&self.funds);
        }
        self.funds = Funds { available: self.funds.available.plus(amount), held: self.funds.held };
        self.trans.insert(tx.0, TranRecord::new(RecordType::Deposit, amount));
        proof {
            assert(self@.records =~= old(self)@.records.insert(
                tx.0,
                RecordView { kind: RecordType::Deposit, amount: amount.value(), disputed: false },
            ));
        }
        Ok(())
    }

    /// Debit `amount` under `tx` if that much is available; short funds are
    /// no error, the withdrawal is just skipped.
    pub fn withdraw(&mut self, tx: TxId, amount: Amount) -> (r: Result<(), LedgerError>)
        ensures
            follows(r, old(self)@, final(self)@, withdraw_model(old(self)@, tx.0, amount.value())),
    {
        let units = amount.units();
        if units <= 0 {
            return Err(LedgerError::InvalidAmount);
        }
        if self.trans.contains_key(&tx.0) {
            return Err(LedgerError::DuplicateTransaction);
        }
        if self.locked || self.funds.available.units() < units {
            return Ok(());
        }
        proof {
            use_type_invariant(&self.funds);
        }
        self.funds = Funds { available: self.funds.available.minus(amount), held: self.funds.held };
        self.trans.insert(tx.0, TranRecord::new(RecordType::Withdrawal, amount));
        proof {
            assert(self@.records =~= old(self)@.records.insert(
                tx.0,
                RecordView { kind: RecordType::Withdrawal, amount: amount.value(), disputed: false },
            ));
        }
        Ok(())
    }

    /// Open a dispute on `tx`. Unknown ids, records already disputed and
    /// locked accounts are left alone.
    pub fn dispute(&mut self, tx: TxId) -> (r: Result<(), LedgerError>)
        ensures
            follows(r, old(self)@, final(self)@, dispute_model(old(self)@, tx.0)),
    {
        if self.locked {
            return Ok(());
        }
        let rec = match self.trans.get(&tx.0) {
            Some(rec) => *rec,
            // Unknown TxId, assume payment partner error
            None => return Ok(()),
        };
        match (rec.rec_type, rec.disputed) {
            (RecordType::Deposit, false) => self.shift(tx.0, rec, -1, 1, true, false),
            (RecordType::Withdrawal, false) => self.shift(tx.0, rec, 0, -1, true, false),
            // Already disputed
            (_, true) => Ok(()),
        }
    }

    /// Close the dispute on `tx` in the client's favour.
    pub fn resolve(&mut self, tx: TxId) -> (r: Result<(), LedgerError>)
        ensures
            follows(r, old(self)@, final(self)@, resolve_model(old(self)@, tx.0)),
    {
        if self.locked {
            return Ok(());
        }
        let rec = match self.trans.get(&tx.0) {
            Some(rec) => *rec,
            // Unknown TxId, assume payment partner error
            None => return Ok(()),
        };
        match (rec.rec_type, rec.disputed) {
            (RecordType::Deposit, true) => self.shift(tx.0, rec, 1, -1, false, false),
            (RecordType::Withdrawal, true) => self.shift(tx.0, rec, 0, 1, false, false),
            // Not disputed, ignore
            (_, false) => Ok(()),
        }
    }

    /// Close the dispute on `tx` against the client and lock the account.
    pub fn chargeback(&mut self, tx: TxId) -> (r: Result<(), LedgerError>)
        ensures
            follows(r, old(self)@, final(self)@, chargeback_model(old(self)@, tx.0)),
    {
        if self.locked {
            return Ok(());
        }
        let rec = match self.trans.get(&tx.0) {
            Some(rec) => *rec,
            // Unknown TxId, assume payment partner error
            None => return Ok(()),
        };
        match (rec.rec_type, rec.disputed) {
            (RecordType::Deposit, true) => self.shift(tx.0, rec, 0, -1, false, true),
            (RecordType::Withdrawal, true) => self.shift(tx.0, rec, 1, 1, false, true),
            // Not disputed, ignore
            (_, false) => Ok(()),
        }
    }

    /// Move the amount of the record `rec` of `tx` into or out of each
    /// balance (by the sign given for it), set its dispute flag, and lock
    /// the account if `lock`.
    fn shift(
        &mut self,
        tx: u32,
        rec: TranRecord,
        to_available: i8,
        to_held: i8,
        disputed: bool,
        lock: bool,
    ) -> (r: Result<(), LedgerError>)
        requires
            old(self)@.records.contains_key(tx),
            old(self)@.records[tx] == rec@,
            -1 <= to_available <= 1,
            -1 <= to_held <= 1,
            !old(self).locked,
        ensures
            follows(
                r,
                old(self)@,
                final(self)@,
                rebalance(
                    old(self)@,
                    tx,
                    old(self)@.available + signed(to_available as int, rec@.amount),
                    old(self)@.held + signed(to_held as int, rec@.amount),
                    disputed,
                    lock,
                ),
            ),
    {
        let m = rec.amount.units();
        let a = self.funds.available.units();
        let h = self.funds.held.units();
        let new_available = if to_available > 0 {
            a + m
        } else if to_available < 0 {
            a - m
        } else {
            a
        };
        let new_held = if to_held > 0 {
            h + m
        } else if to_held < 0 {
            h - m
        } else {
            h
        };
        if !balance_in_range_exec(new_available) || !balance_in_range_exec(new_held) {
            return Err(LedgerError::Overflow);
        }
        let available = if to_available > 0 {
            self.funds.available.plus(rec.amount)
        } else if to_available < 0 {
            self.funds.available.minus(rec.amount)
        } else {
            self.funds.available
        };
        let held = if to_held > 0 {
            self.funds.held.plus(rec.amount)
        } else if to_held < 0 {
            self.funds.held.minus(rec.amount)
        } else {
            self.funds.held
        };
        self.funds = Funds { available, held };
        self.locked = lock;
        self.trans.insert(tx, rec.with_disputed(disputed));
        proof {
            assert(self@.records =~= old(self)@.records.insert(
                tx,
                RecordView { disputed, ..old(self)@.records[tx] },
            ));
        }
        Ok(())
    }
}

/// Whether `units` is a value a balance may take.
fn balance_in_range_exec(units: i128) -> (r: bool)
    ensures
        r == balance_in_range(units as int),
{
    -MAX_BALANCE <= units && units <= MAX_BALANCE
}

} // verus!
