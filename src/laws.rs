//! Laws of the account state machine and of the ledger, proved over the
//! models that the operations' contracts follow.
use vstd::prelude::*;

use crate::balance::{
    chargeback_model, deposit_model, dispute_model, empty_balance, resolve_model, withdraw_model,
    BalanceView, balance_in_range,
};
use crate::clients::process_model;
use crate::error::LedgerError;
use crate::transaction::{TranType, TransactionView};

verus! {

/// Depositing an amount into an empty account and withdrawing the same
/// amount under another id leaves both balances at zero and the account open.
pub proof fn lemma_deposit_then_withdraw(amount: int, deposit_tx: u32, withdraw_tx: u32)
    requires
        0 < amount,
        balance_in_range(amount),
        deposit_tx != withdraw_tx,
    ensures
        deposit_model(empty_balance(), deposit_tx, amount) is Ok,
        withdraw_model(deposit_model(empty_balance(), deposit_tx, amount)->Ok_0, withdraw_tx, amount) matches Ok(b)
            && b.available == 0 && b.held == 0 && !b.locked,
{
}

/// A withdrawal of more than is available, under a fresh id, succeeds and
/// changes nothing.
pub proof fn lemma_short_withdrawal_is_noop(b: BalanceView, tx: u32, amount: int)
    requires
        0 < amount,
        b.available < amount,
        !b.records.contains_key(tx),
    ensures
        withdraw_model(b, tx, amount) == Ok::<BalanceView, LedgerError>(b),
{
}

/// Disputing a record that is not under dispute and then resolving it gives
/// back the account as it was, for deposits and withdrawals alike.
pub proof fn lemma_dispute_resolve_round_trip(b: BalanceView, tx: u32)
    requires
        balance_in_range(b.available),
        balance_in_range(b.held),
        !(b.records.contains_key(tx) && b.records[tx].disputed),
        dispute_model(b, tx) is Ok,
    ensures
        resolve_model(dispute_model(b, tx)->Ok_0, tx) == Ok::<BalanceView, LedgerError>(b),
{
    if !b.locked && b.records.contains_key(tx) {
        let d = dispute_model(b, tx)->Ok_0;
        let r = resolve_model(d, tx)->Ok_0;
        assert(d.records[tx].disputed);
        assert(r.records =~= b.records);
    }
}

/// A dispute followed by a chargeback locks the account.
pub proof fn lemma_chargeback_locks(b: BalanceView, tx: u32)
    requires
        !b.locked,
        b.records.contains_key(tx),
        !b.records[tx].disputed,
        dispute_model(b, tx) is Ok,
        chargeback_model(dispute_model(b, tx)->Ok_0, tx) is Ok,
    ensures
        chargeback_model(dispute_model(b, tx)->Ok_0, tx)->Ok_0.locked,
{
}

/// A locked account is final: no operation that succeeds changes it (and
/// one that fails changes nothing either).
pub proof fn lemma_locked_is_final(b: BalanceView, tx: u32, amount: int)
    requires
        b.locked,
    ensures
        deposit_model(b, tx, amount) is Ok ==> deposit_model(b, tx, amount) == Ok::<
            BalanceView,
            LedgerError,
        >(b),
        withdraw_model(b, tx, amount) is Ok ==> withdraw_model(b, tx, amount) == Ok::<
            BalanceView,
            LedgerError,
        >(b),
        dispute_model(b, tx) == Ok::<BalanceView, LedgerError>(b),
        resolve_model(b, tx) == Ok::<BalanceView, LedgerError>(b),
        chargeback_model(b, tx) == Ok::<BalanceView, LedgerError>(b),
{
}

/// Reusing a recorded id for a deposit or a withdrawal fails as a duplicate.
pub proof fn lemma_reused_id_rejected(b: BalanceView, tx: u32, amount: int)
    requires
        0 < amount,
        b.records.contains_key(tx),
    ensures
        deposit_model(b, tx, amount) == Err::<BalanceView, LedgerError>(
            LedgerError::DuplicateTransaction,
        ),
        withdraw_model(b, tx, amount) == Err::<BalanceView, LedgerError>(
            LedgerError::DuplicateTransaction,
        ),
{
}

/// A dispute, resolve or chargeback that names an unknown client, or a
/// transaction id unknown to the client's account, succeeds and changes
/// nothing: no account and no record is created.
pub proof fn lemma_unknown_reference_is_noop(m: Map<u16, BalanceView>, t: TransactionView)
    requires
        t.kind == TranType::Dispute || t.kind == TranType::Resolve || t.kind == TranType::Chargeback,
        t.amount is None,
        !m.contains_key(t.client) || !m[t.client].records.contains_key(t.tx),
    ensures
        process_model(m, t) == Ok::<Map<u16, BalanceView>, LedgerError>(m),
{
    if m.contains_key(t.client) {
        assert(m.insert(t.client, m[t.client]) =~= m);
    }
}

} // verus!
