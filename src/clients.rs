use std::collections::HashMap;
use vstd::prelude::*;

use crate::balance::{
    balance_text, chargeback_model, deposit_model, dispute_model, empty_balance, resolve_model, withdraw_model,
    Balance, BalanceView,
};
use crate::error::LedgerError;
use crate::ids::ClientId;
use crate::text::{digits, push_char, push_digits, push_str};
use crate::transaction::{TranType, Transaction, TransactionView};

verus! {

broadcast use vstd::std_specs::hash::group_hash_axioms;

/// The account of `client` in `m`, if there is one.
pub open spec fn account_of(m: Map<u16, BalanceView>, client: u16) -> Option<BalanceView> {
    if m.contains_key(client) {
        Some(m[client])
    } else {
        None
    }
}

/// Apply one event to the account it names, or to no account (`None`).
/// Deposits and withdrawals open the account; the dispute-class kinds leave
/// an absent account absent.
pub open spec fn account_step(acc: Option<BalanceView>, t: TransactionView) -> Result<
    Option<BalanceView>,
    LedgerError,
> {
    match (t.kind, t.amount) {
        (TranType::Deposit, Some(a)) => match deposit_model(
            acc.unwrap_or(empty_balance()),
            t.tx,
            a,
        ) {
            Ok(b) => Ok(Some(b)),
            Err(e) => Err(e),
        },
        (TranType::Withdrawal, Some(a)) => match withdraw_model(
            acc.unwrap_or(empty_balance()),
            t.tx,
            a,
        ) {
            Ok(b) => Ok(Some(b)),
            Err(e) => Err(e),
        },
        (TranType::Deposit, None) => Err(LedgerError::MalformedEvent),
        (TranType::Withdrawal, None) => Err(LedgerError::MalformedEvent),
        (_, Some(_)) => Err(LedgerError::MalformedEvent),
        (kind, None) => match acc {
            None => Ok(None),
            Some(b) => match (if kind == TranType::Dispute {
                dispute_model(b, t.tx)
            } else if kind == TranType::Resolve {
                resolve_model(b, t.tx)
            } else {
                chargeback_model(b, t.tx)
            }) {
                Ok(b2) => Ok(Some(b2)),
                Err(e) => Err(e),
            },
        },
    }
}

/// The two ledgers have no client in common.
pub open spec fn disjoint(a: Map<u16, BalanceView>, b: Map<u16, BalanceView>) -> bool {
    forall|k: u16| !(#[trigger] a.contains_key(k) && b.contains_key(k))
}

/// Apply one event to a ledger.
pub open spec fn process_model(m: Map<u16, BalanceView>, t: TransactionView) -> Result<
    Map<u16, BalanceView>,
    LedgerError,
> {
    match account_step(account_of(m, t.client), t) {
        Ok(Some(b)) => Ok(m.insert(t.client, b)),
        Ok(None) => Ok(m),
        Err(e) => Err(e),
    }
}

/// The report lines of the clients below `n`, in ascending order of client
/// id: the id, a comma, the account's line and a newline each.
pub open spec fn report_upto(accounts: Map<u16, Balance>, n: int) -> Seq<char>
    decreases n,
{
    if n <= 0 {
        Seq::empty()
    } else {
        let rest = report_upto(accounts, n - 1);
        let c = (n - 1) as u16;
        if accounts.contains_key(c) {
            rest + digits(c as nat) + seq![','] + balance_text(accounts[c]) + seq!['\n']
        } else {
            rest
        }
    }
}

/// Represents a collection of clients and allows us to process a transaction
#[derive(Debug)]
pub struct Clients {
    balance_map: HashMap<u16, Balance>,
}

impl View for Clients {
    type V = Map<u16, BalanceView>;

    closed spec fn view(&self) -> Map<u16, BalanceView> {
        self.balance_map@.map_values(|b: Balance| b@)
    }
}

impl Default for Clients {
    fn default() -> (r: Self)
        ensures
            r@ == Map::<u16, BalanceView>::empty(),
    {
        Clients::new()
    }
}

impl Clients {
    /// The accounts by client id.
    pub closed spec fn accounts(self) -> Map<u16, Balance> {
        self.balance_map@
    }

    /// The report of every account, one line per client in ascending order
    /// of client id.
    pub fn render(&self) -> (r: String)
        ensures
            r@ == report_upto(self.accounts(), 0x10000),
    {
        let mut s = String::new();
        let mut c: u32 = 0;
        while c <= 0xffff
            invariant
                c <= 0x10000,
                s@ == report_upto(self.accounts(), c as int),
            decreases 0x10000 - c,
        {
            let k = c as u16;
            match self.balance_map.get(&k) {
                Some(b) => {
                    push_digits(&mut s, k);
                    push_char(&mut s, ',');
                    push_str(&mut s, &b.to_text());
                    push_char(&mut s, '\n');
                },
                None => {},
            }
            c = c + 1;
        }
        s
    }

    /// A ledger with no accounts.
    pub fn new() -> (r: Self)
        ensures
            r@ == Map::<u16, BalanceView>::empty(),
    {
        let r = Clients { balance_map: HashMap::new() };
        assert(r@ =~= Map::<u16, BalanceView>::empty());
        r
    }

    /// The account of `client`, if it has one.
    pub fn get(&self, client: ClientId) -> (r: Option<&Balance>)
        ensures
            r is Some <==> self@.contains_key(client.0),
            r matches Some(b) ==> b@ == self@[client.0],
    {
        self.balance_map.get(&client.0)
    }

    /// Whether the two ledgers share no client.
    pub fn is_disjoint(&self, other: &Clients) -> (r: bool)
        ensures
            r == disjoint(self@, other@),
    {
        let mut c: u32 = 0;
        while c <= 0xffff
            invariant
                c <= 0x10000,
                forall|k: u16| (k as u32) < c ==> !(#[trigger] self@.contains_key(k) && other@.contains_key(k)),
            decreases 0x10000 - c,
        {
            let k = c as u16;
            if self.balance_map.contains_key(&k) && other.balance_map.contains_key(&k) {
                assert(self@.contains_key(k) && other@.contains_key(k));
                return false;
            }
            c = c + 1;
        }
        true
    }

    /// Take over every account of `other`. The two ledgers must be disjoint:
    /// a client found in both means that the events were routed wrongly,
    /// and nothing is moved.
    pub fn combine(&mut self, other: Clients) -> (r: Result<(), LedgerError>)
        ensures
            disjoint(old(self)@, other@) ==> r is Ok && final(self)@ == old(self)@.union_prefer_right(other@),
            !disjoint(old(self)@, other@) ==> r == Err::<(), LedgerError>(LedgerError::PartitionInvariantViolation)
                && final(self)@ == old(self)@,
    {
        if !self.is_disjoint(&other) {
            return Err(LedgerError::PartitionInvariantViolation);
        }
        let ghost mine = self@;
        let ghost theirs = other@;
        let mut other = other;
        let mut c: u32 = 0;
        while c <= 0xffff
            invariant
                c <= 0x10000,
                disjoint(mine, theirs),
                forall|k: u16| #[trigger] other@.contains_key(k) <==> (theirs.contains_key(k) && (k as u32) >= c),
                forall|k: u16| #[trigger] other@.contains_key(k) ==> other@[k] == theirs[k],
                forall|k: u16| #[trigger] self@.contains_key(k) <==> (mine.contains_key(k) || (theirs.contains_key(k) && (k as u32) < c)),
                forall|k: u16| #[trigger] self@.contains_key(k) ==> self@[k] == (if mine.contains_key(k) { mine[k] } else { theirs[k] }),
            decreases 0x10000 - c,
        {
            let k = c as u16;
            let ghost s0 = self@;
            let ghost o0 = other@;
            match other.balance_map.remove(&k) {
                Some(b) => {
                    assert(o0.contains_key(k) && o0[k] == b@);
                    assert(theirs.contains_key(k) && !mine.contains_key(k));
                    self.balance_map.insert(k, b);
                    assert(other@ =~= o0.remove(k));
                    assert(self@ =~= s0.insert(k, b@));
                },
                None => {
                    assert(!o0.contains_key(k));
                    assert(!theirs.contains_key(k));
                    assert(other@ =~= o0);
                    assert(self@ =~= s0);
                },
            }
            c = c + 1;
            assert forall|k2: u16| #[trigger] self@.contains_key(k2) <==> (mine.contains_key(k2) || (theirs.contains_key(k2) && (k2 as u32) < c)) by {
                if k2 != k {
                    assert(s0.contains_key(k2) == self@.contains_key(k2));
                }
            }
        }
        assert(self@ =~= mine.union_prefer_right(theirs));
        Ok(())
    }

    /// The clients that have an account, in ascending order.
    pub fn client_ids(&self) -> (r: Vec<ClientId>)
        ensures
            forall|i: int, j: int| 0 <= i < j < r@.len() ==> r@[i].0 < r@[j].0,
            forall|i: int| 0 <= i < r@.len() ==> self@.contains_key(#[trigger] r@[i].0),
            forall|k: u16| #[trigger] self@.contains_key(k) ==> exists|i: int| 0 <= i < r@.len() && r@[i].0 == k,
    {
        let mut r: Vec<ClientId> = Vec::new();
        let mut c: u32 = 0;
        while c <= 0xffff
            invariant
                c <= 0x10000,
                forall|i: int, j: int| 0 <= i < j < r@.len() ==> r@[i].0 < r@[j].0,
                forall|i: int| 0 <= i < r@.len() ==> (r@[i].0 as u32) < c,
                forall|i: int| 0 <= i < r@.len() ==> self@.contains_key(#[trigger] r@[i].0),
                forall|k: u16| #[trigger] self@.contains_key(k) && (k as u32) < c ==> exists|i: int| 0 <= i < r@.len() && r@[i].0 == k,
            decreases 0x10000 - c,
        {
            let k = c as u16;
            if self.balance_map.contains_key(&k) {
                let ghost r0 = r@;
                r.push(ClientId(k));
                proof {
                    assert(r@[r@.len() - 1].0 == k);
                    assert forall|k2: u16| #[trigger] self@.contains_key(k2) && (k2 as u32) < c + 1 implies exists|i: int| 0 <= i < r@.len() && r@[i].0 == k2 by {
                        if k2 == k {
                            assert(r@[r@.len() - 1].0 == k2);
                        } else {
                            let i = choose|i: int| 0 <= i < r0.len() && r0[i].0 == k2;
                            assert(r@[i] == r0[i]);
                        }
                    }
                }
            }
            c = c + 1;
        }
        r
    }

    /// Apply one event to the account it names, opening the account on its
    /// first deposit or withdrawal. On an error nothing changes.
    pub fn process(&mut self, t: Transaction) -> (r: Result<(), LedgerError>)
        ensures
            match process_model(old(self)@, t@) {
                Ok(m) => r is Ok && final(self)@ == m,
                Err(e) => r == Err::<(), LedgerError>(e) && final(self)@ == old(self)@,
            },
    {
        let c = t.client.0;
        match (t.tran_type, t.amount) {
            (TranType::Deposit, None) | (TranType::Withdrawal, None) => {
                return Err(LedgerError::MalformedEvent);
            },
            (TranType::Dispute, Some(_))
            | (TranType::Resolve, Some(_))
            | (TranType::Chargeback, Some(_)) => {
                return Err(LedgerError::MalformedEvent);
            },
            _ => {},
        }
        let ghost before = self@;
        let (mut b, existed) = match self.balance_map.remove(&c) {
            Some(b) => (b, true),
            None => {
                if !t.mints_id() {
                    // partner error, the client for dispute doesn't exist, ignore
                    return Ok(());
                }
                (Balance::new(), false)
            },
        };
        let ghost start = b@;
        proof {
            assert(account_of(before, c).unwrap_or(empty_balance()) == start);
        }
        let r = match t.tran_type {
            TranType::Deposit => match t.amount {
                Some(a) => b.deposit(t.tx, a),
                None => Err(LedgerError::MalformedEvent),
            },
            TranType::Withdrawal => match t.amount {
                Some(a) => b.withdraw(t.tx, a),
                None => Err(LedgerError::MalformedEvent),
            },
            TranType::Dispute => b.dispute(t.tx),
            TranType::Resolve => b.resolve(t.tx),
            TranType::Chargeback => b.chargeback(t.tx),
        };
        if r.is_ok() || existed {
            self.balance_map.insert(c, b);
        }
        proof {
            if r.is_ok() {
                assert(self@ =~= before.insert(c, b@));
            } else if before.contains_key(c) {
                assert(self@ =~= before);
            } else {
                assert(self@ =~= before);
            }
        }
        r
    }
}

} // verus!
