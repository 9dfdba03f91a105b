use vstd::prelude::*;

use crate::balance::BalanceView;
use crate::clients::{account_of, account_step, disjoint, process_model, Clients};
use crate::error::LedgerError;
use crate::transaction::{Transaction, TransactionView};

verus! {

/// Apply a sequence of events to a ledger in order, stopping at the first error.
pub open spec fn run(m: Map<u16, BalanceView>, s: Seq<TransactionView>) -> Result<
    Map<u16, BalanceView>,
    LedgerError,
>
    decreases s.len(),
{
    if s.len() == 0 {
        Ok(m)
    } else {
        match run(m, s.drop_last()) {
            Ok(m2) => process_model(m2, s.last()),
            Err(e) => Err(e),
        }
    }
}

/// Apply a sequence of events to one account (or to its absence), in order,
/// stopping at the first error.
pub open spec fn run_account(acc: Option<BalanceView>, s: Seq<TransactionView>) -> Result<
    Option<BalanceView>,
    LedgerError,
>
    decreases s.len(),
{
    if s.len() == 0 {
        Ok(acc)
    } else {
        match run_account(acc, s.drop_last()) {
            Ok(a2) => account_step(a2, s.last()),
            Err(e) => Err(e),
        }
    }
}

/// The events of `s` that name `client`, in their order in `s`.
pub open spec fn of_client(s: Seq<TransactionView>, client: u16) -> Seq<TransactionView>
    decreases s.len(),
{
    if s.len() == 0 {
        Seq::empty()
    } else if s.last().client == client {
        of_client(s.drop_last(), client).push(s.last())
    } else {
        of_client(s.drop_last(), client)
    }
}

/// Every client's own events apply to its account without error.
pub open spec fn clients_ok(m: Map<u16, BalanceView>, s: Seq<TransactionView>) -> bool {
    forall|c: u16| #[trigger] run_account(account_of(m, c), of_client(s, c)) is Ok
}

/// What replaying `s` on `m` gives each client, read off its own events alone.
pub open spec fn by_client(m: Map<u16, BalanceView>, s: Seq<TransactionView>, c: u16) -> Option<BalanceView> {
    run_account(account_of(m, c), of_client(s, c))->Ok_0
}

/// Replaying a stream on a ledger fails exactly when some client's own
/// events fail on its account; when it succeeds, each client ends where its
/// own events, replayed alone, take it.
pub proof fn lemma_run_by_client(m: Map<u16, BalanceView>, s: Seq<TransactionView>)
    ensures
        run(m, s) is Ok <==> clients_ok(m, s),
        run(m, s) is Ok ==> forall|c: u16| #[trigger] account_of(run(m, s)->Ok_0, c) == by_client(m, s, c),
    decreases s.len(),
{
    if s.len() == 0 {
        assert forall|c: u16| #[trigger] run_account(account_of(m, c), of_client(s, c)) is Ok by {
            assert(of_client(s, c).len() == 0);
        }
    } else {
        let p = s.drop_last();
        let e = s.last();
        lemma_run_by_client(m, p);
        match run(m, p) {
            Ok(m2) => {
                assert forall|c: u16| c != e.client implies #[trigger] of_client(s, c) == of_client(p, c) by {}
                assert(of_client(s, e.client) == of_client(p, e.client).push(e));
                assert(of_client(p, e.client).push(e).drop_last() == of_client(p, e.client));
                let r = run_account(account_of(m, e.client), of_client(s, e.client));
                assert(r == account_step(account_of(m2, e.client), e));
                if run(m, s) is Ok {
                    assert forall|c: u16| #[trigger] run_account(account_of(m, c), of_client(s, c)) is Ok by {
                        if c != e.client {
                            assert(of_client(s, c) == of_client(p, c));
                        }
                    }
                    assert forall|c: u16| #[trigger] account_of(run(m, s)->Ok_0, c) == by_client(m, s, c) by {
                        if c != e.client {
                            assert(of_client(s, c) == of_client(p, c));
                            assert(account_of(m2, c) == by_client(m, p, c));
                        }
                    }
                } else {
                    assert(!(run_account(account_of(m, e.client), of_client(s, e.client)) is Ok));
                }
            },
            Err(_) => {
                let c = choose|c: u16| !(#[trigger] run_account(account_of(m, c), of_client(p, c)) is Ok);
                if c == e.client {
                    assert(of_client(s, c) == of_client(p, c).push(e));
                    assert(of_client(p, c).push(e).drop_last() == of_client(p, c));
                } else {
                    assert(of_client(s, c) == of_client(p, c));
                }
                assert(!(run_account(account_of(m, c), of_client(s, c)) is Ok));
            },
        }
    }
}

/// Two streams that hold the same events for each client, in the same
/// order per client, however they interleave across clients, either both
/// fail or both leave the ledger in the same state.
pub proof fn lemma_interleaving_irrelevant(
    m: Map<u16, BalanceView>,
    s1: Seq<TransactionView>,
    s2: Seq<TransactionView>,
)
    requires
        forall|c: u16| #[trigger] of_client(s1, c) == of_client(s2, c),
    ensures
        run(m, s1) is Ok <==> run(m, s2) is Ok,
        run(m, s1) is Ok ==> run(m, s1) == run(m, s2),
{
    lemma_run_by_client(m, s1);
    lemma_run_by_client(m, s2);
    assert(clients_ok(m, s1) == clients_ok(m, s2)) by {
        assert forall|c: u16| #[trigger] run_account(account_of(m, c), of_client(s1, c))
            == run_account(account_of(m, c), of_client(s2, c)) by {
            assert(of_client(s1, c) == of_client(s2, c));
        }
    }
    if run(m, s1) is Ok {
        let a = run(m, s1)->Ok_0;
        let b = run(m, s2)->Ok_0;
        assert forall|c: u16| #[trigger] account_of(a, c) == account_of(b, c) by {
            assert(of_client(s1, c) == of_client(s2, c));
            assert(account_of(a, c) == by_client(m, s1, c));
            assert(account_of(b, c) == by_client(m, s2, c));
        }
        assert forall|c: u16| a.contains_key(c) == b.contains_key(c) by {
            assert(account_of(a, c) == account_of(b, c));
        }
        assert forall|c: u16| a.contains_key(c) implies a[c] == b[c] by {
            assert(account_of(a, c) == account_of(b, c));
        }
        assert(a =~= b);
    }
}

/// A stream with no event of `client` has nothing for it.
pub proof fn lemma_absent_client(s: Seq<TransactionView>, client: u16)
    requires
        forall|i: int| 0 <= i < s.len() ==> (#[trigger] s[i]).client != client,
    ensures
        of_client(s, client).len() == 0,
    decreases s.len(),
{
    if s.len() > 0 {
        assert(s.last() == s[s.len() - 1]);
        assert forall|i: int| 0 <= i < s.drop_last().len() implies (#[trigger] s.drop_last()[i]).client
            != client by {
            assert(s.drop_last()[i] == s[i]);
        }
        lemma_absent_client(s.drop_last(), client);
    }
}

/// Two lanes that start empty and see only the events of their own clients
/// (those whose id leaves the lane's remainder) end with ledgers that share
/// no client, so merging them cannot collide.
pub proof fn lemma_lane_ledgers_disjoint(
    s1: Seq<TransactionView>,
    s2: Seq<TransactionView>,
    lanes: u16,
    lane1: u16,
    lane2: u16,
)
    requires
        lanes > 0,
        lane1 != lane2,
        forall|i: int| 0 <= i < s1.len() ==> (#[trigger] s1[i]).client % lanes == lane1,
        forall|i: int| 0 <= i < s2.len() ==> (#[trigger] s2[i]).client % lanes == lane2,
        run(Map::empty(), s1) is Ok,
        run(Map::empty(), s2) is Ok,
    ensures
        disjoint(run(Map::empty(), s1)->Ok_0, run(Map::empty(), s2)->Ok_0),
{
    let m = Map::<u16, BalanceView>::empty();
    lemma_run_by_client(m, s1);
    lemma_run_by_client(m, s2);
    assert forall|c: u16| !(#[trigger] run(m, s1)->Ok_0.contains_key(c) && run(m, s2)->Ok_0.contains_key(c)) by {
        if c % lanes != lane1 {
            lemma_absent_client(s1, c);
            assert(of_client(s1, c) =~= Seq::<TransactionView>::empty());
            assert(account_of(run(m, s1)->Ok_0, c) == by_client(m, s1, c));
        } else {
            lemma_absent_client(s2, c);
            assert(of_client(s2, c) =~= Seq::<TransactionView>::empty());
            assert(account_of(run(m, s2)->Ok_0, c) == by_client(m, s2, c));
        }
    }
}

/// The events of `s` routed to lane `lane` of `lanes`, in their order in `s`.
pub open spec fn of_lane(s: Seq<TransactionView>, lanes: u16, lane: u16) -> Seq<TransactionView>
    decreases s.len(),
{
    if s.len() == 0 {
        Seq::empty()
    } else if s.last().client % lanes == lane {
        of_lane(s.drop_last(), lanes, lane).push(s.last())
    } else {
        of_lane(s.drop_last(), lanes, lane)
    }
}

/// A client's lane holds all of that client's events, in stream order.
pub proof fn lemma_lane_keeps_client(s: Seq<TransactionView>, lanes: u16, client: u16)
    requires
        lanes > 0,
    ensures
        of_client(of_lane(s, lanes, client % lanes), client) == of_client(s, client),
    decreases s.len(),
{
    if s.len() > 0 {
        let p = s.drop_last();
        let e = s.last();
        let l = client % lanes;
        lemma_lane_keeps_client(p, lanes, client);
        if e.client % lanes == l {
            let q = of_lane(p, lanes, l).push(e);
            assert(q.drop_last() == of_lane(p, lanes, l));
            assert(q.last() == e);
        }
    }
}

/// A lane holds no event of a client routed elsewhere.
pub proof fn lemma_lane_lacks_client(s: Seq<TransactionView>, lanes: u16, lane: u16, client: u16)
    requires
        lanes > 0,
        client % lanes != lane,
    ensures
        of_client(of_lane(s, lanes, lane), client).len() == 0,
    decreases s.len(),
{
    if s.len() > 0 {
        let p = s.drop_last();
        let e = s.last();
        lemma_lane_lacks_client(p, lanes, lane, client);
        if e.client % lanes == lane {
            let q = of_lane(p, lanes, lane).push(e);
            assert(q.drop_last() == of_lane(p, lanes, lane));
            assert(q.last() == e);
        }
    }
}

/// Sharding is sound: replaying the whole stream on one ledger succeeds
/// exactly when each lane's share of it succeeds on a ledger of its own,
/// and then every client's account is the one that its lane computed.
pub proof fn lemma_sharded_replay(s: Seq<TransactionView>, lanes: u16)
    requires
        lanes > 0,
    ensures
        run(Map::empty(), s) is Ok <==> forall|l: u16| l < lanes ==> (#[trigger] run(Map::empty(), of_lane(s, lanes, l))) is Ok,
        run(Map::empty(), s) is Ok ==> forall|c: u16| #[trigger] account_of(run(Map::empty(), s)->Ok_0, c)
            == account_of(run(Map::empty(), of_lane(s, lanes, c % lanes))->Ok_0, c),
{
    let m = Map::<u16, BalanceView>::empty();
    lemma_run_by_client(m, s);
    assert forall|l: u16| l < lanes && clients_ok(m, s) implies #[trigger] run(m, of_lane(s, lanes, l)) is Ok by {
        lemma_run_by_client(m, of_lane(s, lanes, l));
        if clients_ok(m, s) {
            assert forall|c: u16| #[trigger] run_account(account_of(m, c), of_client(of_lane(s, lanes, l), c)) is Ok by {
                if c % lanes == l {
                    lemma_lane_keeps_client(s, lanes, c);
                    assert(run_account(account_of(m, c), of_client(s, c)) is Ok);
                } else {
                    lemma_lane_lacks_client(s, lanes, l, c);
                    assert(of_client(of_lane(s, lanes, l), c) =~= Seq::<TransactionView>::empty());
                }
            }
        }
    }
    if forall|l: u16| l < lanes ==> (#[trigger] run(m, of_lane(s, lanes, l))) is Ok {
        assert forall|c: u16| #[trigger] run_account(account_of(m, c), of_client(s, c)) is Ok by {
            let l = (c % lanes) as u16;
            assert(run(m, of_lane(s, lanes, l)) is Ok);
            lemma_run_by_client(m, of_lane(s, lanes, l));
            lemma_lane_keeps_client(s, lanes, c);
            assert(run_account(account_of(m, c), of_client(of_lane(s, lanes, l), c)) is Ok);
        }
    }
    if run(m, s) is Ok {
        assert forall|c: u16| #[trigger] account_of(run(m, s)->Ok_0, c) == account_of(
            run(m, of_lane(s, lanes, c % lanes))->Ok_0,
            c,
        ) by {
            let l = (c % lanes) as u16;
            assert(run(m, of_lane(s, lanes, l)) is Ok);
            lemma_run_by_client(m, of_lane(s, lanes, l));
            lemma_lane_keeps_client(s, lanes, c);
            assert(account_of(run(m, s)->Ok_0, c) == by_client(m, s, c));
            assert(account_of(run(m, of_lane(s, lanes, l))->Ok_0, c) == by_client(m, of_lane(s, lanes, l), c));
        }
    }
}

/// The views of a sequence of events.
pub open spec fn views(events: Seq<Transaction>) -> Seq<TransactionView> {
    events.map_values(|t: Transaction| t@)
}

impl Clients {
    /// Apply `events` in order, stopping at the first error.
    pub fn process_all(&mut self, events: &Vec<Transaction>) -> (r: Result<(), LedgerError>)
        ensures
            match run(old(self)@, views(events@)) {
                Ok(m) => r is Ok && final(self)@ == m,
                Err(e) => r == Err::<(), LedgerError>(e),
            },
    {
        let ghost start = self@;
        let ghost s = views(events@);
        let mut i: usize = 0;
        while i < events.len()
            invariant
                i <= events@.len(),
                s == views(events@),
                start == old(self)@,
                run(start, s.take(i as int)) == Ok::<Map<u16, BalanceView>, LedgerError>(self@),
            decreases events@.len() - i,
        {
            let ghost before = self@;
            proof {
                assert(s.take(i as int + 1).drop_last() =~= s.take(i as int));
                assert(s.take(i as int + 1).last() == events@[i as int]@);
                assert(run(start, s.take(i as int + 1)) == process_model(before, events@[i as int]@));
            }
            match self.process(events[i]) {
                Ok(()) => {},
                Err(e) => {
                    proof {
                        assert(process_model(before, events@[i as int]@) == Err::<Map<u16, BalanceView>, LedgerError>(e));
                        lemma_run_stays_failed(start, s, i as int + 1);
                        assert(run(start, s) == Err::<Map<u16, BalanceView>, LedgerError>(e));
                    }
                    return Err(e);
                },
            }
            i = i + 1;
        }
        assert(s.take(i as int) =~= s);
        Ok(())
    }
}

/// Once a prefix of a stream fails, the whole stream fails the same way.
pub proof fn lemma_run_stays_failed(m: Map<u16, BalanceView>, s: Seq<TransactionView>, n: int)
    requires
        0 <= n <= s.len(),
        run(m, s.take(n)) is Err,
    ensures
        run(m, s) == run(m, s.take(n)),
    decreases s.len() - n,
{
    if n < s.len() {
        assert(s.take(n + 1).drop_last() =~= s.take(n));
        lemma_run_stays_failed(m, s, n + 1);
    } else {
        assert(s.take(n) =~= s);
    }
}

} // verus!
