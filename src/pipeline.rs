use std::collections::HashSet;
use vstd::prelude::*;

use crate::error::LedgerError;
use crate::ids::ClientId;
use crate::transaction::{mints_id, Transaction, TransactionView};

verus! {

broadcast use vstd::std_specs::hash::group_hash_axioms;

/// The header names an input may have, in any order.
pub open spec fn known_header(h: Seq<char>) -> bool {
    h == seq!['t', 'y', 'p', 'e'] || h == seq!['c', 'l', 'i', 'e', 'n', 't'] || h == seq!['t', 'x']
        || h == seq!['a', 'm', 'o', 'u', 'n', 't']
}

/// Whether `h` is one of the header names an input may have.
pub fn is_known_header(h: &str) -> (r: bool)
    ensures
        r == known_header(h@),
{
    let h = h.to_owned();
    proof {
        reveal_strlit("type");
        reveal_strlit("client");
        reveal_strlit("tx");
        reveal_strlit("amount");
        assert("type"@ =~= seq!['t', 'y', 'p', 'e']);
        assert("client"@ =~= seq!['c', 'l', 'i', 'e', 'n', 't']);
        assert("tx"@ =~= seq!['t', 'x']);
        assert("amount"@ =~= seq!['a', 'm', 'o', 'u', 'n', 't']);
    }
    let t = h == "type".to_owned();
    let c = h == "client".to_owned();
    let x = h == "tx".to_owned();
    let a = h == "amount".to_owned();
    t || c || x || a
}

/// Whether every name in `headers` is one an input may have.
pub fn all_known_headers(headers: &Vec<String>) -> (r: bool)
    ensures
        r == forall|i: int| 0 <= i < headers@.len() ==> known_header(#[trigger] headers@[i]@),
{
    let mut i: usize = 0;
    while i < headers.len()
        invariant
            i <= headers@.len(),
            forall|j: int| 0 <= j < i ==> known_header(#[trigger] headers@[j]@),
        decreases headers@.len() - i,
    {
        if !is_known_header(headers[i].as_str()) {
            return false;
        }
        i = i + 1;
    }
    true
}

/// The number of lanes for a machine with `cpus` execution units: one per
/// unit, at least one, and no more than there are client ids.
pub fn lane_count(cpus: usize) -> (r: u16)
    ensures
        r as int == if cpus == 0 { 1 } else if cpus > 0xffff { 0xffff } else { cpus as int },
{
    if cpus == 0 {
        1
    } else if cpus > 0xffff {
        0xffff
    } else {
        cpus as u16
    }
}

/// The lane that handles every event of `client`.
pub fn lane_of(client: ClientId, lanes: u16) -> (r: u16)
    requires
        lanes > 0,
    ensures
        r == client.0 % lanes,
        r < lanes,
{
    client.0 % lanes
}

/// Route one event: a deposit or withdrawal whose id was already seen is
/// refused; otherwise its id joins the seen set and the event goes to its
/// client's lane.
pub open spec fn route_model(seen: Set<u32>, lanes: u16, t: TransactionView) -> Result<
    (Set<u32>, u16),
    LedgerError,
> {
    if mints_id(t.kind) && seen.contains(t.tx) {
        Err(LedgerError::DuplicateTransaction)
    } else if mints_id(t.kind) {
        Ok((seen.insert(t.tx), (t.client % lanes) as u16))
    } else {
        Ok((seen, (t.client % lanes) as u16))
    }
}

/// The single stage ahead of the lanes: it checks that transaction ids are
/// unique across the whole stream and picks each event's lane.
#[derive(Debug)]
pub struct Dispatcher {
    seen: HashSet<u32>,
    lanes: u16,
}

impl Dispatcher {
    /// The ids seen so far.
    pub closed spec fn seen(&self) -> Set<u32> {
        self.seen@
    }

    pub closed spec fn spec_lanes(&self) -> u16 {
        self.lanes
    }

    /// A dispatcher over `lanes` lanes that has seen nothing yet.
    pub fn new(lanes: u16) -> (r: Self)
        requires
            lanes > 0,
        ensures
            r.seen() == Set::<u32>::empty(),
            r.spec_lanes() == lanes,
    {
        Dispatcher { seen: HashSet::new(), lanes }
    }

    pub fn lanes(&self) -> (r: u16)
        ensures
            r == self.spec_lanes(),
    {
        self.lanes
    }

    /// The lane for `t`, or the error that stops the run before any lane
    /// sees it.
    pub fn route(&mut self, t: &Transaction) -> (r: Result<u16, LedgerError>)
        requires
            old(self).spec_lanes() > 0,
        ensures
            final(self).spec_lanes() == old(self).spec_lanes(),
            match route_model(old(self).seen(), old(self).spec_lanes(), t@) {
                Ok((s, lane)) => r == Ok::<u16, LedgerError>(lane) && final(self).seen() == s,
                Err(e) => r == Err::<u16, LedgerError>(e) && final(self).seen() == old(self).seen(),
            },
    {
        if t.mints_id() {
            if self.seen.contains(&t.tx.0) {
                return Err(LedgerError::DuplicateTransaction);
            }
            self.seen.insert(t.tx.0);
        }
        Ok(lane_of(t.client, self.lanes))
    }
}

/// A deposit or withdrawal that reuses the id of an earlier one is refused
/// by the dispatcher, whichever clients the two name, so no ledger sees it.
pub proof fn lemma_global_id_reuse(
    seen: Set<u32>,
    lanes: u16,
    first: TransactionView,
    second: TransactionView,
)
    requires
        lanes > 0,
        mints_id(first.kind),
        mints_id(second.kind),
        first.tx == second.tx,
        route_model(seen, lanes, first) is Ok,
    ensures
        route_model(route_model(seen, lanes, first)->Ok_0.0, lanes, second) == Err::<
            (Set<u32>, u16),
            LedgerError,
        >(LedgerError::DuplicateTransaction),
{
}

/// Every event of one client goes to the same lane.
pub proof fn lemma_client_keeps_lane(
    seen1: Set<u32>,
    seen2: Set<u32>,
    lanes: u16,
    a: TransactionView,
    b: TransactionView,
)
    requires
        lanes > 0,
        a.client == b.client,
        route_model(seen1, lanes, a) is Ok,
        route_model(seen2, lanes, b) is Ok,
    ensures
        route_model(seen1, lanes, a)->Ok_0.1 == route_model(seen2, lanes, b)->Ok_0.1,
{
}

} // verus!
