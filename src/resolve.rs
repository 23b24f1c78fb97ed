use vstd::prelude::*;
use crate::schema::{ActionHash, AnyLinkableHash, LinkTypes};
use crate::store::{
    entry_at, is_deleted, is_live, is_update_of, links_of, record_of, refers_back, store_wf, updates_of,
    updates_upto, Link, Record, SignedAction, Store, UpdateRef, MAX_ACTIONS,
};
use crate::validation::BookieError;

verus! {

/// The successor with the greatest timestamp; of equal timestamps, the one
/// stored last.
pub open spec fn latest_update(us: Seq<UpdateRef>) -> Option<UpdateRef>
    decreases us.len(),
{
    if us.len() == 0 {
        None
    } else {
        let last = us.last();
        match latest_update(us.drop_last()) {
            None => Some(last),
            Some(p) => if p.timestamp.0 <= last.timestamp.0 {
                Some(last)
            } else {
                Some(p)
            },
        }
    }
}

/// The pick is one of the candidates, and none is later.
pub proof fn lemma_latest_update_is_latest(us: Seq<UpdateRef>)
    ensures
        latest_update(us) is Some == (us.len() > 0),
        latest_update(us) is Some ==> us.contains(latest_update(us)->Some_0),
        latest_update(us) is Some ==> forall|i: int|
            0 <= i < us.len() ==> #[trigger] us[i].timestamp.0 <= latest_update(us)->Some_0.timestamp.0,
    decreases us.len(),
{
    if us.len() > 0 {
        let init = us.drop_last();
        lemma_latest_update_is_latest(init);
        if latest_update(init) is Some {
            let p = latest_update(init)->Some_0;
            let j = choose|j: int| 0 <= j < init.len() && init[j] == p;
            assert(us[j] == p);
        }
        assert(us[us.len() - 1] == us.last());
        assert forall|i: int| 0 <= i < us.len() implies #[trigger] us[i].timestamp.0 <= latest_update(us)->Some_0.timestamp.0 by {
            if i < us.len() - 1 {
                assert(us[i] == init[i]);
            }
        }
    }
}

/// Picks the successor with the greatest timestamp, the last of equals.
pub fn pick_latest(us: &Vec<UpdateRef>) -> (r: Option<UpdateRef>)
    ensures
        r == latest_update(us@),
        r is Some == (us@.len() > 0),
        r is Some ==> us@.contains(r->Some_0),
        r is Some ==> forall|i: int| 0 <= i < us@.len() ==> #[trigger] us@[i].timestamp.0 <= r->Some_0.timestamp.0,
{
    let mut best: Option<UpdateRef> = None;
    let mut i: usize = 0;
    while i < us.len()
        invariant
            i <= us.len(),
            best == latest_update(us@.take(i as int)),
        decreases us.len() - i,
    {
        let u = us[i];
        assert(us@.take(i as int + 1).drop_last() =~= us@.take(i as int));
        best = match best {
            None => Some(u),
            Some(p) => if p.timestamp.0 <= u.timestamp.0 {
                Some(u)
            } else {
                Some(p)
            },
        };
        i = i + 1;
    }
    assert(us@.take(us@.len() as int) =~= us@);
    proof {
        lemma_latest_update_is_latest(us@);
    }
    best
}

/// The terminal address of the successor chain from `h`, walking at most `fuel`
/// successors: absent where a visited node carries a tombstone.
pub open spec fn resolve_chain(s: Seq<SignedAction>, h: ActionHash, fuel: nat) -> Result<Option<ActionHash>, BookieError>
    decreases fuel,
{
    if entry_at(s, h) is None {
        Err(BookieError::NotFound)
    } else if is_deleted(s, h) {
        Ok(None)
    } else {
        match latest_update(updates_of(s, h)) {
            None => Ok(Some(h)),
            Some(u) => if fuel == 0 {
                Err(BookieError::MalformedData)
            } else {
                resolve_chain(s, u.action_hash, (fuel - 1) as nat)
            },
        }
    }
}

/// The current state of the object created at `h`: the walk may visit at most
/// as many successors as the store holds actions.
pub open spec fn resolve_latest(s: Seq<SignedAction>, h: ActionHash) -> Result<Option<ActionHash>, BookieError> {
    resolve_chain(s, h, s.len() as nat)
}

/// `r` is what a lookup returns when the chain resolves to `res`.
pub open spec fn resolved_as(r: Result<Option<Record>, BookieError>, s: Seq<SignedAction>, res: Result<Option<ActionHash>, BookieError>) -> bool {
    match res {
        Ok(Some(t)) => r is Ok && r->Ok_0 is Some && record_of(r->Ok_0->Some_0, s, t),
        Ok(None) => r == Ok::<Option<Record>, BookieError>(None),
        Err(e) => r == Err::<Option<Record>, BookieError>(e),
    }
}

/// Every listed successor of `h` is an update of `h` stored before `n`.
pub proof fn lemma_updates_upto(s: Seq<SignedAction>, h: ActionHash, n: int)
    requires
        0 <= n <= s.len(),
        s.len() <= MAX_ACTIONS,
    ensures
        forall|k: int| 0 <= k < updates_upto(s, h, n).len() ==> {
            let u = #[trigger] updates_upto(s, h, n)[k];
            &&& 0 <= u.action_hash.0 < n
            &&& is_update_of(s[u.action_hash.0 as int], h)
            &&& u.timestamp == s[u.action_hash.0 as int].timestamp
        },
    decreases n,
{
    if n > 0 {
        lemma_updates_upto(s, h, n - 1);
        let p = updates_upto(s, h, n - 1);
        let q = updates_upto(s, h, n);
        assert forall|k: int| 0 <= k < q.len() implies {
            let u = #[trigger] q[k];
            &&& 0 <= u.action_hash.0 < n
            &&& is_update_of(s[u.action_hash.0 as int], h)
            &&& u.timestamp == s[u.action_hash.0 as int].timestamp
        } by {
            if k < p.len() {
                assert(q[k] == p[k]);
            }
        }
    }
}

/// In a well-formed store a successor is stored after what it supersedes.
pub proof fn lemma_successor_is_later(s: Seq<SignedAction>, h: ActionHash)
    requires
        store_wf(s),
    ensures
        latest_update(updates_of(s, h)) is Some ==> {
            let u = latest_update(updates_of(s, h))->Some_0;
            &&& h.0 < u.action_hash.0 < s.len()
            &&& is_update_of(s[u.action_hash.0 as int], h)
        },
{
    let us = updates_of(s, h);
    lemma_latest_update_is_latest(us);
    lemma_updates_upto(s, h, s.len() as int);
    if latest_update(us) is Some {
        let u = latest_update(us)->Some_0;
        let k = choose|k: int| 0 <= k < us.len() && us[k] == u;
        assert(us[k] == u);
        assert(refers_back(s[u.action_hash.0 as int], u.action_hash.0 as int));
    }
}

/// With fuel for every later position, the walk never runs out: in a
/// well-formed store the bound on the walk only guards malformed chains.
pub proof fn lemma_chain_fuel_suffices(s: Seq<SignedAction>, h: ActionHash, fuel: nat)
    requires
        store_wf(s),
        h.0 + fuel + 1 >= s.len(),
    ensures
        resolve_chain(s, h, fuel) != Err::<Option<ActionHash>, BookieError>(BookieError::MalformedData),
    decreases fuel,
{
    lemma_successor_is_later(s, h);
    if entry_at(s, h) is Some && !is_deleted(s, h) && latest_update(updates_of(s, h)) is Some && fuel > 0 {
        let u = latest_update(updates_of(s, h))->Some_0;
        lemma_chain_fuel_suffices(s, u.action_hash, (fuel - 1) as nat);
    }
}

/// Walks the successor chain from `h` to its current record: absent as soon as
/// a visited node carries a tombstone, else the latest successor is followed,
/// and a node without successors is the current state.
pub fn get_latest(store: &Store, h: ActionHash) -> (r: Result<Option<Record>, BookieError>)
    requires
        store.wf(),
    ensures
        resolved_as(r, store@, resolve_latest(store@, h)),
        r != Err::<Option<Record>, BookieError>(BookieError::MalformedData),
{
    let ghost s = store@;
    proof {
        lemma_chain_fuel_suffices(s, h, s.len() as nat);
    }
    let mut cur = h;
    let mut fuel: usize = store.len();
    loop
        invariant
            s == store@,
            store.wf(),
            resolve_chain(s, cur, fuel as nat) == resolve_latest(s, h),
            resolve_latest(s, h) != Err::<Option<ActionHash>, BookieError>(BookieError::MalformedData),
        decreases fuel,
    {
        let details = match store.get_details(cur) {
            Some(d) => d,
            None => return Err(BookieError::NotFound),
        };
        if details.deletes.len() > 0 {
            return Ok(None);
        }
        match pick_latest(&details.updates) {
            None => return Ok(Some(details.record)),
            Some(u) => {
                if fuel == 0 {
                    return Err(BookieError::MalformedData);
                }
                fuel = fuel - 1;
                cur = u.action_hash;
            },
        }
    }
}

/// The edges' successors as candidates for the latest version.
pub open spec fn link_refs(ls: Seq<Link>) -> Seq<UpdateRef> {
    ls.map_values(|l: Link| UpdateRef { action_hash: l.target_address, timestamp: l.timestamp })
}

/// The address a Resource's latest version lives at: the target of the latest
/// `ResourceUpdates` edge from the original, or the original itself.
pub open spec fn resource_head(s: Seq<SignedAction>, h: ActionHash) -> ActionHash {
    match latest_update(link_refs(links_of(s, AnyLinkableHash::Action(h), LinkTypes::ResourceUpdates))) {
        Some(u) => u.action_hash,
        None => h,
    }
}

/// Resolves a Resource through its explicit update edges, then looks the head
/// up directly.
pub fn get_resource_head(store: &Store, h: ActionHash) -> (r: Option<Record>)
    requires
        store.wf(),
    ensures
        r is Some == is_live(store@, resource_head(store@, h)),
        r is Some ==> record_of(r->Some_0, store@, resource_head(store@, h)),
{
    let links = store.get_links(AnyLinkableHash::Action(h), LinkTypes::ResourceUpdates);
    let mut refs: Vec<UpdateRef> = Vec::new();
    let mut i: usize = 0;
    while i < links.len()
        invariant
            i <= links.len(),
            refs@ == link_refs(links@.take(i as int)),
        decreases links.len() - i,
    {
        refs.push(UpdateRef { action_hash: links[i].target_address, timestamp: links[i].timestamp });
        i = i + 1;
        assert(refs@ =~= link_refs(links@.take(i as int)));
    }
    assert(links@.take(links@.len() as int) =~= links@);
    let head = match pick_latest(&refs) {
        Some(u) => u.action_hash,
        None => h,
    };
    store.get(head)
}

} // verus!
