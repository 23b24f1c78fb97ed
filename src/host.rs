use vstd::prelude::*;
use crate::schema::{ActionHash, AgentPubKey, AnyLinkableHash, EntryTypes, LinkTypes, Timestamp};
use crate::store::{
    entry_at, is_deleted, is_tombstone_of, is_link_removal_of, link_removed, is_update_of, refers_back, store_wf, updates_upto, is_live_link, links_upto, links_of, link_at, is_live, record_of, Link, Record, Action,
    SignedAction, Store, MAX_ACTIONS,
};
use crate::validation::{commit, commit_outcome, commit_state, BookieError};
use crate::resolve::resolve_chain;

verus! {

/// The acting identity and its clock, handed to every operation that writes.
#[derive(Clone, Copy, Debug, PartialEq, Eq, Structural)]
pub struct AgentContext {
    pub agent: AgentPubKey,
    pub now: Timestamp,
}

pub open spec fn signed(ctx: AgentContext, a: Action) -> SignedAction {
    SignedAction { author: ctx.agent, timestamp: ctx.now, action: a }
}

pub open spec fn link_action(base: AnyLinkableHash, target: ActionHash, t: LinkTypes) -> Action {
    Action::CreateLink { base_address: base, target_address: target, link_type: t }
}

/// Stores a new entry.
pub fn create_entry(store: &mut Store, ctx: AgentContext, entry: EntryTypes) -> (r: Result<ActionHash, BookieError>)
    requires
        old(store).wf(),
    ensures
        final(store).wf(),
        r == commit_outcome(old(store)@, signed(ctx, Action::Create { entry })),
        final(store)@ == commit_state(old(store)@, signed(ctx, Action::Create { entry })),
{
    commit(store, SignedAction { author: ctx.agent, timestamp: ctx.now, action: Action::Create { entry } })
}

/// Stores a successor of `original`.
pub fn update_entry(store: &mut Store, ctx: AgentContext, original: ActionHash, entry: EntryTypes) -> (r: Result<ActionHash, BookieError>)
    requires
        old(store).wf(),
    ensures
        final(store).wf(),
        r == commit_outcome(old(store)@, signed(ctx, Action::Update { original_action_address: original, entry })),
        final(store)@ == commit_state(old(store)@, signed(ctx, Action::Update { original_action_address: original, entry })),
{
    commit(
        store,
        SignedAction { author: ctx.agent, timestamp: ctx.now, action: Action::Update { original_action_address: original, entry } },
    )
}

/// Stores a tombstone of `h`.
pub fn delete_entry(store: &mut Store, ctx: AgentContext, h: ActionHash) -> (r: Result<ActionHash, BookieError>)
    requires
        old(store).wf(),
    ensures
        final(store).wf(),
        r == commit_outcome(old(store)@, signed(ctx, Action::Delete { deletes_address: h })),
        final(store)@ == commit_state(old(store)@, signed(ctx, Action::Delete { deletes_address: h })),
{
    commit(store, SignedAction { author: ctx.agent, timestamp: ctx.now, action: Action::Delete { deletes_address: h } })
}

/// Stores an edge.
pub fn create_link(store: &mut Store, ctx: AgentContext, base: AnyLinkableHash, target: ActionHash, t: LinkTypes) -> (r: Result<ActionHash, BookieError>)
    requires
        old(store).wf(),
    ensures
        final(store).wf(),
        r == commit_outcome(old(store)@, signed(ctx, link_action(base, target, t))),
        final(store)@ == commit_state(old(store)@, signed(ctx, link_action(base, target, t))),
{
    commit(
        store,
        SignedAction {
            author: ctx.agent,
            timestamp: ctx.now,
            action: Action::CreateLink { base_address: base, target_address: target, link_type: t },
        },
    )
}

/// Removes the edge created at `link_add`.
pub fn delete_link(store: &mut Store, ctx: AgentContext, link_add: ActionHash) -> (r: Result<ActionHash, BookieError>)
    requires
        old(store).wf(),
    ensures
        final(store).wf(),
        r == commit_outcome(old(store)@, signed(ctx, Action::DeleteLink { link_add_address: link_add })),
        final(store)@ == commit_state(old(store)@, signed(ctx, Action::DeleteLink { link_add_address: link_add })),
{
    commit(store, SignedAction { author: ctx.agent, timestamp: ctx.now, action: Action::DeleteLink { link_add_address: link_add } })
}

/// Whether the action neither supersedes nor deletes `h`.
pub open spec fn leaves_alone(a: SignedAction, h: ActionHash) -> bool {
    !is_update_of(a, h) && !is_tombstone_of(a, h)
}

/// With no successor stored, the list of successors is empty.
pub proof fn lemma_no_updates(s: Seq<SignedAction>, h: ActionHash, n: int)
    requires
        0 <= n <= s.len(),
        forall|i: int| 0 <= i < n ==> !#[trigger] is_update_of(s[i], h),
    ensures
        updates_upto(s, h, n) == Seq::<crate::store::UpdateRef>::empty(),
    decreases n,
{
    if n > 0 {
        lemma_no_updates(s, h, n - 1);
    }
}

/// An entry that nothing after it supersedes or deletes is its own current state.
pub proof fn lemma_untouched_entry_resolves(s: Seq<SignedAction>, h: ActionHash, fuel: nat)
    requires
        store_wf(s),
        entry_at(s, h) is Some,
        forall|i: int| h.0 < i < s.len() ==> leaves_alone(#[trigger] s[i], h),
    ensures
        resolve_chain(s, h, fuel) == Ok::<Option<ActionHash>, BookieError>(Some(h)),
{
    assert forall|i: int| 0 <= i < s.len() implies !#[trigger] is_update_of(s[i], h) by {
        assert(refers_back(s[i], i));
        if h.0 < i {
            assert(leaves_alone(s[i], h));
        }
    }
    assert forall|i: int| 0 <= i < s.len() implies !#[trigger] is_tombstone_of(s[i], h) by {
        assert(refers_back(s[i], i));
        if h.0 < i {
            assert(leaves_alone(s[i], h));
        }
    }
    lemma_no_updates(s, h, s.len() as int);
    assert(!is_deleted(s, h));
}

/// With no edge of kind `t` from `base` stored, none is listed.
pub proof fn lemma_no_links(s: Seq<SignedAction>, base: AnyLinkableHash, t: LinkTypes, n: int)
    requires
        0 <= n <= s.len(),
        forall|i: int| 0 <= i < n ==> !#[trigger] is_live_link(s, i, base, t),
    ensures
        links_upto(s, base, t, n) == Seq::<crate::store::Link>::empty(),
    decreases n,
{
    if n > 0 {
        lemma_no_links(s, base, t, n - 1);
    }
}

/// Every listed edge is the live edge of kind `t` from `base` created at its
/// own address, stored before `n`.
pub proof fn lemma_links_upto(s: Seq<SignedAction>, base: AnyLinkableHash, t: LinkTypes, n: int)
    requires
        0 <= n <= s.len(),
        s.len() <= MAX_ACTIONS,
    ensures
        forall|k: int| 0 <= k < links_upto(s, base, t, n).len() ==> {
            let l = #[trigger] links_upto(s, base, t, n)[k];
            &&& 0 <= l.create_link_hash.0 < n
            &&& is_live_link(s, l.create_link_hash.0 as int, base, t)
            &&& link_at(s, l.create_link_hash.0 as int) == Some(l)
        },
    decreases n,
{
    if n > 0 {
        lemma_links_upto(s, base, t, n - 1);
        let p = links_upto(s, base, t, n - 1);
        let q = links_upto(s, base, t, n);
        assert forall|k: int| 0 <= k < q.len() implies {
            let l = #[trigger] q[k];
            &&& 0 <= l.create_link_hash.0 < n
            &&& is_live_link(s, l.create_link_hash.0 as int, base, t)
            &&& link_at(s, l.create_link_hash.0 as int) == Some(l)
        } by {
            if k < p.len() {
                assert(q[k] == p[k]);
            }
        }
    }
}

pub proof fn lemma_links_len(s: Seq<SignedAction>, base: AnyLinkableHash, t: LinkTypes, n: int)
    requires
        0 <= n,
    ensures
        links_upto(s, base, t, n).len() <= n,
    decreases n,
{
    if n > 0 {
        lemma_links_len(s, base, t, n - 1);
    }
}

/// The targets of `ls` that a point lookup finds, in order.
pub open spec fn live_targets(s: Seq<SignedAction>, ls: Seq<Link>) -> Seq<ActionHash>
    decreases ls.len(),
{
    if ls.len() == 0 {
        Seq::empty()
    } else {
        let p = live_targets(s, ls.drop_last());
        if is_live(s, ls.last().target_address) {
            p.push(ls.last().target_address)
        } else {
            p
        }
    }
}

/// `rs` holds, in order, the records at the addresses `hs`.
pub open spec fn records_at(rs: Seq<Record>, s: Seq<SignedAction>, hs: Seq<ActionHash>) -> bool {
    &&& rs.len() == hs.len()
    &&& forall|k: int| 0 <= k < hs.len() ==> record_of(#[trigger] rs[k], s, hs[k])
}

/// The records that the live edges of kind `t` from `base` lead to, in edge
/// order; targets that are deleted or carry no entry are left out silently.
pub fn get_linked_records(store: &Store, base: AnyLinkableHash, t: LinkTypes) -> (r: Vec<Record>)
    requires
        store.wf(),
    ensures
        records_at(r@, store@, live_targets(store@, links_of(store@, base, t))),
{
    let links = store.get_links(base, t);
    let mut out: Vec<Record> = Vec::new();
    let mut i: usize = 0;
    while i < links.len()
        invariant
            i <= links.len(),
            store.wf(),
            records_at(out@, store@, live_targets(store@, links@.take(i as int))),
        decreases links.len() - i,
    {
        let ghost prev = out@;
        assert(links@.take(i as int + 1).drop_last() =~= links@.take(i as int));
        match store.get(links[i].target_address) {
            Some(rec) => {
                out.push(rec);
                proof {
                    let hs = live_targets(store@, links@.take(i as int + 1));
                    assert forall|k: int| 0 <= k < hs.len() implies record_of(#[trigger] out@[k], store@, hs[k]) by {
                        if k < prev.len() {
                            assert(out@[k] == prev[k]);
                        }
                    }
                }
            },
            None => {},
        }
        i = i + 1;
    }
    assert(links@.take(links@.len() as int) =~= links@);
    out
}

/// The removals, in order, of those edges of `ls` whose target is among `hs`.
pub open spec fn removals(ctx: AgentContext, ls: Seq<Link>, hs: Seq<ActionHash>) -> Seq<SignedAction>
    decreases ls.len(),
{
    if ls.len() == 0 {
        Seq::empty()
    } else {
        let p = removals(ctx, ls.drop_last(), hs);
        if hs.contains(ls.last().target_address) {
            p.push(signed(ctx, Action::DeleteLink { link_add_address: ls.last().create_link_hash }))
        } else {
            p
        }
    }
}

pub proof fn lemma_removals_len(ctx: AgentContext, ls: Seq<Link>, hs: Seq<ActionHash>)
    ensures
        removals(ctx, ls, hs).len() <= ls.len(),
    decreases ls.len(),
{
    if ls.len() > 0 {
        lemma_removals_len(ctx, ls.drop_last(), hs);
    }
}

/// `ls` are stored edges of a kind that may be removed.
pub open spec fn removable_links(s: Seq<SignedAction>, ls: Seq<Link>) -> bool {
    forall|k: int| 0 <= k < ls.len() ==> {
        let l = #[trigger] ls[k];
        &&& (l.create_link_hash.0 as int) < s.len()
        &&& link_at(s, l.create_link_hash.0 as int) is Some
        &&& !link_at(s, l.create_link_hash.0 as int)->Some_0.link_type.is_audit_trail()
    }
}

fn contains_hash(hs: &Vec<ActionHash>, h: ActionHash) -> (r: bool)
    ensures
        r == hs@.contains(h),
{
    let mut i: usize = 0;
    while i < hs.len()
        invariant
            i <= hs.len(),
            forall|k: int| 0 <= k < i ==> hs@[k] != h,
        decreases hs.len() - i,
    {
        if hs[i] == h {
            assert(hs@[i as int] == h);
            return true;
        }
        i = i + 1;
    }
    false
}

/// Removes every edge of `links` whose target is among `hs`.
pub fn remove_links_to(store: &mut Store, ctx: AgentContext, links: &Vec<Link>, hs: &Vec<ActionHash>)
    requires
        old(store).wf(),
        removable_links(old(store)@, links@),
        old(store)@.len() + links@.len() <= MAX_ACTIONS,
    ensures
        final(store).wf(),
        final(store)@ == old(store)@ + removals(ctx, links@, hs@),
{
    let ghost s0 = store@;
    let mut i: usize = 0;
    while i < links.len()
        invariant
            i <= links.len(),
            store.wf(),
            removable_links(s0, links@),
            s0.len() + links@.len() <= MAX_ACTIONS,
            store@ == s0 + removals(ctx, links@.take(i as int), hs@),
        decreases links.len() - i,
    {
        assert(links@.take(i as int + 1).drop_last() =~= links@.take(i as int));
        proof {
            lemma_removals_len(ctx, links@.take(i as int), hs@);
        }
        let l = links[i];
        if contains_hash(hs, l.target_address) {
            let ghost before = store@;
            assert(before[l.create_link_hash.0 as int] == s0[l.create_link_hash.0 as int]);
            let _ = delete_link(store, ctx, l.create_link_hash);
            assert(store@ =~= s0 + removals(ctx, links@.take(i as int + 1), hs@));
        }
        i = i + 1;
    }
    assert(links@.take(links@.len() as int) =~= links@);
}

/// The edges of `ls` whose target is not among `hs`, in order.
pub open spec fn without_targets(ls: Seq<Link>, hs: Seq<ActionHash>) -> Seq<Link>
    decreases ls.len(),
{
    if ls.len() == 0 {
        Seq::empty()
    } else {
        let p = without_targets(ls.drop_last(), hs);
        if hs.contains(ls.last().target_address) {
            p
        } else {
            p.push(ls.last())
        }
    }
}

pub open spec fn names_edge(l: Link, hs: Seq<ActionHash>, i: int) -> bool {
    l.create_link_hash.0 as int == i && hs.contains(l.target_address)
}

/// Some edge of `ls` created at `i` has its target among `hs`.
pub open spec fn named(ls: Seq<Link>, hs: Seq<ActionHash>, i: int) -> bool {
    exists|k: int| 0 <= k < ls.len() && #[trigger] names_edge(ls[k], hs, i)
}

/// Some action of `rm` removes the edge created at `i`.
pub open spec fn removed_in(rm: Seq<SignedAction>, i: int) -> bool {
    exists|j: int| 0 <= j < rm.len() && #[trigger] is_link_removal_of(rm[j], i)
}

/// The removals remove exactly the named edges, and are all edge removals.
pub proof fn lemma_removals_remove_named(ctx: AgentContext, ls: Seq<Link>, hs: Seq<ActionHash>)
    ensures
        forall|i: int|
            #![trigger removed_in(removals(ctx, ls, hs), i)]
            #![trigger named(ls, hs, i)]
            removed_in(removals(ctx, ls, hs), i) == named(ls, hs, i),
        forall|j: int| 0 <= j < removals(ctx, ls, hs).len() ==> (#[trigger] removals(ctx, ls, hs)[j]).action is DeleteLink,
    decreases ls.len(),
{
    if ls.len() > 0 {
        let init = ls.drop_last();
        let l = ls.last();
        lemma_removals_remove_named(ctx, init, hs);
        let p = removals(ctx, init, hs);
        let q = removals(ctx, ls, hs);
        assert forall|j: int| 0 <= j < q.len() implies (#[trigger] q[j]).action is DeleteLink by {
            if j < p.len() {
                assert(q[j] == p[j]);
            }
        }
        assert forall|i: int|
            #![trigger removed_in(q, i)]
            #![trigger named(ls, hs, i)]
            removed_in(q, i) == named(ls, hs, i) by {
            if removed_in(q, i) {
                let j = choose|j: int| 0 <= j < q.len() && #[trigger] is_link_removal_of(q[j], i);
                if j < p.len() {
                    assert(q[j] == p[j]);
                    assert(removed_in(p, i));
                    let k = choose|k: int| 0 <= k < init.len() && #[trigger] names_edge(init[k], hs, i);
                    assert(ls[k] == init[k]);
                } else {
                    assert(names_edge(ls[ls.len() - 1], hs, i));
                }
            }
            if named(ls, hs, i) {
                let k = choose|k: int| 0 <= k < ls.len() && #[trigger] names_edge(ls[k], hs, i);
                if k < ls.len() - 1 {
                    assert(init[k] == ls[k]);
                    assert(named(init, hs, i));
                    let j = choose|j: int| 0 <= j < p.len() && #[trigger] is_link_removal_of(p[j], i);
                    assert(q[j] == p[j]);
                } else {
                    assert(is_link_removal_of(q[q.len() - 1], i));
                }
            }
        }
    }
}

/// Every live edge of kind `t` from `base` stored before `n` is listed.
pub proof fn lemma_links_upto_complete(s: Seq<SignedAction>, base: AnyLinkableHash, t: LinkTypes, n: int, i: int)
    requires
        0 <= i < n <= s.len(),
        s.len() <= MAX_ACTIONS,
        is_live_link(s, i, base, t),
    ensures
        exists|k: int| 0 <= k < links_upto(s, base, t, n).len() && (#[trigger] links_upto(s, base, t, n)[k]).create_link_hash.0 == i,
    decreases n,
{
    let q = links_upto(s, base, t, n);
    if i == n - 1 {
        assert(q[q.len() - 1].create_link_hash.0 == i);
    } else {
        lemma_links_upto_complete(s, base, t, n - 1, i);
        let p = links_upto(s, base, t, n - 1);
        let k = choose|k: int| 0 <= k < p.len() && (#[trigger] p[k]).create_link_hash.0 == i;
        assert(q[k] == p[k]);
    }
}

pub proof fn lemma_append_link_removed(s: Seq<SignedAction>, rm: Seq<SignedAction>, i: int)
    ensures
        link_removed(s + rm, i) == (link_removed(s, i) || removed_in(rm, i)),
{
    let f = s + rm;
    if link_removed(s, i) {
        let j = choose|j: int| 0 <= j < s.len() && #[trigger] is_link_removal_of(s[j], i);
        assert(f[j] == s[j]);
    }
    if removed_in(rm, i) {
        let j = choose|j: int| 0 <= j < rm.len() && #[trigger] is_link_removal_of(rm[j], i);
        assert(f[s.len() + j] == rm[j]);
    }
    if link_removed(f, i) {
        let j = choose|j: int| 0 <= j < f.len() && #[trigger] is_link_removal_of(f[j], i);
        if j < s.len() {
            assert(f[j] == s[j]);
        } else {
            assert(f[j] == rm[j - s.len()]);
        }
    }
}

proof fn lemma_removal_prefix(
    s: Seq<SignedAction>,
    ctx: AgentContext,
    base: AnyLinkableHash,
    t: LinkTypes,
    hs: Seq<ActionHash>,
    b2: AnyLinkableHash,
    t2: LinkTypes,
    n: int,
)
    requires
        0 <= n <= s.len(),
        s.len() <= MAX_ACTIONS,
    ensures
        ({
            let f = s + removals(ctx, links_of(s, base, t), hs);
            links_upto(f, b2, t2, n) == if b2 == base && t2 == t {
                without_targets(links_upto(s, base, t, n), hs)
            } else {
                links_upto(s, b2, t2, n)
            }
        }),
    decreases n,
{
    let ls = links_of(s, base, t);
    let rm = removals(ctx, ls, hs);
    let f = s + rm;
    if n > 0 {
        lemma_removal_prefix(s, ctx, base, t, hs, b2, t2, n - 1);
        let i = n - 1;
        assert(f[i] == s[i]);
        lemma_append_link_removed(s, rm, i);
        lemma_removals_remove_named(ctx, ls, hs);
        lemma_links_upto(s, base, t, s.len() as int);
        if named(ls, hs, i) {
            let k = choose|k: int| 0 <= k < ls.len() && #[trigger] names_edge(ls[k], hs, i);
            assert(is_live_link(s, i, base, t));
        }
        if is_live_link(s, i, base, t) {
            lemma_links_upto_complete(s, base, t, s.len() as int, i);
            let k = choose|k: int| 0 <= k < ls.len() && (#[trigger] ls[k]).create_link_hash.0 == i;
            if hs.contains(link_at(s, i)->Some_0.target_address) {
                assert(names_edge(ls[k], hs, i));
            }
        }
        if b2 == base && t2 == t {
            let lu = links_upto(s, base, t, n);
            if is_live_link(s, i, base, t) {
                assert(lu.drop_last() =~= links_upto(s, base, t, n - 1));
            } else {
                assert(lu == links_upto(s, base, t, n - 1));
            }
        }
    }
}

/// After the removals of the edges of kind `t` from `base` whose target is
/// among `hs`, exactly the other edges of that set stay listed, and every
/// other edge set is as it was.
pub proof fn lemma_removals_effect(
    s: Seq<SignedAction>,
    ctx: AgentContext,
    base: AnyLinkableHash,
    t: LinkTypes,
    hs: Seq<ActionHash>,
    b2: AnyLinkableHash,
    t2: LinkTypes,
)
    requires
        s.len() <= MAX_ACTIONS,
    ensures
        ({
            let f = s + removals(ctx, links_of(s, base, t), hs);
            links_of(f, b2, t2) == if b2 == base && t2 == t {
                without_targets(links_of(s, base, t), hs)
            } else {
                links_of(s, b2, t2)
            }
        }),
{
    let ls = links_of(s, base, t);
    let rm = removals(ctx, ls, hs);
    let f = s + rm;
    lemma_removal_prefix(s, ctx, base, t, hs, b2, t2, s.len() as int);
    lemma_removals_remove_named(ctx, ls, hs);
    lemma_links_after_removals(s, rm, b2, t2, f.len() as int);
}

/// Edge removals appended after `s` add no edge to any list.
proof fn lemma_links_after_removals(s: Seq<SignedAction>, rm: Seq<SignedAction>, b2: AnyLinkableHash, t2: LinkTypes, n: int)
    requires
        s.len() <= n <= s.len() + rm.len(),
        forall|j: int| 0 <= j < rm.len() ==> (#[trigger] rm[j]).action is DeleteLink,
    ensures
        links_upto(s + rm, b2, t2, n) == links_upto(s + rm, b2, t2, s.len() as int),
    decreases n,
{
    if n > s.len() {
        lemma_links_after_removals(s, rm, b2, t2, n - 1);
        assert((s + rm)[n - 1] == rm[n - 1 - s.len()]);
    }
}

} // verus!
