use vstd::prelude::*;
use crate::schema::{ActionHash, AnyLinkableHash, BookingRequest, EntryTypes, LinkTypes, Resource, UnitEntryTypes};
use crate::store::{
    entry_at, exists_at, is_deleted, is_live, is_tombstone_of, is_update_of, link_at, link_removed,
    is_link_removal_of, links_of, links_upto, record_of, refers_back, store_wf, updates_of, updates_upto, Action,
    Link, Record, SignedAction, UpdateRef, MAX_ACTIONS,
};
use crate::validation::{
    commit_outcome, create_booking_request_outcome, create_entry_outcome, has_kind, BookieError, Reason, ValidateCallbackResult,
};
use crate::host::{
    lemma_removals_effect, lemma_removals_len, removals, without_targets, lemma_untouched_entry_resolves, leaves_alone, link_action, live_targets, records_at, signed, AgentContext,
};
use crate::booking_request::{
    lemma_withdrawn_is_absent, live_request, my_edges, requested_resource, resource_edges, withdrawal_actions,
    withdrawal_bound,
};
use crate::resolve::{
    latest_update, lemma_latest_update_is_latest, lemma_successor_is_later, link_refs, resolve_chain,
    resolve_latest, resource_head,
};

verus! {

/// Appending leaves the successors listed among the first `n` actions alone.
pub proof fn lemma_updates_prefix(s: Seq<SignedAction>, a: SignedAction, h: ActionHash, n: int)
    requires
        0 <= n <= s.len(),
    ensures
        updates_upto(s.push(a), h, n) == updates_upto(s, h, n),
    decreases n,
{
    if n > 0 {
        lemma_updates_prefix(s, a, h, n - 1);
        assert(s.push(a)[n - 1] == s[n - 1]);
    }
}

pub proof fn lemma_push_keeps_entries(s: Seq<SignedAction>, a: SignedAction, h: ActionHash)
    requires
        exists_at(s, h),
    ensures
        entry_at(s.push(a), h) == entry_at(s, h),
        s.push(a)[h.0 as int] == s[h.0 as int],
{
}

pub proof fn lemma_push_deleted(s: Seq<SignedAction>, a: SignedAction, h: ActionHash)
    ensures
        is_deleted(s.push(a), h) == (is_deleted(s, h) || is_tombstone_of(a, h)),
{
    let t = s.push(a);
    if is_deleted(s, h) {
        let i = choose|i: int| 0 <= i < s.len() && #[trigger] is_tombstone_of(s[i], h);
        assert(t[i] == s[i]);
    }
    if is_tombstone_of(a, h) {
        assert(t[s.len() as int] == a);
    }
    if is_deleted(t, h) {
        let i = choose|i: int| 0 <= i < t.len() && #[trigger] is_tombstone_of(t[i], h);
        if i < s.len() {
            assert(t[i] == s[i]);
        }
    }
}

/// A walk that ends at `t` only moves forward: `t` is at or after `x`.
pub proof fn lemma_walk_moves_forward(s: Seq<SignedAction>, x: ActionHash, f: nat, t: ActionHash)
    requires
        store_wf(s),
        resolve_chain(s, x, f) == Ok::<Option<ActionHash>, BookieError>(Some(t)),
    ensures
        x.0 <= t.0,
    decreases f,
{
    lemma_successor_is_later(s, x);
    if latest_update(updates_of(s, x)) is Some {
        let u = latest_update(updates_of(s, x))->Some_0;
        lemma_walk_moves_forward(s, u.action_hash, (f - 1) as nat, t);
    }
}

/// The node that resolves to the head `p` of a chain, resolved again after
/// an update of `p` that the store accepted.
proof fn lemma_update_step(s: Seq<SignedAction>, u: SignedAction, x: ActionHash, f: nat, p: ActionHash)
    requires
        store_wf(s),
        store_wf(s.push(u)),
        is_update_of(u, p),
        entry_at(s.push(u), ActionHash(s.len() as u64)) is Some,
        resolve_chain(s, x, f) == Ok::<Option<ActionHash>, BookieError>(Some(p)),
    ensures
        resolve_chain(s.push(u), x, f + 1) == Ok::<Option<ActionHash>, BookieError>(Some(ActionHash(s.len() as u64))),
    decreases f,
{
    let t = s.push(u);
    let n = ActionHash(s.len() as u64);
    lemma_push_keeps_entries(s, u, x);
    lemma_push_deleted(s, u, x);
    lemma_updates_prefix(s, u, x, s.len() as int);
    lemma_successor_is_later(s, x);
    lemma_latest_update_is_latest(updates_of(s, x));
    if x == p {
        if latest_update(updates_of(s, x)) is Some {
            let y = latest_update(updates_of(s, x))->Some_0;
            lemma_walk_moves_forward(s, y.action_hash, (f - 1) as nat, p);
        }
        assert(updates_of(s, x).len() == 0);
        assert(updates_of(t, x) =~= seq![UpdateRef { action_hash: n, timestamp: u.timestamp }]);
        assert(latest_update(updates_of(t, x).drop_last()) is None);
        assert forall|i: int| n.0 < i < t.len() implies leaves_alone(#[trigger] t[i], n) by {}
        lemma_untouched_entry_resolves(t, n, f);
    } else {
        assert(!is_update_of(u, x));
        assert(updates_of(t, x) == updates_of(s, x));
        let y = latest_update(updates_of(s, x))->Some_0;
        lemma_update_step(s, u, y.action_hash, (f - 1) as nat, p);
    }
}

/// Superseding the current head of a chain makes the successor the new head:
/// after updates applied in sequence, the chain resolves to the last one.
pub proof fn lemma_update_advances_head(s: Seq<SignedAction>, ctx: AgentContext, h: ActionHash, p: ActionHash, e: EntryTypes)
    requires
        store_wf(s),
        resolve_latest(s, h) == Ok::<Option<ActionHash>, BookieError>(Some(p)),
        commit_outcome(s, signed(ctx, Action::Update { original_action_address: p, entry: e })) is Ok,
    ensures
        resolve_latest(s.push(signed(ctx, Action::Update { original_action_address: p, entry: e })), h)
            == Ok::<Option<ActionHash>, BookieError>(Some(ActionHash(s.len() as u64))),
{
    let u = signed(ctx, Action::Update { original_action_address: p, entry: e });
    let t = s.push(u);
    assert forall|i: int| 0 <= i < t.len() implies #[trigger] refers_back(t[i], i) by {
        if i < s.len() {
            assert(t[i] == s[i]);
        }
    }
    lemma_update_step(s, u, h, s.len() as nat, p);
}

/// The store after each of `es` in turn supersedes the current head, the first
/// superseding `p`.
pub open spec fn apply_updates(s: Seq<SignedAction>, ctx: AgentContext, p: ActionHash, es: Seq<EntryTypes>) -> Seq<SignedAction>
    decreases es.len(),
{
    if es.len() == 0 {
        s
    } else {
        apply_updates(
            s.push(signed(ctx, Action::Update { original_action_address: p, entry: es[0] })),
            ctx,
            ActionHash(s.len() as u64),
            es.drop_first(),
        )
    }
}

/// An entry that is valid on a store stays valid as the store grows.
pub proof fn lemma_entry_validity_persists(s: Seq<SignedAction>, a: SignedAction, e: EntryTypes)
    requires
        create_entry_outcome(s, e) == Ok::<ValidateCallbackResult, BookieError>(ValidateCallbackResult::Valid),
    ensures
        create_entry_outcome(s.push(a), e) == Ok::<ValidateCallbackResult, BookieError>(ValidateCallbackResult::Valid),
{
    match e {
        EntryTypes::Resource(_) => {},
        EntryTypes::BookingRequest(q) => {
            lemma_push_keeps_entries(s, a, q.resource_hash);
        },
        EntryTypes::Booking(b) => {
            lemma_push_keeps_entries(s, a, b.resource_hash);
            if let Some(q) = b.booking_request_hash {
                lemma_push_keeps_entries(s, a, q);
            }
        },
    }
}

/// A chain resolves only to a node that carries an entry.
pub proof fn lemma_resolved_has_entry(s: Seq<SignedAction>, x: ActionHash, f: nat, t: ActionHash)
    requires
        resolve_chain(s, x, f) == Ok::<Option<ActionHash>, BookieError>(Some(t)),
    ensures
        entry_at(s, t) is Some,
    decreases f,
{
    if latest_update(updates_of(s, x)) is Some {
        let u = latest_update(updates_of(s, x))->Some_0;
        lemma_resolved_has_entry(s, u.action_hash, (f - 1) as nat, t);
    }
}

/// Updates applied in sequence, each to the head the previous one made, are
/// all accepted, and the chain then resolves to the last of them.
pub proof fn lemma_update_chain(s: Seq<SignedAction>, ctx: AgentContext, h: ActionHash, p: ActionHash, es: Seq<EntryTypes>)
    requires
        store_wf(s),
        s.len() + es.len() <= MAX_ACTIONS,
        resolve_latest(s, h) == Ok::<Option<ActionHash>, BookieError>(Some(p)),
        es.len() > 0,
        forall|k: int| 0 <= k < es.len() ==> (#[trigger] es[k]).kind() == entry_at(s, p)->Some_0.kind(),
        forall|k: int| 0 <= k < es.len() ==> create_entry_outcome(s, #[trigger] es[k])
            == Ok::<ValidateCallbackResult, BookieError>(ValidateCallbackResult::Valid),
    ensures
        store_wf(apply_updates(s, ctx, p, es)),
        resolve_latest(apply_updates(s, ctx, p, es), h)
            == Ok::<Option<ActionHash>, BookieError>(Some(ActionHash((s.len() + es.len() - 1) as u64))),
    decreases es.len(),
{
    let u = signed(ctx, Action::Update { original_action_address: p, entry: es[0] });
    let s1 = s.push(u);
    let n = ActionHash(s.len() as u64);
    lemma_resolved_has_entry(s, h, s.len() as nat, p);
    assert(create_entry_outcome(s, es[0]) == Ok::<ValidateCallbackResult, BookieError>(ValidateCallbackResult::Valid));
    assert(es[0].kind() == entry_at(s, p)->Some_0.kind());
    assert(commit_outcome(s, u) is Ok);
    lemma_update_advances_head(s, ctx, h, p, es[0]);
    assert forall|i: int| 0 <= i < s1.len() implies #[trigger] refers_back(s1[i], i) by {
        if i < s.len() {
            assert(s1[i] == s[i]);
        }
    }
    let rest = es.drop_first();
    assert(apply_updates(s, ctx, p, es) == apply_updates(s1, ctx, n, rest));
    if rest.len() == 0 {
        assert(apply_updates(s1, ctx, n, rest) == s1);
    } else {
        assert(entry_at(s1, n) == Some(es[0]));
        assert forall|k: int| 0 <= k < rest.len() implies create_entry_outcome(s1, #[trigger] rest[k])
            == Ok::<ValidateCallbackResult, BookieError>(ValidateCallbackResult::Valid) by {
            assert(rest[k] == es[k + 1]);
            lemma_entry_validity_persists(s, u, es[k + 1]);
        }
        assert forall|k: int| 0 <= k < rest.len() implies (#[trigger] rest[k]).kind() == entry_at(s1, n)->Some_0.kind() by {
            assert(rest[k] == es[k + 1]);
        }
        lemma_update_chain(s1, ctx, h, n, rest);
    }
}

/// Tombstoning the current head of a chain makes the object absent.
pub proof fn lemma_deleting_head_makes_absent(s: Seq<SignedAction>, ctx: AgentContext, h: ActionHash, p: ActionHash)
    requires
        store_wf(s),
        resolve_latest(s, h) == Ok::<Option<ActionHash>, BookieError>(Some(p)),
    ensures
        resolve_latest(s.push(signed(ctx, Action::Delete { deletes_address: p })), h)
            == Ok::<Option<ActionHash>, BookieError>(None),
{
    lemma_delete_step(s, signed(ctx, Action::Delete { deletes_address: p }), h, s.len() as nat, p);
}

proof fn lemma_delete_step(s: Seq<SignedAction>, d: SignedAction, x: ActionHash, f: nat, p: ActionHash)
    requires
        store_wf(s),
        is_tombstone_of(d, p),
        resolve_chain(s, x, f) == Ok::<Option<ActionHash>, BookieError>(Some(p)),
    ensures
        resolve_chain(s.push(d), x, f + 1) == Ok::<Option<ActionHash>, BookieError>(None),
    decreases f,
{
    let t = s.push(d);
    lemma_push_keeps_entries(s, d, x);
    lemma_push_deleted(s, d, x);
    lemma_updates_prefix(s, d, x, s.len() as int);
    if x != p {
        assert(!is_update_of(d, x));
        assert(updates_of(t, x) == updates_of(s, x));
        let y = latest_update(updates_of(s, x))->Some_0;
        lemma_delete_step(s, d, y.action_hash, (f - 1) as nat, p);
    }
}

/// Once the original address carries a tombstone the object stays absent,
/// whatever is stored afterwards, further updates included.
pub proof fn lemma_tombstone_is_final(s: Seq<SignedAction>, h: ActionHash, later: Seq<SignedAction>)
    requires
        entry_at(s, h) is Some,
        is_deleted(s, h),
    ensures
        resolve_latest(s + later, h) == Ok::<Option<ActionHash>, BookieError>(None),
{
    let t = s + later;
    assert(t[h.0 as int] == s[h.0 as int]);
    let i = choose|i: int| 0 <= i < s.len() && #[trigger] is_tombstone_of(s[i], h);
    assert(t[i] == s[i]);
    assert(is_tombstone_of(t[i], h));
}

pub proof fn lemma_push_link_removed(s: Seq<SignedAction>, a: SignedAction, i: int)
    ensures
        link_removed(s.push(a), i) == (link_removed(s, i) || is_link_removal_of(a, i)),
{
    let t = s.push(a);
    if link_removed(s, i) {
        let j = choose|j: int| 0 <= j < s.len() && #[trigger] is_link_removal_of(s[j], i);
        assert(t[j] == s[j]);
    }
    if is_link_removal_of(a, i) {
        assert(t[s.len() as int] == a);
    }
    if link_removed(t, i) {
        let j = choose|j: int| 0 <= j < t.len() && #[trigger] is_link_removal_of(t[j], i);
        if j < s.len() {
            assert(t[j] == s[j]);
        }
    }
}

/// Appending anything but an edge removal leaves the edges listed among the
/// first `n` actions alone.
pub proof fn lemma_links_prefix(s: Seq<SignedAction>, a: SignedAction, base: AnyLinkableHash, t: LinkTypes, n: int)
    requires
        0 <= n <= s.len(),
        !(a.action is DeleteLink),
    ensures
        links_upto(s.push(a), base, t, n) == links_upto(s, base, t, n),
    decreases n,
{
    if n > 0 {
        lemma_links_prefix(s, a, base, t, n - 1);
        assert(s.push(a)[n - 1] == s[n - 1]);
        lemma_push_link_removed(s, a, n - 1);
    }
}

/// Superseding a Resource version and linking the successor from the original
/// with a timestamp no earlier than any earlier update edge makes the
/// successor the Resource's latest version.
pub proof fn lemma_resource_update_advances_head(
    s: Seq<SignedAction>,
    ctx: AgentContext,
    h: ActionHash,
    prev: ActionHash,
    e: EntryTypes,
)
    requires
        store_wf(s),
        s.len() + 2 <= MAX_ACTIONS,
        forall|k: int| 0 <= k < links_of(s, AnyLinkableHash::Action(h), LinkTypes::ResourceUpdates).len()
            ==> (#[trigger] links_of(s, AnyLinkableHash::Action(h), LinkTypes::ResourceUpdates)[k]).timestamp.0 <= ctx.now.0,
    ensures
        ({
            let n = ActionHash(s.len() as u64);
            let s2 = s.push(signed(ctx, Action::Update { original_action_address: prev, entry: e })).push(
                signed(ctx, link_action(AnyLinkableHash::Action(h), n, LinkTypes::ResourceUpdates)),
            );
            &&& resource_head(s2, h) == n
            &&& links_of(s2, AnyLinkableHash::Action(h), LinkTypes::ResourceUpdates)
                == links_of(s, AnyLinkableHash::Action(h), LinkTypes::ResourceUpdates).push(Link {
                    base_address: AnyLinkableHash::Action(h),
                    target_address: n,
                    link_type: LinkTypes::ResourceUpdates,
                    author: ctx.agent,
                    timestamp: ctx.now,
                    create_link_hash: ActionHash((s.len() + 1) as u64),
                })
        }),
{
    let n = ActionHash(s.len() as u64);
    let base = AnyLinkableHash::Action(h);
    let rt = LinkTypes::ResourceUpdates;
    let u = signed(ctx, Action::Update { original_action_address: prev, entry: e });
    let l = signed(ctx, link_action(base, n, rt));
    let s1 = s.push(u);
    let s2 = s1.push(l);
    lemma_links_prefix(s, u, base, rt, s.len() as int);
    lemma_links_prefix(s1, l, base, rt, s1.len() as int);
    let last = s.len() as int + 1;
    assert(links_upto(s2, base, rt, last) == links_upto(s2, base, rt, s.len() as int));
    assert(!link_removed(s2, last)) by {
        if link_removed(s2, last) {
            let j = choose|j: int| 0 <= j < s2.len() && #[trigger] is_link_removal_of(s2[j], last);
            if j < s.len() {
                assert(s2[j] == s[j]);
                assert(refers_back(s[j], j));
            }
        }
    }
    let old_links = links_of(s, base, rt);
    let new_link = link_at(s2, last)->Some_0;
    assert(links_of(s2, base, rt) == old_links.push(new_link));
    let refs = link_refs(old_links);
    let x = UpdateRef { action_hash: n, timestamp: ctx.now };
    assert(link_refs(old_links.push(new_link)) =~= refs.push(x));
    assert(refs.push(x).drop_last() =~= refs);
    lemma_latest_update_is_latest(refs);
    if latest_update(refs) is Some {
        let p = latest_update(refs)->Some_0;
        let k = choose|k: int| 0 <= k < refs.len() && refs[k] == p;
        assert(refs[k].timestamp == old_links[k].timestamp);
    }
}

/// The store after each of `es` in turn supersedes the Resource version the
/// previous one made (the first superseding `prev`), each linked from the
/// original `h` and authored in the matching context of `cs`.
pub open spec fn apply_resource_updates(
    s: Seq<SignedAction>,
    cs: Seq<AgentContext>,
    h: ActionHash,
    prev: ActionHash,
    es: Seq<Resource>,
) -> Seq<SignedAction>
    decreases es.len(),
{
    if es.len() == 0 || cs.len() == 0 {
        s
    } else {
        let n = ActionHash(s.len() as u64);
        let s2 = s.push(signed(cs[0], Action::Update { original_action_address: prev, entry: EntryTypes::Resource(es[0]) })).push(
            signed(cs[0], link_action(AnyLinkableHash::Action(h), n, LinkTypes::ResourceUpdates)),
        );
        apply_resource_updates(s2, cs.drop_first(), h, n, es.drop_first())
    }
}

/// Resource updates applied in sequence, with clocks that do not run
/// backwards, resolve to the last of them.
pub proof fn lemma_resource_update_chain(
    s: Seq<SignedAction>,
    cs: Seq<AgentContext>,
    h: ActionHash,
    prev: ActionHash,
    es: Seq<Resource>,
)
    requires
        store_wf(s),
        (h.0 as int) < s.len(),
        (prev.0 as int) < s.len(),
        es.len() > 0,
        cs.len() == es.len(),
        s.len() + 2 * es.len() <= MAX_ACTIONS,
        forall|i: int, j: int| 0 <= i <= j < cs.len() ==> (#[trigger] cs[i]).now.0 <= (#[trigger] cs[j]).now.0,
        forall|k: int| 0 <= k < links_of(s, AnyLinkableHash::Action(h), LinkTypes::ResourceUpdates).len()
            ==> (#[trigger] links_of(s, AnyLinkableHash::Action(h), LinkTypes::ResourceUpdates)[k]).timestamp.0 <= cs[0].now.0,
    ensures
        resource_head(apply_resource_updates(s, cs, h, prev, es), h)
            == ActionHash((s.len() + 2 * es.len() - 2) as u64),
    decreases es.len(),
{
    let c = cs[0];
    let n = ActionHash(s.len() as u64);
    let u = signed(c, Action::Update { original_action_address: prev, entry: EntryTypes::Resource(es[0]) });
    let l = signed(c, link_action(AnyLinkableHash::Action(h), n, LinkTypes::ResourceUpdates));
    let s2 = s.push(u).push(l);
    lemma_resource_update_advances_head(s, c, h, prev, EntryTypes::Resource(es[0]));
    let rest = es.drop_first();
    let cs2 = cs.drop_first();
    assert(apply_resource_updates(s, cs, h, prev, es) == apply_resource_updates(s2, cs2, h, n, rest));
    if rest.len() == 0 {
        assert(apply_resource_updates(s2, cs2, h, n, rest) == s2);
    } else {
        assert forall|i: int| 0 <= i < s2.len() implies #[trigger] refers_back(s2[i], i) by {
            if i < s.len() {
                assert(s2[i] == s[i]);
            }
        }
        let old_links = links_of(s, AnyLinkableHash::Action(h), LinkTypes::ResourceUpdates);
        let new_links = links_of(s2, AnyLinkableHash::Action(h), LinkTypes::ResourceUpdates);
        assert forall|k: int| 0 <= k < new_links.len() implies (#[trigger] new_links[k]).timestamp.0 <= cs2[0].now.0 by {
            assert(cs2[0] == cs[1]);
            assert(cs[0].now.0 <= cs[1].now.0);
            if k < old_links.len() {
                assert(new_links[k] == old_links[k]);
            }
        }
        assert forall|i: int, j: int| 0 <= i <= j < cs2.len() implies (#[trigger] cs2[i]).now.0 <= (#[trigger] cs2[j]).now.0 by {
            assert(cs2[i] == cs[i + 1]);
            assert(cs2[j] == cs[j + 1]);
        }
        lemma_resource_update_chain(s2, cs2, h, n, rest);
    }
}

/// Tombstoning the version a Resource resolves to makes the Resource absent.
pub proof fn lemma_resource_delete_head(s: Seq<SignedAction>, ctx: AgentContext, h: ActionHash)
    ensures
        ({
            let p = resource_head(s, h);
            let s1 = s.push(signed(ctx, Action::Delete { deletes_address: p }));
            &&& resource_head(s1, h) == p
            &&& !is_live(s1, p)
        }),
{
    let p = resource_head(s, h);
    let d = signed(ctx, Action::Delete { deletes_address: p });
    let s1 = s.push(d);
    lemma_links_prefix(s, d, AnyLinkableHash::Action(h), LinkTypes::ResourceUpdates, s.len() as int);
    lemma_push_deleted(s, d, p);
}

/// A traversal query answers alike whenever it is asked of one store: two
/// answers that meet its contract list the same records in the same order.
pub proof fn lemma_query_is_stable(s: Seq<SignedAction>, hs: Seq<ActionHash>, r1: Seq<Record>, r2: Seq<Record>)
    requires
        records_at(r1, s, hs),
        records_at(r2, s, hs),
    ensures
        r1.len() == r2.len(),
        forall|k: int| 0 <= k < r1.len() ==> {
            &&& (#[trigger] r1[k]).action_hash == r2[k].action_hash
            &&& r1[k].author == r2[k].author
            &&& r1[k].timestamp == r2[k].timestamp
            &&& r1[k].entry.same_as(&r2[k].entry)
        },
{
    assert forall|k: int| 0 <= k < r1.len() implies {
        &&& (#[trigger] r1[k]).action_hash == r2[k].action_hash
        &&& r1[k].author == r2[k].author
        &&& r1[k].timestamp == r2[k].timestamp
        &&& r1[k].entry.same_as(&r2[k].entry)
    } by {
        assert(record_of(r1[k], s, hs[k]));
        assert(record_of(r2[k], s, hs[k]));
    }
}

/// A booking request must reference a Resource: a reference to an entry of
/// another kind, or to an action without an entry, is invalid, and one to an
/// address that holds nothing is not found.
pub proof fn lemma_request_needs_resource(s: Seq<SignedAction>, q: BookingRequest)
    ensures
        !exists_at(s, q.resource_hash) ==> create_booking_request_outcome(s, q) == Err::<ValidateCallbackResult, BookieError>(BookieError::NotFound),
        exists_at(s, q.resource_hash) && !has_kind(s, q.resource_hash, UnitEntryTypes::Resource)
            ==> create_booking_request_outcome(s, q) == Ok::<ValidateCallbackResult, BookieError>(
                ValidateCallbackResult::Invalid(Reason::MissingDependency),
            ),
        create_booking_request_outcome(s, q) == Ok::<ValidateCallbackResult, BookieError>(ValidateCallbackResult::Valid)
            <==> has_kind(s, q.resource_hash, UnitEntryTypes::Resource),
{
}

/// An audit-trail edge (`ResourceUpdates`, `BookingRequestToBookings`,
/// `ResourceToBookings`) can never be removed, by its author or anyone else:
/// the removal is rejected and the store is left as it was.
pub proof fn lemma_audit_edges_stay(s: Seq<SignedAction>, ctx: AgentContext, i: int)
    requires
        0 <= i < s.len(),
        s.len() <= MAX_ACTIONS,
        link_at(s, i) is Some,
        link_at(s, i)->Some_0.link_type.is_audit_trail(),
    ensures
        commit_outcome(s, signed(ctx, Action::DeleteLink { link_add_address: ActionHash(i as u64) }))
            == Err::<ActionHash, BookieError>(BookieError::Invalid(Reason::UndeletableLink(link_at(s, i)->Some_0.link_type))),
{
}

/// A traversal query lists only addresses that a point lookup finds.
pub proof fn lemma_listed_targets_are_live(s: Seq<SignedAction>, ls: Seq<Link>)
    ensures
        forall|k: int| 0 <= k < live_targets(s, ls).len() ==> is_live(s, #[trigger] live_targets(s, ls)[k]),
    decreases ls.len(),
{
    if ls.len() > 0 {
        lemma_listed_targets_are_live(s, ls.drop_last());
        let p = live_targets(s, ls.drop_last());
        let q = live_targets(s, ls);
        assert forall|k: int| 0 <= k < q.len() implies is_live(s, #[trigger] q[k]) by {
            if k < p.len() {
                assert(q[k] == p[k]);
            }
        }
    }
}

/// Once a booking request is cancelled or rejected, no traversal query lists
/// it any more, whatever edge it is reached by.
pub proof fn lemma_withdrawn_request_is_not_listed(
    s: Seq<SignedAction>,
    ctx: AgentContext,
    h: ActionHash,
    own: bool,
    base: AnyLinkableHash,
    t: LinkTypes,
)
    requires
        live_request(s, h),
    ensures
        !live_targets(s + withdrawal_actions(s, ctx, h, own), links_of(s + withdrawal_actions(s, ctx, h, own), base, t)).contains(h),
{
    let f = s + withdrawal_actions(s, ctx, h, own);
    let ls = links_of(f, base, t);
    lemma_withdrawn_is_absent(s, ctx, h, own);
    lemma_listed_targets_are_live(f, ls);
    if live_targets(f, ls).contains(h) {
        let k = choose|k: int| 0 <= k < live_targets(f, ls).len() && live_targets(f, ls)[k] == h;
        assert(is_live(f, live_targets(f, ls)[k]));
    }
}

/// Cancelling or rejecting a booking request removes exactly the edges that
/// point at it from its Resource, and on cancel from the requester too; every
/// other edge set stays as it was.
pub proof fn lemma_withdrawal_edges(
    s: Seq<SignedAction>,
    ctx: AgentContext,
    h: ActionHash,
    own: bool,
    b2: AnyLinkableHash,
    t2: LinkTypes,
)
    requires
        store_wf(s),
        live_request(s, h),
        s.len() + withdrawal_bound(s, ctx, h, own) <= MAX_ACTIONS,
    ensures
        ({
            let f = s + withdrawal_actions(s, ctx, h, own);
            let res = AnyLinkableHash::Action(requested_resource(s, h));
            let me = AnyLinkableHash::Agent(ctx.agent);
            links_of(f, b2, t2) == if b2 == res && t2 == LinkTypes::ResourceToBookingRequests {
                without_targets(resource_edges(s, h), seq![h])
            } else if own && b2 == me && t2 == LinkTypes::MyBookingRequests {
                without_targets(my_edges(s, ctx), seq![h])
            } else {
                links_of(s, b2, t2)
            }
        }),
{
    let hs = seq![h];
    let res = AnyLinkableHash::Action(requested_resource(s, h));
    let me = AnyLinkableHash::Agent(ctx.agent);
    let r2br = LinkTypes::ResourceToBookingRequests;
    let mbr = LinkTypes::MyBookingRequests;
    let a = if own { removals(ctx, my_edges(s, ctx), hs) } else { Seq::empty() };
    let s1 = s + a;
    if own {
        lemma_removals_len(ctx, my_edges(s, ctx), hs);
        lemma_removals_effect(s, ctx, me, mbr, hs, b2, t2);
        lemma_removals_effect(s, ctx, me, mbr, hs, res, r2br);
    } else {
        assert(s1 =~= s);
    }
    let b = removals(ctx, resource_edges(s, h), hs);
    let s2 = s1 + b;
    lemma_removals_effect(s1, ctx, res, r2br, hs, b2, t2);
    let d = signed(ctx, Action::Delete { deletes_address: h });
    let s3 = s2.push(d);
    lemma_links_prefix(s2, d, b2, t2, s2.len() as int);
    assert(s + withdrawal_actions(s, ctx, h, own) =~= s3);
}

} // verus!
