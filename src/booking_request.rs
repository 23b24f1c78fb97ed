use vstd::prelude::*;
use crate::schema::{ActionHash, AnyLinkableHash, BookingRequest, EntryTypes, LinkTypes, UnitEntryTypes};
use crate::store::{
    is_deleted, deletes_upto, entry_at, is_live, is_tombstone_of, link_at, links_of, record_of, Action, Record,
    SignedAction, Store, MAX_ACTIONS,
};
use crate::validation::{
    commit_outcome, commit_state, create_booking_request_outcome, has_kind, BookieError, ValidateCallbackResult,
    Verdict,
};
use crate::host::{
    create_entry, create_link, delete_entry, get_linked_records, lemma_links_upto, lemma_removals_len, lemma_links_len,
    lemma_untouched_entry_resolves, leaves_alone, link_action, live_targets, records_at, remove_links_to, removals,
    lemma_removals_effect, without_targets,
    signed, update_entry, AgentContext,
};
use crate::resolve::{get_latest, resolve_latest, resolved_as};

verus! {

/// The latest version of a booking request, with the tombstones of its
/// original address.
#[derive(Clone, Debug, PartialEq, Eq)]
pub struct GetBookingRequestOutput {
    pub booking_request: Record,
    pub deletes: Vec<ActionHash>,
}

/// Supersedes `previous_booking_request_hash` with `updated_booking_request`.
#[derive(Clone, Debug, PartialEq, Eq)]
pub struct UpdateBookingRequestInput {
    pub previous_booking_request_hash: ActionHash,
    pub updated_booking_request: BookingRequest,
}

/// The error that a rejecting verdict turns into.
pub open spec fn rejection(v: Verdict) -> BookieError {
    match v {
        Ok(ValidateCallbackResult::Invalid(reason)) => BookieError::Invalid(reason),
        Err(e) => e,
        Ok(ValidateCallbackResult::Valid) => BookieError::HostFailure,
    }
}

/// The actions that creating `q` appends, the entry at `h`.
pub open spec fn create_booking_request_actions(ctx: AgentContext, q: BookingRequest, h: ActionHash) -> Seq<SignedAction> {
    seq![
        signed(ctx, Action::Create { entry: EntryTypes::BookingRequest(q) }),
        signed(ctx, link_action(AnyLinkableHash::Action(q.resource_hash), h, LinkTypes::ResourceToBookingRequests)),
        signed(ctx, link_action(AnyLinkableHash::Agent(ctx.agent), h, LinkTypes::MyBookingRequests)),
    ]
}

/// Submits a booking request against a stored Resource: the entry, then its
/// edges from the Resource and from the requester. A fresh request is its own
/// latest version.
pub fn create_booking_request(store: &mut Store, ctx: AgentContext, booking_request: BookingRequest) -> (r: Result<Record, BookieError>)
    requires
        old(store).wf(),
    ensures
        final(store).wf(),
        ({
            let s = old(store)@;
            let v = create_booking_request_outcome(s, booking_request);
            let h = ActionHash(s.len() as u64);
            &&& s.len() + 3 > MAX_ACTIONS ==> r == Err::<Record, BookieError>(BookieError::HostFailure)
            &&& r is Ok <==> (s.len() + 3 <= MAX_ACTIONS && v == Ok::<ValidateCallbackResult, BookieError>(ValidateCallbackResult::Valid))
            &&& s.len() + 3 <= MAX_ACTIONS && r is Err ==> r->Err_0 == rejection(v)
            &&& r is Err ==> final(store)@ == s
            &&& r is Ok ==> {
                &&& final(store)@ == s + create_booking_request_actions(ctx, booking_request, h)
                &&& r->Ok_0.action_hash == h
                &&& r->Ok_0.entry == EntryTypes::BookingRequest(booking_request)
                &&& record_of(r->Ok_0, final(store)@, h)
                &&& resolve_latest(final(store)@, h) == Ok::<Option<ActionHash>, BookieError>(Some(h))
            }
        }),
{
    if !store.has_room_for(3) {
        return Err(BookieError::HostFailure);
    }
    let ghost s0 = store@;
    let copy = booking_request.duplicate();
    let resource_hash = booking_request.resource_hash;
    let h = match create_entry(store, ctx, EntryTypes::BookingRequest(booking_request)) {
        Ok(h) => h,
        Err(e) => return Err(e),
    };
    match create_link(store, ctx, AnyLinkableHash::Action(resource_hash), h, LinkTypes::ResourceToBookingRequests) {
        Ok(_) => {},
        Err(e) => return Err(e),
    }
    match create_link(store, ctx, AnyLinkableHash::Agent(ctx.agent), h, LinkTypes::MyBookingRequests) {
        Ok(_) => {},
        Err(e) => return Err(e),
    }
    proof {
        let s = store@;
        assert(s =~= s0 + create_booking_request_actions(ctx, copy, h));
        assert forall|i: int| h.0 < i < s.len() implies leaves_alone(#[trigger] s[i], h) by {}
        lemma_untouched_entry_resolves(s, h, s.len() as nat);
    }
    Ok(Record { action_hash: h, author: ctx.agent, timestamp: ctx.now, entry: EntryTypes::BookingRequest(copy) })
}

/// Walks the implicit successor chain of a booking request.
pub fn get_latest_booking_request(store: &Store, booking_request_hash: ActionHash) -> (r: Result<Option<Record>, BookieError>)
    requires
        store.wf(),
    ensures
        resolved_as(r, store@, resolve_latest(store@, booking_request_hash)),
{
    get_latest(store, booking_request_hash)
}

/// The current state of the booking request created at
/// `original_booking_request_hash`, with the tombstones of that address.
pub fn get_booking_request(store: &Store, original_booking_request_hash: ActionHash) -> (r: Result<Option<GetBookingRequestOutput>, BookieError>)
    requires
        store.wf(),
    ensures
        ({
            let s = store@;
            let h = original_booking_request_hash;
            match resolve_latest(s, h) {
                Ok(Some(t)) => r is Ok && r->Ok_0 is Some && record_of(r->Ok_0->Some_0.booking_request, s, t)
                    && r->Ok_0->Some_0.deletes@ == deletes_upto(s, h, s.len() as int),
                Ok(None) => r == Ok::<Option<GetBookingRequestOutput>, BookieError>(None),
                Err(e) => r == Err::<Option<GetBookingRequestOutput>, BookieError>(e),
            }
        }),
{
    let booking_request = match get_latest(store, original_booking_request_hash) {
        Ok(Some(rec)) => rec,
        Ok(None) => return Ok(None),
        Err(e) => return Err(e),
    };
    match store.get_details(original_booking_request_hash) {
        Some(details) => Ok(Some(GetBookingRequestOutput { booking_request, deletes: details.deletes })),
        None => Err(BookieError::NotFound),
    }
}

/// Supersedes a live booking request version. A deleted version takes no
/// successor.
pub fn update_booking_request(store: &mut Store, ctx: AgentContext, input: UpdateBookingRequestInput) -> (r: Result<Record, BookieError>)
    requires
        old(store).wf(),
    ensures
        final(store).wf(),
        ({
            let s = old(store)@;
            let prev = input.previous_booking_request_hash;
            let u = signed(ctx, Action::Update { original_action_address: prev, entry: EntryTypes::BookingRequest(input.updated_booking_request) });
            let h = ActionHash(s.len() as u64);
            &&& s.len() + 1 > MAX_ACTIONS ==> r == Err::<Record, BookieError>(BookieError::HostFailure)
            &&& s.len() + 1 <= MAX_ACTIONS && !is_live(s, prev) ==> r == Err::<Record, BookieError>(BookieError::NotFound)
            &&& r is Ok <==> (s.len() + 1 <= MAX_ACTIONS && is_live(s, prev) && commit_outcome(s, u) is Ok)
            &&& s.len() + 1 <= MAX_ACTIONS && is_live(s, prev) && r is Err ==> r->Err_0 == commit_outcome(s, u)->Err_0
            &&& r is Err ==> final(store)@ == s
            &&& r is Ok ==> {
                &&& final(store)@ == s.push(u)
                &&& r->Ok_0.action_hash == h
                &&& r->Ok_0.entry == EntryTypes::BookingRequest(input.updated_booking_request)
                &&& record_of(r->Ok_0, final(store)@, h)
            }
        }),
{
    if !store.has_room_for(1) {
        return Err(BookieError::HostFailure);
    }
    if store.get(input.previous_booking_request_hash).is_none() {
        return Err(BookieError::NotFound);
    }
    let UpdateBookingRequestInput { previous_booking_request_hash, updated_booking_request } = input;
    let copy = updated_booking_request.duplicate();
    let h = match update_entry(store, ctx, previous_booking_request_hash, EntryTypes::BookingRequest(updated_booking_request)) {
        Ok(h) => h,
        Err(e) => return Err(e),
    };
    Ok(Record { action_hash: h, author: ctx.agent, timestamp: ctx.now, entry: EntryTypes::BookingRequest(copy) })
}

/// Tombstones the booking request version at `original_booking_request_hash`.
pub fn delete_booking_request(store: &mut Store, ctx: AgentContext, original_booking_request_hash: ActionHash) -> (r: Result<ActionHash, BookieError>)
    requires
        old(store).wf(),
    ensures
        final(store).wf(),
        r == commit_outcome(old(store)@, signed(ctx, Action::Delete { deletes_address: original_booking_request_hash })),
        final(store)@ == commit_state(old(store)@, signed(ctx, Action::Delete { deletes_address: original_booking_request_hash })),
{
    delete_entry(store, ctx, original_booking_request_hash)
}

/// The live booking requests linked from a Resource, in edge order.
pub fn get_booking_requests_for_resource(store: &Store, resource_hash: ActionHash) -> (r: Vec<Record>)
    requires
        store.wf(),
    ensures
        records_at(r@, store@, live_targets(store@, links_of(store@, AnyLinkableHash::Action(resource_hash), LinkTypes::ResourceToBookingRequests))),
{
    get_linked_records(store, AnyLinkableHash::Action(resource_hash), LinkTypes::ResourceToBookingRequests)
}

/// The resource a live booking request at `h` was made against.
pub open spec fn requested_resource(s: Seq<SignedAction>, h: ActionHash) -> ActionHash {
    match entry_at(s, h) {
        Some(EntryTypes::BookingRequest(q)) => q.resource_hash,
        _ => h,
    }
}

/// The edges from the requested Resource to `h`'s booking requests.
pub open spec fn resource_edges(s: Seq<SignedAction>, h: ActionHash) -> Seq<crate::store::Link> {
    links_of(s, AnyLinkableHash::Action(requested_resource(s, h)), LinkTypes::ResourceToBookingRequests)
}

/// A live record at `h` that is a booking request.
pub open spec fn live_request(s: Seq<SignedAction>, h: ActionHash) -> bool {
    is_live(s, h) && has_kind(s, h, UnitEntryTypes::BookingRequest)
}

/// Removes the edges from the requested Resource to the live booking request
/// at `h`; the request itself stays.
pub fn remove_booking_request_for_resource(store: &mut Store, ctx: AgentContext, original_booking_request_hash: ActionHash) -> (r: Result<(), BookieError>)
    requires
        old(store).wf(),
    ensures
        final(store).wf(),
        ({
            let s = old(store)@;
            let h = original_booking_request_hash;
            &&& !is_live(s, h) ==> r == Err::<(), BookieError>(BookieError::NotFound)
            &&& is_live(s, h) && !has_kind(s, h, UnitEntryTypes::BookingRequest) ==> r == Err::<(), BookieError>(BookieError::MalformedData)
            &&& live_request(s, h) && s.len() + resource_edges(s, h).len() > MAX_ACTIONS
                ==> r == Err::<(), BookieError>(BookieError::HostFailure)
            &&& r is Ok <==> (live_request(s, h) && s.len() + resource_edges(s, h).len() <= MAX_ACTIONS)
            &&& r is Err ==> final(store)@ == s
            &&& r is Ok ==> final(store)@ == s + removals(ctx, resource_edges(s, h), seq![h])
            &&& r is Ok ==> links_of(final(store)@, AnyLinkableHash::Action(requested_resource(s, h)), LinkTypes::ResourceToBookingRequests)
                == without_targets(resource_edges(s, h), seq![h])
        }),
{
    let ghost s = store@;
    let record = match store.get(original_booking_request_hash) {
        Some(rec) => rec,
        None => return Err(BookieError::NotFound),
    };
    let resource_hash = match &record.entry {
        EntryTypes::BookingRequest(q) => q.resource_hash,
        _ => {
            assert(!has_kind(s, original_booking_request_hash, UnitEntryTypes::BookingRequest));
            return Err(BookieError::MalformedData);
        },
    };
    assert(resource_hash == requested_resource(s, original_booking_request_hash));
    let links = store.get_links(AnyLinkableHash::Action(resource_hash), LinkTypes::ResourceToBookingRequests);
    proof {
        lemma_links_upto(s, AnyLinkableHash::Action(resource_hash), LinkTypes::ResourceToBookingRequests, s.len() as int);
    }
    if !store.has_room_for(links.len()) {
        return Err(BookieError::HostFailure);
    }
    let hs = vec![original_booking_request_hash];
    assert(hs@ =~= seq![original_booking_request_hash]);
    remove_links_to(store, ctx, &links, &hs);
    proof {
        let base = AnyLinkableHash::Action(resource_hash);
        let rt = LinkTypes::ResourceToBookingRequests;
        lemma_removals_effect(s, ctx, base, rt, hs@, base, rt);
    }
    Ok(())
}

/// The requester's own edges to its booking requests.
pub open spec fn my_edges(s: Seq<SignedAction>, ctx: AgentContext) -> Seq<crate::store::Link> {
    links_of(s, AnyLinkableHash::Agent(ctx.agent), LinkTypes::MyBookingRequests)
}

/// The actions that withdrawing the request at `h` appends: removal of the
/// requester's edges to it, then of the Resource's edges to it, then its
/// tombstone.
pub open spec fn withdrawal_actions(s: Seq<SignedAction>, ctx: AgentContext, h: ActionHash, own: bool) -> Seq<SignedAction> {
    (if own {
        removals(ctx, my_edges(s, ctx), seq![h])
    } else {
        Seq::empty()
    }) + removals(ctx, resource_edges(s, h), seq![h]) + seq![signed(ctx, Action::Delete { deletes_address: h })]
}

/// How many actions withdrawing the request at `h` may need.
pub open spec fn withdrawal_bound(s: Seq<SignedAction>, ctx: AgentContext, h: ActionHash, own: bool) -> int {
    (if own { my_edges(s, ctx).len() as int } else { 0 }) + resource_edges(s, h).len() + 1
}

/// Removes the edges to a live booking request, the requester's own too where
/// `own`, and only then tombstones it, so that no edge cleanup races a
/// tombstone.
fn withdraw(store: &mut Store, ctx: AgentContext, h: ActionHash, own: bool) -> (r: Result<(), BookieError>)
    requires
        old(store).wf(),
    ensures
        final(store).wf(),
        ({
            let s = old(store)@;
            let room = s.len() + withdrawal_bound(s, ctx, h, own) <= MAX_ACTIONS;
            &&& !is_live(s, h) ==> r == Err::<(), BookieError>(BookieError::NotFound)
            &&& is_live(s, h) && !has_kind(s, h, UnitEntryTypes::BookingRequest) ==> r == Err::<(), BookieError>(BookieError::MalformedData)
            &&& live_request(s, h) && !room ==> r == Err::<(), BookieError>(BookieError::HostFailure)
            &&& r is Ok <==> (live_request(s, h) && room)
            &&& r is Err ==> final(store)@ == s
            &&& r is Ok ==> final(store)@ == s + withdrawal_actions(s, ctx, h, own)
        }),
{
    let ghost s = store@;
    let record = match store.get(h) {
        Some(rec) => rec,
        None => return Err(BookieError::NotFound),
    };
    let resource_hash = match &record.entry {
        EntryTypes::BookingRequest(q) => q.resource_hash,
        _ => {
            assert(!has_kind(s, h, UnitEntryTypes::BookingRequest));
            return Err(BookieError::MalformedData);
        },
    };
    assert(resource_hash == requested_resource(s, h));
    let mine = if own {
        store.get_links(AnyLinkableHash::Agent(ctx.agent), LinkTypes::MyBookingRequests)
    } else {
        Vec::new()
    };
    let theirs = store.get_links(AnyLinkableHash::Action(resource_hash), LinkTypes::ResourceToBookingRequests);
    proof {
        lemma_links_upto(s, AnyLinkableHash::Agent(ctx.agent), LinkTypes::MyBookingRequests, s.len() as int);
        lemma_links_len(s, AnyLinkableHash::Agent(ctx.agent), LinkTypes::MyBookingRequests, s.len() as int);
        lemma_links_upto(s, AnyLinkableHash::Action(resource_hash), LinkTypes::ResourceToBookingRequests, s.len() as int);
        lemma_links_len(s, AnyLinkableHash::Action(resource_hash), LinkTypes::ResourceToBookingRequests, s.len() as int);
    }
    if !store.has_room_for(mine.len() + theirs.len() + 1) {
        return Err(BookieError::HostFailure);
    }
    let hs = vec![h];
    assert(hs@ =~= seq![h]);
    remove_links_to(store, ctx, &mine, &hs);
    let ghost s1 = store@;
    proof {
        lemma_removals_len(ctx, mine@, hs@);
        assert forall|k: int| 0 <= k < theirs@.len() implies {
            let l = #[trigger] theirs@[k];
            &&& (l.create_link_hash.0 as int) < s1.len()
            &&& link_at(s1, l.create_link_hash.0 as int) is Some
            &&& !link_at(s1, l.create_link_hash.0 as int)->Some_0.link_type.is_audit_trail()
        } by {
            let l = theirs@[k];
            assert(s1[l.create_link_hash.0 as int] == s[l.create_link_hash.0 as int]);
        }
    }
    remove_links_to(store, ctx, &theirs, &hs);
    let ghost s2 = store@;
    proof {
        lemma_removals_len(ctx, theirs@, hs@);
        assert(s2[h.0 as int] == s[h.0 as int]);
    }
    match delete_entry(store, ctx, h) {
        Ok(_) => {},
        Err(e) => return Err(e),
    }
    proof {
        if !own {
            assert(mine@ =~= Seq::<crate::store::Link>::empty());
        }
        assert(store@ =~= s + withdrawal_actions(s, ctx, h, own));
    }
    Ok(())
}

/// A withdrawn request resolves to absent.
pub proof fn lemma_withdrawn_is_absent(s: Seq<SignedAction>, ctx: AgentContext, h: ActionHash, own: bool)
    requires
        live_request(s, h),
    ensures
        is_deleted(s + withdrawal_actions(s, ctx, h, own), h),
        !is_live(s + withdrawal_actions(s, ctx, h, own), h),
        resolve_latest(s + withdrawal_actions(s, ctx, h, own), h) == Ok::<Option<ActionHash>, BookieError>(None),
{
    let f = s + withdrawal_actions(s, ctx, h, own);
    let last = f.len() - 1;
    assert(f[last] == signed(ctx, Action::Delete { deletes_address: h }));
    assert(is_tombstone_of(f[last], h));
    assert(f[h.0 as int] == s[h.0 as int]);
}

/// Turns down a booking request: its Resource's edges to it are removed, then
/// it is tombstoned.
pub fn reject_booking_request(store: &mut Store, ctx: AgentContext, original_booking_request_hash: ActionHash) -> (r: Result<(), BookieError>)
    requires
        old(store).wf(),
    ensures
        final(store).wf(),
        ({
            let s = old(store)@;
            let h = original_booking_request_hash;
            let room = s.len() + withdrawal_bound(s, ctx, h, false) <= MAX_ACTIONS;
            &&& !is_live(s, h) ==> r == Err::<(), BookieError>(BookieError::NotFound)
            &&& is_live(s, h) && !has_kind(s, h, UnitEntryTypes::BookingRequest) ==> r == Err::<(), BookieError>(BookieError::MalformedData)
            &&& live_request(s, h) && !room ==> r == Err::<(), BookieError>(BookieError::HostFailure)
            &&& r is Ok <==> (live_request(s, h) && room)
            &&& r is Err ==> final(store)@ == s
            &&& r is Ok ==> final(store)@ == s + withdrawal_actions(s, ctx, h, false)
            &&& r is Ok ==> resolve_latest(final(store)@, h) == Ok::<Option<ActionHash>, BookieError>(None)
        }),
{
    let r = withdraw(store, ctx, original_booking_request_hash, false);
    proof {
        if r is Ok {
            lemma_withdrawn_is_absent(old(store)@, ctx, original_booking_request_hash, false);
        }
    }
    r
}

/// The requester withdraws a booking request: its own edge to it and its
/// Resource's edges to it are removed, then it is tombstoned.
pub fn cancel_booking_request(store: &mut Store, ctx: AgentContext, original_booking_request_hash: ActionHash) -> (r: Result<(), BookieError>)
    requires
        old(store).wf(),
    ensures
        final(store).wf(),
        ({
            let s = old(store)@;
            let h = original_booking_request_hash;
            let room = s.len() + withdrawal_bound(s, ctx, h, true) <= MAX_ACTIONS;
            &&& !is_live(s, h) ==> r == Err::<(), BookieError>(BookieError::NotFound)
            &&& is_live(s, h) && !has_kind(s, h, UnitEntryTypes::BookingRequest) ==> r == Err::<(), BookieError>(BookieError::MalformedData)
            &&& live_request(s, h) && !room ==> r == Err::<(), BookieError>(BookieError::HostFailure)
            &&& r is Ok <==> (live_request(s, h) && room)
            &&& r is Err ==> final(store)@ == s
            &&& r is Ok ==> final(store)@ == s + withdrawal_actions(s, ctx, h, true)
            &&& r is Ok ==> resolve_latest(final(store)@, h) == Ok::<Option<ActionHash>, BookieError>(None)
        }),
{
    let r = withdraw(store, ctx, original_booking_request_hash, true);
    proof {
        if r is Ok {
            lemma_withdrawn_is_absent(old(store)@, ctx, original_booking_request_hash, true);
        }
    }
    r
}

} // verus!
