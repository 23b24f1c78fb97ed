use vstd::prelude::*;
use crate::schema::{ActionHash, AnyLinkableHash, Booking, EntryTypes, LinkTypes};
use crate::store::{is_live, links_of, record_of, Action, Record, SignedAction, Store, MAX_ACTIONS};
use crate::validation::{commit_outcome, commit_state, create_booking_outcome, BookieError, ValidateCallbackResult};
use crate::host::{
    create_entry, create_link, delete_entry, get_linked_records, lemma_untouched_entry_resolves, leaves_alone,
    link_action, live_targets, records_at, signed, update_entry, AgentContext,
};
use crate::resolve::{get_latest, resolve_latest, resolved_as};
use crate::booking_request::rejection;

verus! {

/// Supersedes `previous_booking_hash` with `updated_booking`.
#[derive(Clone, Debug, PartialEq, Eq)]
pub struct UpdateBookingInput {
    pub previous_booking_hash: ActionHash,
    pub updated_booking: Booking,
}

/// The actions that creating `b` appends, the entry at `h`: the entry, the edge
/// from its request where it names one, then the edge from its Resource.
pub open spec fn create_booking_actions(ctx: AgentContext, b: Booking, h: ActionHash) -> Seq<SignedAction> {
    let entry = seq![signed(ctx, Action::Create { entry: EntryTypes::Booking(b) })];
    let from_request = match b.booking_request_hash {
        Some(q) => seq![signed(ctx, link_action(AnyLinkableHash::Action(q), h, LinkTypes::BookingRequestToBookings))],
        None => Seq::empty(),
    };
    entry + from_request + seq![signed(ctx, link_action(AnyLinkableHash::Action(b.resource_hash), h, LinkTypes::ResourceToBookings))]
}

/// Records a confirmed booking of a stored Resource, optionally for a stored
/// BookingRequest: the entry first, then its edges. A fresh booking is its own
/// latest version.
pub fn create_booking(store: &mut Store, ctx: AgentContext, booking: Booking) -> (r: Result<Record, BookieError>)
    requires
        old(store).wf(),
    ensures
        final(store).wf(),
        ({
            let s = old(store)@;
            let v = create_booking_outcome(s, booking);
            let h = ActionHash(s.len() as u64);
            &&& s.len() + 3 > MAX_ACTIONS ==> r == Err::<Record, BookieError>(BookieError::HostFailure)
            &&& r is Ok <==> (s.len() + 3 <= MAX_ACTIONS && v == Ok::<ValidateCallbackResult, BookieError>(ValidateCallbackResult::Valid))
            &&& s.len() + 3 <= MAX_ACTIONS && r is Err ==> r->Err_0 == rejection(v)
            &&& r is Err ==> final(store)@ == s
            &&& r is Ok ==> {
                &&& final(store)@ == s + create_booking_actions(ctx, booking, h)
                &&& r->Ok_0.action_hash == h
                &&& r->Ok_0.entry.same_as(&EntryTypes::Booking(booking))
                &&& record_of(r->Ok_0, final(store)@, h)
                &&& resolve_latest(final(store)@, h) == Ok::<Option<ActionHash>, BookieError>(Some(h))
            }
        }),
{
    if !store.has_room_for(3) {
        return Err(BookieError::HostFailure);
    }
    let ghost s0 = store@;
    let copy = booking.duplicate();
    let request_hash = booking.booking_request_hash;
    let resource_hash = booking.resource_hash;
    let h = match create_entry(store, ctx, EntryTypes::Booking(booking)) {
        Ok(h) => h,
        Err(e) => return Err(e),
    };
    if let Some(base) = request_hash {
        match create_link(store, ctx, AnyLinkableHash::Action(base), h, LinkTypes::BookingRequestToBookings) {
            Ok(_) => {},
            Err(e) => return Err(e),
        }
    }
    match create_link(store, ctx, AnyLinkableHash::Action(resource_hash), h, LinkTypes::ResourceToBookings) {
        Ok(_) => {},
        Err(e) => return Err(e),
    }
    proof {
        let s = store@;
        assert(s =~= s0 + create_booking_actions(ctx, booking, h));
        assert forall|i: int| h.0 < i < s.len() implies leaves_alone(#[trigger] s[i], h) by {}
        lemma_untouched_entry_resolves(s, h, s.len() as nat);
    }
    Ok(Record { action_hash: h, author: ctx.agent, timestamp: ctx.now, entry: EntryTypes::Booking(copy) })
}

/// Walks the implicit successor chain of a booking.
pub fn get_latest_booking(store: &Store, booking_hash: ActionHash) -> (r: Result<Option<Record>, BookieError>)
    requires
        store.wf(),
    ensures
        resolved_as(r, store@, resolve_latest(store@, booking_hash)),
{
    get_latest(store, booking_hash)
}

/// The current state of the booking created at `original_booking_hash`.
pub fn get_booking(store: &Store, original_booking_hash: ActionHash) -> (r: Result<Option<Record>, BookieError>)
    requires
        store.wf(),
    ensures
        resolved_as(r, store@, resolve_latest(store@, original_booking_hash)),
{
    get_latest_booking(store, original_booking_hash)
}

/// Supersedes a live booking version. A deleted version takes no successor.
pub fn update_booking(store: &mut Store, ctx: AgentContext, input: UpdateBookingInput) -> (r: Result<Record, BookieError>)
    requires
        old(store).wf(),
    ensures
        final(store).wf(),
        ({
            let s = old(store)@;
            let prev = input.previous_booking_hash;
            let u = signed(ctx, Action::Update { original_action_address: prev, entry: EntryTypes::Booking(input.updated_booking) });
            let h = ActionHash(s.len() as u64);
            &&& s.len() + 1 > MAX_ACTIONS ==> r == Err::<Record, BookieError>(BookieError::HostFailure)
            &&& s.len() + 1 <= MAX_ACTIONS && !is_live(s, prev) ==> r == Err::<Record, BookieError>(BookieError::NotFound)
            &&& r is Ok <==> (s.len() + 1 <= MAX_ACTIONS && is_live(s, prev) && commit_outcome(s, u) is Ok)
            &&& s.len() + 1 <= MAX_ACTIONS && is_live(s, prev) && r is Err ==> r->Err_0 == commit_outcome(s, u)->Err_0
            &&& r is Err ==> final(store)@ == s
            &&& r is Ok ==> {
                &&& final(store)@ == s.push(u)
                &&& r->Ok_0.action_hash == h
                &&& r->Ok_0.entry.same_as(&EntryTypes::Booking(input.updated_booking))
                &&& record_of(r->Ok_0, final(store)@, h)
            }
        }),
{
    if !store.has_room_for(1) {
        return Err(BookieError::HostFailure);
    }
    if store.get(input.previous_booking_hash).is_none() {
        return Err(BookieError::NotFound);
    }
    let UpdateBookingInput { previous_booking_hash, updated_booking } = input;
    let copy = updated_booking.duplicate();
    let h = match update_entry(store, ctx, previous_booking_hash, EntryTypes::Booking(updated_booking)) {
        Ok(h) => h,
        Err(e) => return Err(e),
    };
    Ok(Record { action_hash: h, author: ctx.agent, timestamp: ctx.now, entry: EntryTypes::Booking(copy) })
}

/// Tombstones the booking version at `original_booking_hash`.
pub fn delete_booking(store: &mut Store, ctx: AgentContext, original_booking_hash: ActionHash) -> (r: Result<ActionHash, BookieError>)
    requires
        old(store).wf(),
    ensures
        final(store).wf(),
        r == commit_outcome(old(store)@, signed(ctx, Action::Delete { deletes_address: original_booking_hash })),
        final(store)@ == commit_state(old(store)@, signed(ctx, Action::Delete { deletes_address: original_booking_hash })),
{
    delete_entry(store, ctx, original_booking_hash)
}

/// The live bookings made for a booking request, in edge order.
pub fn get_bookings_for_booking_request(store: &Store, booking_request_hash: ActionHash) -> (r: Vec<Record>)
    requires
        store.wf(),
    ensures
        records_at(r@, store@, live_targets(store@, links_of(store@, AnyLinkableHash::Action(booking_request_hash), LinkTypes::BookingRequestToBookings))),
{
    get_linked_records(store, AnyLinkableHash::Action(booking_request_hash), LinkTypes::BookingRequestToBookings)
}

/// The live bookings of a Resource, in edge order.
pub fn get_bookings_for_resource(store: &Store, resource_hash: ActionHash) -> (r: Vec<Record>)
    requires
        store.wf(),
    ensures
        records_at(r@, store@, live_targets(store@, links_of(store@, AnyLinkableHash::Action(resource_hash), LinkTypes::ResourceToBookings))),
{
    get_linked_records(store, AnyLinkableHash::Action(resource_hash), LinkTypes::ResourceToBookings)
}

} // verus!
