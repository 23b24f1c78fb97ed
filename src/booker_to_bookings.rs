use vstd::prelude::*;
use crate::schema::{ActionHash, AgentPubKey, AnyLinkableHash, LinkTypes};
use crate::store::{exists_at, links_of, Record, Store, MAX_ACTIONS};
use crate::validation::BookieError;
use crate::host::{create_link, get_linked_records, link_action, live_targets, records_at, signed, AgentContext};

verus! {

/// Links any identity to a stored booking.
pub fn add_booking_for_booker(store: &mut Store, ctx: AgentContext, booker: AgentPubKey, booking_hash: ActionHash) -> (r: Result<(), BookieError>)
    requires
        old(store).wf(),
    ensures
        final(store).wf(),
        ({
            let s = old(store)@;
            &&& !exists_at(s, booking_hash) ==> r == Err::<(), BookieError>(BookieError::NotFound)
            &&& exists_at(s, booking_hash) && s.len() + 1 > MAX_ACTIONS ==> r == Err::<(), BookieError>(BookieError::HostFailure)
            &&& r is Ok <==> (exists_at(s, booking_hash) && s.len() + 1 <= MAX_ACTIONS)
            &&& r is Err ==> final(store)@ == s
            &&& r is Ok ==> final(store)@ == s.push(
                signed(ctx, link_action(AnyLinkableHash::Agent(booker), booking_hash, LinkTypes::BookerToBookings)),
            )
        }),
{
    match create_link(store, ctx, AnyLinkableHash::Agent(booker), booking_hash, LinkTypes::BookerToBookings) {
        Ok(_) => Ok(()),
        Err(e) => Err(e),
    }
}

/// The live bookings linked to a booker, in edge order.
pub fn get_bookings_for_booker(store: &Store, booker: AgentPubKey) -> (r: Vec<Record>)
    requires
        store.wf(),
    ensures
        records_at(r@, store@, live_targets(store@, links_of(store@, AnyLinkableHash::Agent(booker), LinkTypes::BookerToBookings))),
{
    get_linked_records(store, AnyLinkableHash::Agent(booker), LinkTypes::BookerToBookings)
}

} // verus!
