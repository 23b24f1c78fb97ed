use vstd::prelude::*;
use crate::schema::{ActionHash, AnyLinkableHash, LinkTypes};
use crate::store::{links_of, Link, Store, MAX_ACTIONS};
use crate::validation::BookieError;
use crate::host::{
    lemma_links_len, lemma_links_upto, lemma_removals_effect, remove_links_to, removals, without_targets, AgentContext,
};

verus! {

/// The targets of `ls`, in order.
pub open spec fn targets(ls: Seq<Link>) -> Seq<ActionHash> {
    ls.map_values(|l: Link| l.target_address)
}

/// The addresses the acting agent's own booking-request edges point at, in
/// edge order; nothing is looked up, so deleted requests are listed too.
pub fn get_my_booking_requests(store: &Store, ctx: AgentContext) -> (r: Vec<ActionHash>)
    requires
        store.wf(),
    ensures
        r@ == targets(links_of(store@, AnyLinkableHash::Agent(ctx.agent), LinkTypes::MyBookingRequests)),
{
    let links = store.get_links(AnyLinkableHash::Agent(ctx.agent), LinkTypes::MyBookingRequests);
    let mut out: Vec<ActionHash> = Vec::new();
    let mut i: usize = 0;
    while i < links.len()
        invariant
            i <= links.len(),
            out@ == targets(links@.take(i as int)),
        decreases links.len() - i,
    {
        out.push(links[i].target_address);
        i = i + 1;
        assert(out@ =~= targets(links@.take(i as int)));
    }
    assert(links@.take(links@.len() as int) =~= links@);
    out
}

/// Removes the acting agent's own booking-request edges whose target is among
/// `booking_requests_hashes`; the requests themselves stay.
pub fn clear_my_booking_requests(store: &mut Store, ctx: AgentContext, booking_requests_hashes: Vec<ActionHash>) -> (r: Result<(), BookieError>)
    requires
        old(store).wf(),
    ensures
        final(store).wf(),
        ({
            let s = old(store)@;
            let mine = links_of(s, AnyLinkableHash::Agent(ctx.agent), LinkTypes::MyBookingRequests);
            &&& r is Ok <==> s.len() + mine.len() <= MAX_ACTIONS
            &&& r is Err ==> r == Err::<(), BookieError>(BookieError::HostFailure) && final(store)@ == s
            &&& r is Ok ==> final(store)@ == s + removals(ctx, mine, booking_requests_hashes@)
            &&& r is Ok ==> links_of(final(store)@, AnyLinkableHash::Agent(ctx.agent), LinkTypes::MyBookingRequests)
                == without_targets(mine, booking_requests_hashes@)
        }),
        r is Ok ==> forall|b: AnyLinkableHash, t: LinkTypes|
            !(b == AnyLinkableHash::Agent(ctx.agent) && t == LinkTypes::MyBookingRequests)
                ==> #[trigger] links_of(final(store)@, b, t) == links_of(old(store)@, b, t),
{
    let ghost s = store@;
    let links = store.get_links(AnyLinkableHash::Agent(ctx.agent), LinkTypes::MyBookingRequests);
    proof {
        lemma_links_upto(s, AnyLinkableHash::Agent(ctx.agent), LinkTypes::MyBookingRequests, s.len() as int);
        lemma_links_len(s, AnyLinkableHash::Agent(ctx.agent), LinkTypes::MyBookingRequests, s.len() as int);
    }
    if !store.has_room_for(links.len()) {
        return Err(BookieError::HostFailure);
    }
    remove_links_to(store, ctx, &links, &booking_requests_hashes);
    proof {
        let base = AnyLinkableHash::Agent(ctx.agent);
        let mbr = LinkTypes::MyBookingRequests;
        lemma_removals_effect(s, ctx, base, mbr, booking_requests_hashes@, base, mbr);
        assert forall|b: AnyLinkableHash, t: LinkTypes| !(b == base && t == mbr)
            implies #[trigger] links_of(store@, b, t) == links_of(s, b, t) by {
            lemma_removals_effect(s, ctx, base, mbr, booking_requests_hashes@, b, t);
        }
    }
    Ok(())
}

} // verus!
