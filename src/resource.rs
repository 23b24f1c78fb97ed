use vstd::prelude::*;
use crate::schema::{
    ActionHash, AnyLinkableHash, EntryHash, EntryTypes, LinkTypes, Resource, UnitEntryTypes, ALL_RESOURCES_ANCHOR,
};
use crate::store::{
    exists_at, is_live, is_live_link, record_of, refers_back, Action, Record, Store,
    MAX_ACTIONS,
};
use crate::validation::{commit_outcome, commit_state, has_kind, BookieError};
use crate::host::{
    create_entry, create_link, delete_entry, lemma_no_links, link_action, signed, update_entry, AgentContext,
};
use crate::resolve::{get_resource_head, link_refs, resource_head};

verus! {

/// Supersedes `previous_resource_hash` and records the new version under the
/// chain's `original_resource_hash`.
#[derive(Clone, Debug, PartialEq, Eq)]
pub struct UpdateResourceInput {
    pub original_resource_hash: ActionHash,
    pub previous_resource_hash: ActionHash,
    pub updated_resource: Resource,
}

pub open spec fn all_resources_base() -> AnyLinkableHash {
    AnyLinkableHash::Entry(EntryHash(ALL_RESOURCES_ANCHOR))
}

/// The actions that creating `resource` appends, the entry at `h`.
pub open spec fn create_resource_actions(ctx: AgentContext, resource: Resource, h: ActionHash) -> Seq<crate::store::SignedAction> {
    seq![
        signed(ctx, Action::Create { entry: EntryTypes::Resource(resource) }),
        signed(ctx, link_action(all_resources_base(), h, LinkTypes::AllResources)),
        signed(ctx, link_action(AnyLinkableHash::Agent(ctx.agent), h, LinkTypes::MyResources)),
    ]
}

/// Publishes a Resource: the entry, then its edges from the global anchor and
/// from the author. The new Resource is its own latest version.
pub fn create_resource(store: &mut Store, ctx: AgentContext, resource: Resource) -> (r: Result<Record, BookieError>)
    requires
        old(store).wf(),
    ensures
        final(store).wf(),
        old(store)@.len() + 3 > MAX_ACTIONS ==> r == Err::<Record, BookieError>(BookieError::HostFailure)
            && final(store)@ == old(store)@,
        old(store)@.len() + 3 <= MAX_ACTIONS ==> {
            let h = ActionHash(old(store)@.len() as u64);
            &&& r is Ok
            &&& final(store)@ == old(store)@ + create_resource_actions(ctx, resource, h)
            &&& r->Ok_0.action_hash == h
            &&& r->Ok_0.entry == EntryTypes::Resource(resource)
            &&& record_of(r->Ok_0, final(store)@, h)
            &&& resource_head(final(store)@, h) == h
            &&& is_live(final(store)@, h)
        },
{
    if !store.has_room_for(3) {
        return Err(BookieError::HostFailure);
    }
    let ghost s0 = store@;
    let copy = resource.duplicate();
    let h = match create_entry(store, ctx, EntryTypes::Resource(resource)) {
        Ok(h) => h,
        Err(e) => return Err(e),
    };
    match create_link(store, ctx, AnyLinkableHash::Entry(EntryHash(ALL_RESOURCES_ANCHOR)), h, LinkTypes::AllResources) {
        Ok(_) => {},
        Err(e) => return Err(e),
    }
    match create_link(store, ctx, AnyLinkableHash::Agent(ctx.agent), h, LinkTypes::MyResources) {
        Ok(_) => {},
        Err(e) => return Err(e),
    }
    proof {
        let s = store@;
        assert(s =~= s0 + create_resource_actions(ctx, resource, h));
        assert forall|i: int| 0 <= i < s.len() implies !#[trigger] is_live_link(s, i, AnyLinkableHash::Action(h), LinkTypes::ResourceUpdates) by {
            if i < s0.len() {
                assert(refers_back(s[i], i));
            }
        }
        lemma_no_links(s, AnyLinkableHash::Action(h), LinkTypes::ResourceUpdates, s.len() as int);
        assert(link_refs(Seq::empty()) =~= Seq::empty());
        assert forall|i: int| 0 <= i < s.len() implies !#[trigger] crate::store::is_tombstone_of(s[i], h) by {
            if i < s0.len() {
                assert(refers_back(s[i], i));
            }
        }
    }
    Ok(Record { action_hash: h, author: ctx.agent, timestamp: ctx.now, entry: EntryTypes::Resource(copy) })
}

/// The latest version of the Resource created at `original_resource_hash`:
/// the target of its latest `ResourceUpdates` edge, or the original, looked
/// up directly.
pub fn get_resource(store: &Store, original_resource_hash: ActionHash) -> (r: Option<Record>)
    requires
        store.wf(),
    ensures
        r is Some == is_live(store@, resource_head(store@, original_resource_hash)),
        r is Some ==> record_of(r->Some_0, store@, resource_head(store@, original_resource_hash)),
{
    get_resource_head(store, original_resource_hash)
}

/// Supersedes a live Resource version and links the new version from the
/// original. A deleted version takes no successor.
pub fn update_resource(store: &mut Store, ctx: AgentContext, input: UpdateResourceInput) -> (r: Result<Record, BookieError>)
    requires
        old(store).wf(),
    ensures
        final(store).wf(),
        ({
            let s = old(store)@;
            let prev = input.previous_resource_hash;
            let orig = input.original_resource_hash;
            let h = ActionHash(s.len() as u64);
            &&& s.len() + 2 > MAX_ACTIONS ==> r == Err::<Record, BookieError>(BookieError::HostFailure)
            &&& s.len() + 2 <= MAX_ACTIONS && !(is_live(s, prev) && exists_at(s, orig))
                ==> r == Err::<Record, BookieError>(BookieError::NotFound)
            &&& s.len() + 2 <= MAX_ACTIONS && is_live(s, prev) && exists_at(s, orig) && !has_kind(s, prev, UnitEntryTypes::Resource)
                ==> r == Err::<Record, BookieError>(BookieError::Invalid(crate::validation::Reason::EntryTypeMismatch))
            &&& r is Err ==> final(store)@ == s
            &&& r is Ok <==> (s.len() + 2 <= MAX_ACTIONS && is_live(s, prev) && exists_at(s, orig)
                && has_kind(s, prev, UnitEntryTypes::Resource))
            &&& r is Ok ==> {
                &&& final(store)@ == s.push(
                    signed(ctx, Action::Update { original_action_address: prev, entry: EntryTypes::Resource(input.updated_resource) }),
                ).push(signed(ctx, link_action(AnyLinkableHash::Action(orig), h, LinkTypes::ResourceUpdates)))
                &&& r->Ok_0.action_hash == h
                &&& r->Ok_0.entry == EntryTypes::Resource(input.updated_resource)
                &&& record_of(r->Ok_0, final(store)@, h)
            }
        }),
{
    if !store.has_room_for(2) {
        return Err(BookieError::HostFailure);
    }
    if store.get(input.previous_resource_hash).is_none() || store.action(input.original_resource_hash).is_none() {
        return Err(BookieError::NotFound);
    }
    let UpdateResourceInput { original_resource_hash, previous_resource_hash, updated_resource } = input;
    let copy = updated_resource.duplicate();
    let h = match update_entry(store, ctx, previous_resource_hash, EntryTypes::Resource(updated_resource)) {
        Ok(h) => h,
        Err(e) => return Err(e),
    };
    match create_link(store, ctx, AnyLinkableHash::Action(original_resource_hash), h, LinkTypes::ResourceUpdates) {
        Ok(_) => {},
        Err(e) => return Err(e),
    }
    Ok(Record { action_hash: h, author: ctx.agent, timestamp: ctx.now, entry: EntryTypes::Resource(copy) })
}

/// Tombstones the Resource version at `original_resource_hash`.
pub fn delete_resource(store: &mut Store, ctx: AgentContext, original_resource_hash: ActionHash) -> (r: Result<ActionHash, BookieError>)
    requires
        old(store).wf(),
    ensures
        final(store).wf(),
        r == commit_outcome(old(store)@, signed(ctx, Action::Delete { deletes_address: original_resource_hash })),
        final(store)@ == commit_state(old(store)@, signed(ctx, Action::Delete { deletes_address: original_resource_hash })),
{
    delete_entry(store, ctx, original_resource_hash)
}

} // verus!
