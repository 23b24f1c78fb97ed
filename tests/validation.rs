use bookie::{
    commit, create_booking, create_booking_request, create_resource, delete_link, genesis_self_check, pick_latest,
    update_resource, validate, validate_create_booking_request, validate_create_link_my_booking_requests,
    validate_create_link_resource_to_bookings, validate_delete_link_resource_to_booking_requests, Action, ActionHash,
    AgentContext, AgentPubKey, AnyLinkableHash, BookieError, Booking, BookingRequest, EntryHash, EntryTypes,
    LinkTypes, Reason, Resource, SignedAction, Store, Timestamp, UpdateRef, UpdateResourceInput,
    ValidateCallbackResult,
};

fn owner_at(now: i64) -> AgentContext {
    AgentContext { agent: AgentPubKey(1), now: Timestamp(now) }
}

fn some_resource() -> Resource {
    Resource { name: "room".to_string(), description: "a room".to_string(), image_hash: EntryHash(9) }
}

struct Fixture {
    store: Store,
    resource: ActionHash,
    request: ActionHash,
    booking: ActionHash,
}

fn fixture() -> Fixture {
    let mut store = Store::new();
    let resource = create_resource(&mut store, owner_at(1), some_resource()).unwrap().action_hash;
    let request = create_booking_request(
        &mut store,
        owner_at(2),
        BookingRequest {
            resource_hash: resource,
            title: "q".to_string(),
            comment: "c".to_string(),
            start_time: Timestamp(1),
            end_time: Timestamp(2),
        },
    )
    .unwrap()
    .action_hash;
    let booking = create_booking(
        &mut store,
        owner_at(3),
        Booking {
            title: "b".to_string(),
            start_time: Timestamp(1),
            end_time: Timestamp(2),
            bookers: vec![AgentPubKey(1)],
            booking_request_hash: Some(request),
            resource_hash: resource,
        },
    )
    .unwrap()
    .action_hash;
    Fixture { store, resource, request, booking }
}

fn first_link(store: &Store, base: ActionHash, t: LinkTypes) -> ActionHash {
    store.get_links(AnyLinkableHash::Action(base), t)[0].create_link_hash
}

#[test]
fn audit_edges_cannot_be_removed_by_their_author() {
    let mut f = fixture();
    let to_bookings = first_link(&f.store, f.resource, LinkTypes::ResourceToBookings);
    let from_request = first_link(&f.store, f.request, LinkTypes::BookingRequestToBookings);
    let before = f.store.len();
    // The edges were written by agent 1 at time 3; agent 1 asks again.
    assert_eq!(
        delete_link(&mut f.store, owner_at(4), to_bookings),
        Err(BookieError::Invalid(Reason::UndeletableLink(LinkTypes::ResourceToBookings)))
    );
    assert_eq!(
        delete_link(&mut f.store, owner_at(4), from_request),
        Err(BookieError::Invalid(Reason::UndeletableLink(LinkTypes::BookingRequestToBookings)))
    );
    assert_eq!(f.store.len(), before);
    assert_eq!(f.store.get_links(AnyLinkableHash::Action(f.resource), LinkTypes::ResourceToBookings).len(), 1);
}

#[test]
fn resource_update_edges_cannot_be_removed() {
    let mut f = fixture();
    update_resource(
        &mut f.store,
        owner_at(5),
        UpdateResourceInput {
            original_resource_hash: f.resource,
            previous_resource_hash: f.resource,
            updated_resource: some_resource(),
        },
    )
    .unwrap();
    let edge = first_link(&f.store, f.resource, LinkTypes::ResourceUpdates);
    let other = AgentContext { agent: AgentPubKey(8), now: Timestamp(6) };
    assert_eq!(
        delete_link(&mut f.store, other, edge),
        Err(BookieError::Invalid(Reason::UndeletableLink(LinkTypes::ResourceUpdates)))
    );
}

#[test]
fn enumeration_edges_can_be_removed() {
    let mut f = fixture();
    let requests = first_link(&f.store, f.resource, LinkTypes::ResourceToBookingRequests);
    assert!(delete_link(&mut f.store, owner_at(4), requests).is_ok());
    let mine = f.store.get_links(AnyLinkableHash::Agent(AgentPubKey(1)), LinkTypes::MyResources)[0].create_link_hash;
    assert!(delete_link(&mut f.store, owner_at(4), mine).is_ok());
    assert!(f.store.get_links(AnyLinkableHash::Agent(AgentPubKey(1)), LinkTypes::MyResources).is_empty());
    assert_eq!(validate_delete_link_resource_to_booking_requests(), Ok(ValidateCallbackResult::Valid));
}

#[test]
fn removal_of_a_non_edge_is_invalid() {
    let mut f = fixture();
    assert_eq!(
        delete_link(&mut f.store, owner_at(4), f.booking),
        Err(BookieError::Invalid(Reason::DeleteLinkOriginalNotCreateLink))
    );
    assert_eq!(delete_link(&mut f.store, owner_at(4), ActionHash(500)), Err(BookieError::NotFound));
}

#[test]
fn edge_ends_must_have_the_expected_kind() {
    let f = fixture();
    assert_eq!(
        validate_create_link_resource_to_bookings(&f.store, AnyLinkableHash::Action(f.resource), f.booking),
        Ok(ValidateCallbackResult::Valid)
    );
    assert_eq!(
        validate_create_link_resource_to_bookings(&f.store, AnyLinkableHash::Action(f.request), f.booking),
        Ok(ValidateCallbackResult::Invalid(Reason::LinkedActionNotEntry))
    );
    assert_eq!(
        validate_create_link_resource_to_bookings(&f.store, AnyLinkableHash::Action(f.resource), f.request),
        Ok(ValidateCallbackResult::Invalid(Reason::LinkedActionNotEntry))
    );
    assert_eq!(
        validate_create_link_resource_to_bookings(&f.store, AnyLinkableHash::Agent(AgentPubKey(1)), f.booking),
        Ok(ValidateCallbackResult::Invalid(Reason::LinkedActionNotEntry))
    );
    assert_eq!(
        validate_create_link_my_booking_requests(&f.store, AnyLinkableHash::Agent(AgentPubKey(5)), f.request),
        Ok(ValidateCallbackResult::Valid)
    );
    assert_eq!(
        validate_create_link_my_booking_requests(&f.store, AnyLinkableHash::Agent(AgentPubKey(5)), ActionHash(900)),
        Err(BookieError::NotFound)
    );
}

#[test]
fn request_validation_needs_a_resource() {
    let f = fixture();
    let mut q = BookingRequest {
        resource_hash: f.resource,
        title: "q".to_string(),
        comment: "c".to_string(),
        start_time: Timestamp(1),
        end_time: Timestamp(2),
    };
    assert_eq!(validate_create_booking_request(&f.store, &q), Ok(ValidateCallbackResult::Valid));
    q.resource_hash = f.booking;
    assert_eq!(
        validate_create_booking_request(&f.store, &q),
        Ok(ValidateCallbackResult::Invalid(Reason::MissingDependency))
    );
    // An edge action carries no entry.
    q.resource_hash = ActionHash(1);
    assert_eq!(
        validate_create_booking_request(&f.store, &q),
        Ok(ValidateCallbackResult::Invalid(Reason::MissingDependency))
    );
}

#[test]
fn updates_keep_the_entry_kind() {
    let f = fixture();
    let op = SignedAction {
        author: AgentPubKey(1),
        timestamp: Timestamp(9),
        action: Action::Update { original_action_address: f.resource, entry: EntryTypes::Resource(some_resource()) },
    };
    assert_eq!(validate(&f.store, &op), Ok(ValidateCallbackResult::Valid));
    let op = SignedAction {
        author: AgentPubKey(1),
        timestamp: Timestamp(9),
        action: Action::Update {
            original_action_address: f.request,
            entry: EntryTypes::Resource(some_resource()),
        },
    };
    assert_eq!(validate(&f.store, &op), Ok(ValidateCallbackResult::Invalid(Reason::EntryTypeMismatch)));
    let op = SignedAction {
        author: AgentPubKey(1),
        timestamp: Timestamp(9),
        action: Action::Update { original_action_address: ActionHash(1), entry: EntryTypes::Resource(some_resource()) },
    };
    assert_eq!(validate(&f.store, &op), Ok(ValidateCallbackResult::Invalid(Reason::UpdateOriginalNotEntry)));
}

#[test]
fn tombstones_need_an_entry() {
    let f = fixture();
    let op = SignedAction { author: AgentPubKey(1), timestamp: Timestamp(9), action: Action::Delete { deletes_address: ActionHash(1) } };
    assert_eq!(validate(&f.store, &op), Ok(ValidateCallbackResult::Invalid(Reason::DeleteOriginalNotEntry)));
    let op = SignedAction { author: AgentPubKey(1), timestamp: Timestamp(9), action: Action::Delete { deletes_address: f.booking } };
    assert_eq!(validate(&f.store, &op), Ok(ValidateCallbackResult::Valid));
}

#[test]
fn joining_needs_a_validation_package_first() {
    let mut store = Store::new();
    let agent = AgentPubKey(4);
    let pkg = commit(&mut store, SignedAction { author: agent, timestamp: Timestamp(1), action: Action::AgentValidationPkg }).unwrap();
    let join = SignedAction { author: agent, timestamp: Timestamp(2), action: Action::CreateAgent { agent, prev_action: pkg } };
    assert_eq!(validate(&store, &join), Ok(ValidateCallbackResult::Valid));
    let joined = commit(&mut store, join).unwrap();
    let again = SignedAction { author: agent, timestamp: Timestamp(3), action: Action::CreateAgent { agent, prev_action: joined } };
    assert_eq!(validate(&store, &again), Ok(ValidateCallbackResult::Invalid(Reason::JoinWithoutValidationPackage)));
    assert_eq!(commit(&mut store, again), Err(BookieError::Invalid(Reason::JoinWithoutValidationPackage)));
    assert_eq!(store.len(), 2);
    assert_eq!(genesis_self_check(), Ok(ValidateCallbackResult::Valid));
}

#[test]
fn edges_must_point_back_at_stored_actions() {
    let mut store = Store::new();
    let op = SignedAction {
        author: AgentPubKey(1),
        timestamp: Timestamp(1),
        action: Action::CreateLink {
            base_address: AnyLinkableHash::Agent(AgentPubKey(1)),
            target_address: ActionHash(0),
            link_type: LinkTypes::MyResources,
        },
    };
    assert_eq!(commit(&mut store, op), Err(BookieError::NotFound));
    assert_eq!(store.len(), 0);
}

#[test]
fn reasons_read_as_text() {
    assert_eq!(Reason::MissingDependency.message(), "Dependant action must be accompanied by an entry");
    assert_eq!(Reason::LinkedActionNotEntry.message(), "Linked action must reference an entry");
    assert_eq!(
        Reason::UndeletableLink(LinkTypes::ResourceToBookings).message(),
        "ResourceToBookings links cannot be deleted"
    );
    assert_eq!(
        Reason::UndeletableLink(LinkTypes::BookingRequestToBookings).message(),
        "BookingRequestToBookings links cannot be deleted"
    );
    assert_eq!(Reason::EntryTypeMismatch.message(), "Original and updated entry types must be the same");
}

#[test]
fn latest_pick_breaks_ties_by_store_order() {
    let refs = vec![
        UpdateRef { action_hash: ActionHash(3), timestamp: Timestamp(5) },
        UpdateRef { action_hash: ActionHash(4), timestamp: Timestamp(9) },
        UpdateRef { action_hash: ActionHash(5), timestamp: Timestamp(9) },
        UpdateRef { action_hash: ActionHash(6), timestamp: Timestamp(2) },
    ];
    assert_eq!(pick_latest(&refs), Some(refs[2]));
    assert_eq!(pick_latest(&Vec::new()), None);
}

#[test]
fn queries_repeat_identically() {
    let f = fixture();
    let first = bookie::get_bookings_for_resource(&f.store, f.resource);
    let second = bookie::get_bookings_for_resource(&f.store, f.resource);
    assert_eq!(first, second);
    assert_eq!(first.len(), 1);
    assert_eq!(first[0].action_hash, f.booking);
}

#[test]
fn details_list_successors_and_tombstones() {
    let mut f = fixture();
    let u = SignedAction {
        author: AgentPubKey(1),
        timestamp: Timestamp(9),
        action: Action::Update { original_action_address: f.booking, entry: EntryTypes::Booking(Booking {
            title: "b2".to_string(),
            start_time: Timestamp(1),
            end_time: Timestamp(2),
            bookers: vec![],
            booking_request_hash: None,
            resource_hash: f.resource,
        }) },
    };
    let uh = commit(&mut f.store, u).unwrap();
    let d = SignedAction { author: AgentPubKey(1), timestamp: Timestamp(10), action: Action::Delete { deletes_address: f.booking } };
    let dh = commit(&mut f.store, d).unwrap();
    let details = f.store.get_details(f.booking).unwrap();
    assert_eq!(details.updates, vec![UpdateRef { action_hash: uh, timestamp: Timestamp(9) }]);
    assert_eq!(details.deletes, vec![dh]);
    assert_eq!(bookie::get_booking(&f.store, f.booking), Ok(None));
    assert!(f.store.get(uh).is_some());
}
