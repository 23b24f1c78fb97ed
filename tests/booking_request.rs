use bookie::{
    cancel_booking_request, create_booking_request, create_resource, delete_booking_request, get_booking_request,
    get_booking_requests_for_resource, get_my_booking_requests, reject_booking_request, update_booking_request,
    ActionHash, AgentContext, AgentPubKey, BookieError, BookingRequest, EntryHash, EntryTypes, Reason, Record,
    Resource, Store, Timestamp, UpdateBookingRequestInput,
};

fn requester_at(now: i64) -> AgentContext {
    AgentContext { agent: AgentPubKey(1), now: Timestamp(now) }
}

fn request_resource(store: &mut Store, n: u64) -> ActionHash {
    let resource = Resource {
        name: format!("Lorem ipsum {}", n),
        description: format!("Lorem ipsum {}", n),
        image_hash: EntryHash(100 + n),
    };
    create_resource(store, requester_at(1), resource).unwrap().action_hash
}

fn sample_booking_request_1(store: &mut Store) -> BookingRequest {
    BookingRequest {
        resource_hash: request_resource(store, 1),
        title: "Lorem ipsum dolor sit amet, consectetur adipiscing elit.".to_string(),
        comment: "Lorem ipsum dolor sit amet, consectetur adipiscing elit.".to_string(),
        start_time: Timestamp(1674053334548000),
        end_time: Timestamp(1674053334548000),
    }
}

fn sample_booking_request_2(store: &mut Store) -> BookingRequest {
    BookingRequest {
        resource_hash: request_resource(store, 2),
        title: "Lorem ipsum 2".to_string(),
        comment: "Lorem ipsum 2".to_string(),
        start_time: Timestamp(1674059334548000),
        end_time: Timestamp(1674059334548000),
    }
}

fn request_of(record: &Record) -> BookingRequest {
    match &record.entry {
        EntryTypes::BookingRequest(q) => q.clone(),
        other => panic!("not a booking request: {:?}", other),
    }
}

#[test]
fn create_booking_request_test() {
    let mut store = Store::new();
    let sample = sample_booking_request_1(&mut store);
    let record = create_booking_request(&mut store, requester_at(10), sample.clone()).unwrap();
    let entry = request_of(&record);
    assert!(entry.eq(&sample));
}

#[test]
fn create_and_read_booking_request() {
    let mut store = Store::new();
    let sample = sample_booking_request_1(&mut store);
    let record = create_booking_request(&mut store, requester_at(10), sample).unwrap();
    let get_record = get_booking_request(&store, record.action_hash).unwrap();
    let output = get_record.unwrap();
    assert_eq!(record, output.booking_request);
    assert!(output.deletes.is_empty());
}

#[test]
fn create_and_update_booking_request() {
    let mut store = Store::new();
    let sample_1 = sample_booking_request_1(&mut store);
    let record = create_booking_request(&mut store, requester_at(10), sample_1.clone()).unwrap();
    let original_action_hash = record.action_hash;

    let sample_2 = sample_booking_request_2(&mut store);
    let input = UpdateBookingRequestInput {
        previous_booking_request_hash: original_action_hash,
        updated_booking_request: sample_2.clone(),
    };
    let update_record = update_booking_request(&mut store, requester_at(20), input).unwrap();
    assert_eq!(sample_2, request_of(&update_record));
    let get_record = get_booking_request(&store, original_action_hash).unwrap();
    assert_eq!(update_record, get_record.unwrap().booking_request);

    let input = UpdateBookingRequestInput {
        previous_booking_request_hash: update_record.action_hash,
        updated_booking_request: sample_1.clone(),
    };
    let update_record = update_booking_request(&mut store, requester_at(30), input).unwrap();
    assert_eq!(sample_1, request_of(&update_record));
    let get_record = get_booking_request(&store, original_action_hash).unwrap();
    assert_eq!(update_record, get_record.unwrap().booking_request);
}

#[test]
fn create_and_delete_booking_request() {
    let mut store = Store::new();
    let sample = sample_booking_request_1(&mut store);
    let record = create_booking_request(&mut store, requester_at(10), sample).unwrap();
    let original_action_hash = record.action_hash;
    let _delete_action_hash = delete_booking_request(&mut store, requester_at(20), original_action_hash).unwrap();
    let get_record = get_booking_request(&store, original_action_hash).unwrap();
    assert!(get_record.is_none());
}

#[test]
fn cancelled_request_leaves_resource_and_requester() {
    let mut store = Store::new();
    let sample = sample_booking_request_1(&mut store);
    let resource = sample.resource_hash;
    let q = create_booking_request(&mut store, requester_at(10), sample).unwrap();
    assert_eq!(get_booking_requests_for_resource(&store, resource), vec![q.clone()]);
    cancel_booking_request(&mut store, requester_at(20), q.action_hash).unwrap();
    assert!(get_booking_requests_for_resource(&store, resource).is_empty());
    assert!(get_booking_request(&store, q.action_hash).unwrap().is_none());
    assert!(get_my_booking_requests(&store, requester_at(30)).is_empty());
    // The edge from the resource was removed, not only filtered.
    assert!(store.get_links(bookie::AnyLinkableHash::Action(resource), bookie::LinkTypes::ResourceToBookingRequests).is_empty());
}

#[test]
fn rejected_request_keeps_requester_edge() {
    let mut store = Store::new();
    let sample = sample_booking_request_1(&mut store);
    let resource = sample.resource_hash;
    let q = create_booking_request(&mut store, requester_at(10), sample).unwrap();
    let owner = AgentContext { agent: AgentPubKey(7), now: Timestamp(20) };
    reject_booking_request(&mut store, owner, q.action_hash).unwrap();
    assert!(get_booking_requests_for_resource(&store, resource).is_empty());
    assert!(get_booking_request(&store, q.action_hash).unwrap().is_none());
    assert_eq!(get_my_booking_requests(&store, requester_at(30)), vec![q.action_hash]);
}

#[test]
fn cancel_of_unknown_or_foreign_address_fails_without_writes() {
    let mut store = Store::new();
    let resource = request_resource(&mut store, 1);
    let before = store.len();
    assert_eq!(cancel_booking_request(&mut store, requester_at(10), ActionHash(77)), Err(BookieError::NotFound));
    assert_eq!(cancel_booking_request(&mut store, requester_at(10), resource), Err(BookieError::MalformedData));
    assert_eq!(store.len(), before);
}

#[test]
fn concurrent_updates_resolve_to_latest_timestamp() {
    let mut store = Store::new();
    let sample = sample_booking_request_1(&mut store);
    let q = create_booking_request(&mut store, requester_at(10), sample.clone()).unwrap();
    let mut second = sample.clone();
    second.title = "U2".to_string();
    let mut first = sample.clone();
    first.title = "U1".to_string();
    // U2 carries the later timestamp although it is stored first.
    let u2 = update_booking_request(
        &mut store,
        AgentContext { agent: AgentPubKey(2), now: Timestamp(200) },
        UpdateBookingRequestInput { previous_booking_request_hash: q.action_hash, updated_booking_request: second.clone() },
    )
    .unwrap();
    let _u1 = update_booking_request(
        &mut store,
        AgentContext { agent: AgentPubKey(3), now: Timestamp(100) },
        UpdateBookingRequestInput { previous_booking_request_hash: q.action_hash, updated_booking_request: first },
    )
    .unwrap();
    let latest = get_booking_request(&store, q.action_hash).unwrap().unwrap().booking_request;
    assert_eq!(latest, u2);
    assert_eq!(request_of(&latest), second);
    // Asking again gives the same answer.
    assert_eq!(get_booking_request(&store, q.action_hash).unwrap().unwrap().booking_request, latest);
}

#[test]
fn request_for_a_non_resource_is_invalid() {
    let mut store = Store::new();
    let sample = sample_booking_request_1(&mut store);
    let q = create_booking_request(&mut store, requester_at(10), sample.clone()).unwrap();
    let before = store.len();
    let mut bad = sample.clone();
    bad.resource_hash = q.action_hash;
    let r = create_booking_request(&mut store, requester_at(20), bad);
    assert_eq!(r, Err(BookieError::Invalid(Reason::MissingDependency)));
    assert_eq!(store.len(), before);
}

#[test]
fn request_for_a_missing_address_is_not_found() {
    let mut store = Store::new();
    let mut sample = sample_booking_request_1(&mut store);
    sample.resource_hash = ActionHash(4242);
    let r = create_booking_request(&mut store, requester_at(10), sample);
    assert_eq!(r, Err(BookieError::NotFound));
}

#[test]
fn updates_in_sequence_then_delete() {
    let mut store = Store::new();
    let sample = sample_booking_request_1(&mut store);
    let q = create_booking_request(&mut store, requester_at(10), sample.clone()).unwrap();
    let mut prev = q.action_hash;
    let mut last = q.clone();
    for n in 0..4 {
        let mut next = sample.clone();
        next.comment = format!("version {}", n);
        last = update_booking_request(
            &mut store,
            requester_at(20 + n),
            UpdateBookingRequestInput { previous_booking_request_hash: prev, updated_booking_request: next },
        )
        .unwrap();
        prev = last.action_hash;
    }
    assert_eq!(get_booking_request(&store, q.action_hash).unwrap().unwrap().booking_request, last);
    assert_eq!(request_of(&last).comment, "version 3");
    delete_booking_request(&mut store, requester_at(40), q.action_hash).unwrap();
    assert!(get_booking_request(&store, q.action_hash).unwrap().is_none());
    // No successor is taken past the tombstone through the API.
    let attempt = update_booking_request(
        &mut store,
        requester_at(50),
        UpdateBookingRequestInput { previous_booking_request_hash: q.action_hash, updated_booking_request: sample },
    );
    assert_eq!(attempt, Err(BookieError::NotFound));
    assert!(get_booking_request(&store, q.action_hash).unwrap().is_none());
}

#[test]
fn get_booking_request_of_missing_address_is_not_found() {
    let store = Store::new();
    assert_eq!(get_booking_request(&store, ActionHash(3)), Err(BookieError::NotFound));
}
