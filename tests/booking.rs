use bookie::{
    create_booking, create_booking_request, create_resource, delete_booking, get_booking,
    get_bookings_for_booking_request, get_bookings_for_resource, get_booking_requests_for_resource, update_booking,
    ActionHash, AgentContext, AgentPubKey, BookieError, Booking, BookingRequest, EntryHash, EntryTypes, Reason,
    Record, Resource, Store, Timestamp, UpdateBookingInput,
};

fn booker_at(now: i64) -> AgentContext {
    AgentContext { agent: AgentPubKey(1), now: Timestamp(now) }
}

fn booking_resource(store: &mut Store, n: u64) -> ActionHash {
    let resource = Resource {
        name: format!("Lorem ipsum {}", n),
        description: format!("Lorem ipsum {}", n),
        image_hash: EntryHash(100 + n),
    };
    create_resource(store, booker_at(1), resource).unwrap().action_hash
}

fn booking_request_for(store: &mut Store, resource_hash: ActionHash) -> ActionHash {
    let q = BookingRequest {
        resource_hash,
        title: "Lorem ipsum".to_string(),
        comment: "Lorem ipsum".to_string(),
        start_time: Timestamp(1674053334548000),
        end_time: Timestamp(1674053334548000),
    };
    create_booking_request(store, booker_at(2), q).unwrap().action_hash
}

fn sample_booking_1(store: &mut Store) -> Booking {
    let resource_hash = booking_resource(store, 1);
    let request = booking_request_for(store, resource_hash);
    Booking {
        title: "Lorem ipsum dolor sit amet, consectetur adipiscing elit.".to_string(),
        start_time: Timestamp(1674053334548000),
        end_time: Timestamp(1674053334548000),
        bookers: vec![AgentPubKey(1)],
        booking_request_hash: Some(request),
        resource_hash: booking_resource(store, 1),
    }
}

fn sample_booking_2(store: &mut Store) -> Booking {
    let resource_hash = booking_resource(store, 2);
    let request = booking_request_for(store, resource_hash);
    Booking {
        title: "Lorem ipsum 2".to_string(),
        start_time: Timestamp(1674059334548000),
        end_time: Timestamp(1674059334548000),
        bookers: vec![AgentPubKey(1), AgentPubKey(2)],
        booking_request_hash: Some(request),
        resource_hash: booking_resource(store, 2),
    }
}

fn booking_of(record: &Record) -> Booking {
    match &record.entry {
        EntryTypes::Booking(b) => b.clone(),
        other => panic!("not a booking: {:?}", other),
    }
}

#[test]
fn create_booking_test() {
    let mut store = Store::new();
    let sample = sample_booking_1(&mut store);
    let record = create_booking(&mut store, booker_at(10), sample.clone()).unwrap();
    let entry = booking_of(&record);
    assert!(entry.eq(&sample));
}

#[test]
fn create_and_read_booking() {
    let mut store = Store::new();
    let sample = sample_booking_1(&mut store);
    let record = create_booking(&mut store, booker_at(10), sample).unwrap();
    let get_record = get_booking(&store, record.action_hash).unwrap();
    assert_eq!(record, get_record.unwrap());
}

#[test]
fn create_and_update_booking() {
    let mut store = Store::new();
    let sample_1 = sample_booking_1(&mut store);
    let record = create_booking(&mut store, booker_at(10), sample_1.clone()).unwrap();
    let original_action_hash = record.action_hash;

    let sample_2 = sample_booking_2(&mut store);
    let input = UpdateBookingInput { previous_booking_hash: original_action_hash, updated_booking: sample_2.clone() };
    let update_record = update_booking(&mut store, booker_at(20), input).unwrap();
    assert_eq!(sample_2, booking_of(&update_record));
    let get_record = get_booking(&store, original_action_hash).unwrap();
    assert_eq!(update_record, get_record.unwrap());

    let input = UpdateBookingInput { previous_booking_hash: update_record.action_hash, updated_booking: sample_1.clone() };
    let update_record = update_booking(&mut store, booker_at(30), input).unwrap();
    assert_eq!(sample_1, booking_of(&update_record));
    let get_record = get_booking(&store, original_action_hash).unwrap();
    assert_eq!(update_record, get_record.unwrap());
}

#[test]
fn create_and_delete_booking() {
    let mut store = Store::new();
    let sample = sample_booking_1(&mut store);
    let record = create_booking(&mut store, booker_at(10), sample).unwrap();
    let original_action_hash = record.action_hash;
    let _delete_action_hash = delete_booking(&mut store, booker_at(20), original_action_hash).unwrap();
    let get_record = get_booking(&store, original_action_hash).unwrap();
    assert!(get_record.is_none());
}

#[test]
fn resource_request_and_booking_are_linked() {
    let mut store = Store::new();
    let r = booking_resource(&mut store, 1);
    let q_record = create_booking_request(
        &mut store,
        booker_at(2),
        BookingRequest {
            resource_hash: r,
            title: "Q".to_string(),
            comment: "".to_string(),
            start_time: Timestamp(5),
            end_time: Timestamp(6),
        },
    )
    .unwrap();
    let q = q_record.action_hash;
    let b = create_booking(
        &mut store,
        booker_at(3),
        Booking {
            title: "B".to_string(),
            start_time: Timestamp(5),
            end_time: Timestamp(6),
            bookers: vec![AgentPubKey(1)],
            booking_request_hash: Some(q),
            resource_hash: r,
        },
    )
    .unwrap();
    assert_eq!(get_bookings_for_resource(&store, r), vec![b.clone()]);
    assert_eq!(get_bookings_for_booking_request(&store, q), vec![b.clone()]);
    assert_eq!(get_booking_requests_for_resource(&store, r), vec![q_record]);
    // The same queries again, with no write in between.
    assert_eq!(get_bookings_for_resource(&store, r), vec![b.clone()]);
    assert_eq!(get_bookings_for_booking_request(&store, q), vec![b]);
}

#[test]
fn booking_without_request_adds_two_actions() {
    let mut store = Store::new();
    let r = booking_resource(&mut store, 1);
    let before = store.len();
    let b = create_booking(
        &mut store,
        booker_at(3),
        Booking {
            title: "B".to_string(),
            start_time: Timestamp(5),
            end_time: Timestamp(6),
            bookers: vec![],
            booking_request_hash: None,
            resource_hash: r,
        },
    )
    .unwrap();
    assert_eq!(store.len(), before + 2);
    assert_eq!(get_bookings_for_resource(&store, r), vec![b]);
}

#[test]
fn booking_checks_request_before_resource() {
    let mut store = Store::new();
    let r = booking_resource(&mut store, 1);
    let before = store.len();
    let wrong_request = Booking {
        title: "B".to_string(),
        start_time: Timestamp(5),
        end_time: Timestamp(6),
        bookers: vec![],
        booking_request_hash: Some(r),
        resource_hash: ActionHash(999),
    };
    assert_eq!(
        create_booking(&mut store, booker_at(3), wrong_request),
        Err(BookieError::Invalid(Reason::MissingDependency))
    );
    let missing_resource = Booking {
        title: "B".to_string(),
        start_time: Timestamp(5),
        end_time: Timestamp(6),
        bookers: vec![],
        booking_request_hash: None,
        resource_hash: ActionHash(999),
    };
    assert_eq!(create_booking(&mut store, booker_at(3), missing_resource), Err(BookieError::NotFound));
    assert_eq!(store.len(), before);
}

#[test]
fn deleted_booking_is_left_out_of_queries() {
    let mut store = Store::new();
    let sample = sample_booking_1(&mut store);
    let resource = sample.resource_hash;
    let b = create_booking(&mut store, booker_at(10), sample).unwrap();
    delete_booking(&mut store, booker_at(20), b.action_hash).unwrap();
    assert!(get_bookings_for_resource(&store, resource).is_empty());
}
