use bookie::{
    add_booking_for_booker, create_booking, create_resource, get_bookings_for_booker, ActionHash, AgentContext,
    AgentPubKey, BookieError, Booking, EntryHash, Resource, Store, Timestamp,
};

#[test]
fn link_a_booker_to_a_booking() {
    let mut store = Store::new();
    let alice = AgentContext { agent: AgentPubKey(1), now: Timestamp(10) };
    let resource = create_resource(
        &mut store,
        alice,
        Resource { name: "room".to_string(), description: "a room".to_string(), image_hash: EntryHash(1) },
    )
    .unwrap();
    let target_record = create_booking(
        &mut store,
        alice,
        Booking {
            title: "Lorem ipsum dolor sit amet, consectetur adipiscing elit.".to_string(),
            start_time: Timestamp(1674053334548000),
            end_time: Timestamp(1674053334548000),
            bookers: vec![],
            booking_request_hash: None,
            resource_hash: resource.action_hash,
        },
    )
    .unwrap();
    let base_address = alice.agent;
    let target_address = target_record.action_hash;

    let links_output = get_bookings_for_booker(&store, base_address);
    assert_eq!(links_output.len(), 0);

    add_booking_for_booker(&mut store, alice, base_address, target_address).unwrap();

    let links_output = get_bookings_for_booker(&store, base_address);
    assert_eq!(links_output.len(), 1);
    assert_eq!(target_record, links_output[0]);
}

#[test]
fn booker_edge_needs_a_stored_target() {
    let mut store = Store::new();
    let alice = AgentContext { agent: AgentPubKey(1), now: Timestamp(10) };
    assert_eq!(add_booking_for_booker(&mut store, alice, AgentPubKey(2), ActionHash(0)), Err(BookieError::NotFound));
    assert_eq!(store.len(), 0);
}
