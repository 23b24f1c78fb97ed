use bookie::{
    create_resource, delete_resource, get_my_resources, get_resource, update_resource, AgentContext, AgentPubKey,
    BookieError, EntryHash, EntryTypes, Reason, Record, Resource, Store, Timestamp, UpdateResourceInput,
};

fn alice_at(now: i64) -> AgentContext {
    AgentContext { agent: AgentPubKey(1), now: Timestamp(now) }
}

fn sample_resource_1() -> Resource {
    Resource {
        name: "Lorem ipsum dolor sit amet, consectetur adipiscing elit.".to_string(),
        description: "Lorem ipsum dolor sit amet, consectetur adipiscing elit.".to_string(),
        image_hash: EntryHash(101),
    }
}

fn sample_resource_2() -> Resource {
    Resource {
        name: "Lorem ipsum 2".to_string(),
        description: "Lorem ipsum 2".to_string(),
        image_hash: EntryHash(102),
    }
}

fn resource_of(record: &Record) -> Resource {
    match &record.entry {
        EntryTypes::Resource(r) => r.clone(),
        other => panic!("not a resource: {:?}", other),
    }
}

#[test]
fn create_resource_test() {
    let mut store = Store::new();
    let sample = sample_resource_1();
    let record = create_resource(&mut store, alice_at(10), sample.clone()).unwrap();
    let entry = resource_of(&record);
    assert!(entry.eq(&sample));
}

#[test]
fn create_and_read_resource() {
    let mut store = Store::new();
    let record = create_resource(&mut store, alice_at(10), sample_resource_1()).unwrap();
    let get_record = get_resource(&store, record.action_hash);
    assert_eq!(record, get_record.unwrap());
}

#[test]
fn create_and_update_resource() {
    let mut store = Store::new();
    let sample_1 = sample_resource_1();
    let record = create_resource(&mut store, alice_at(10), sample_1.clone()).unwrap();
    let original_action_hash = record.action_hash;

    let sample_2 = sample_resource_2();
    let input = UpdateResourceInput {
        original_resource_hash: original_action_hash,
        previous_resource_hash: original_action_hash,
        updated_resource: sample_2.clone(),
    };
    let update_record = update_resource(&mut store, alice_at(20), input).unwrap();
    assert_eq!(sample_2, resource_of(&update_record));
    let get_record = get_resource(&store, original_action_hash);
    assert_eq!(update_record, get_record.unwrap());

    let input = UpdateResourceInput {
        original_resource_hash: original_action_hash,
        previous_resource_hash: update_record.action_hash,
        updated_resource: sample_1.clone(),
    };
    let update_record = update_resource(&mut store, alice_at(30), input).unwrap();
    assert_eq!(sample_1, resource_of(&update_record));
    let get_record = get_resource(&store, original_action_hash);
    assert_eq!(update_record, get_record.unwrap());
}

#[test]
fn create_and_delete_resource() {
    let mut store = Store::new();
    let record = create_resource(&mut store, alice_at(10), sample_resource_1()).unwrap();
    let original_action_hash = record.action_hash;
    let _delete_action_hash = delete_resource(&mut store, alice_at(20), original_action_hash).unwrap();
    let get_record = get_resource(&store, original_action_hash);
    assert!(get_record.is_none());
}

#[test]
fn resource_resolves_through_update_edges_from_the_original() {
    // R -> R' -> R'': no edge or successor connects R to R'' directly.
    let mut store = Store::new();
    let r = create_resource(&mut store, alice_at(10), sample_resource_1()).unwrap();
    let r1 = update_resource(
        &mut store,
        alice_at(20),
        UpdateResourceInput {
            original_resource_hash: r.action_hash,
            previous_resource_hash: r.action_hash,
            updated_resource: sample_resource_2(),
        },
    )
    .unwrap();
    let third = Resource { name: "third".to_string(), description: "third".to_string(), image_hash: EntryHash(103) };
    let r2 = update_resource(
        &mut store,
        alice_at(30),
        UpdateResourceInput {
            original_resource_hash: r.action_hash,
            previous_resource_hash: r1.action_hash,
            updated_resource: third.clone(),
        },
    )
    .unwrap();
    let latest = get_resource(&store, r.action_hash).unwrap();
    assert_eq!(latest, r2);
    assert_eq!(resource_of(&latest), third);
    assert_ne!(latest.action_hash, r1.action_hash);
}

#[test]
fn resource_update_edges_pick_the_latest_timestamp() {
    // The later timestamp wins even when it was stored first.
    let mut store = Store::new();
    let r = create_resource(&mut store, alice_at(10), sample_resource_1()).unwrap();
    let late = update_resource(
        &mut store,
        alice_at(50),
        UpdateResourceInput {
            original_resource_hash: r.action_hash,
            previous_resource_hash: r.action_hash,
            updated_resource: sample_resource_2(),
        },
    )
    .unwrap();
    let _early = update_resource(
        &mut store,
        alice_at(40),
        UpdateResourceInput {
            original_resource_hash: r.action_hash,
            previous_resource_hash: r.action_hash,
            updated_resource: sample_resource_1(),
        },
    )
    .unwrap();
    assert_eq!(get_resource(&store, r.action_hash).unwrap(), late);
}

#[test]
fn deleting_the_latest_resource_version_makes_it_absent() {
    let mut store = Store::new();
    let r = create_resource(&mut store, alice_at(10), sample_resource_1()).unwrap();
    let r1 = update_resource(
        &mut store,
        alice_at(20),
        UpdateResourceInput {
            original_resource_hash: r.action_hash,
            previous_resource_hash: r.action_hash,
            updated_resource: sample_resource_2(),
        },
    )
    .unwrap();
    delete_resource(&mut store, alice_at(30), r1.action_hash).unwrap();
    assert!(get_resource(&store, r.action_hash).is_none());
    // A deleted version takes no successor.
    let attempt = update_resource(
        &mut store,
        alice_at(40),
        UpdateResourceInput {
            original_resource_hash: r.action_hash,
            previous_resource_hash: r1.action_hash,
            updated_resource: sample_resource_1(),
        },
    );
    assert_eq!(attempt, Err(BookieError::NotFound));
    assert!(get_resource(&store, r.action_hash).is_none());
}

#[test]
fn update_resource_rejects_missing_and_foreign_versions() {
    let mut store = Store::new();
    let r = create_resource(&mut store, alice_at(10), sample_resource_1()).unwrap();
    let missing = update_resource(
        &mut store,
        alice_at(20),
        UpdateResourceInput {
            original_resource_hash: r.action_hash,
            previous_resource_hash: bookie::ActionHash(999),
            updated_resource: sample_resource_2(),
        },
    );
    assert_eq!(missing, Err(BookieError::NotFound));
    let q = bookie::create_booking_request(
        &mut store,
        alice_at(20),
        bookie::BookingRequest {
            resource_hash: r.action_hash,
            title: "t".to_string(),
            comment: "c".to_string(),
            start_time: Timestamp(1),
            end_time: Timestamp(2),
        },
    )
    .unwrap();
    let before = store.len();
    let foreign = update_resource(
        &mut store,
        alice_at(30),
        UpdateResourceInput {
            original_resource_hash: r.action_hash,
            previous_resource_hash: q.action_hash,
            updated_resource: sample_resource_2(),
        },
    );
    assert_eq!(foreign, Err(BookieError::Invalid(Reason::EntryTypeMismatch)));
    assert_eq!(store.len(), before);
}

#[test]
fn create_resource_adds_three_actions_and_lists_under_owner() {
    let mut store = Store::new();
    let record = create_resource(&mut store, alice_at(10), sample_resource_1()).unwrap();
    assert_eq!(store.len(), 3);
    assert_eq!(record.action_hash, bookie::ActionHash(0));
    assert_eq!(record.author, AgentPubKey(1));
    assert_eq!(record.timestamp, Timestamp(10));
    assert_eq!(get_my_resources(&store, AgentPubKey(2)).len(), 0);
}
