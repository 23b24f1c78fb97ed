use bookie::{create_resource, delete_resource, get_my_resources, AgentContext, AgentPubKey, EntryHash, Resource, Store, Timestamp};

fn my_resources_sample() -> Resource {
    Resource {
        name: "Lorem ipsum dolor sit amet, consectetur adipiscing elit.".to_string(),
        description: "Lorem ipsum dolor sit amet, consectetur adipiscing elit.".to_string(),
        image_hash: EntryHash(101),
    }
}

#[test]
fn create_a_resource_and_get_my_resources() {
    let mut store = Store::new();
    let alice = AgentContext { agent: AgentPubKey(1), now: Timestamp(10) };
    let record = create_resource(&mut store, alice, my_resources_sample()).unwrap();
    let get_records = get_my_resources(&store, alice.agent);
    assert_eq!(get_records.len(), 1);
    assert_eq!(get_records[0], record);
}

#[test]
fn my_resources_leave_out_deleted_ones() {
    let mut store = Store::new();
    let alice = AgentContext { agent: AgentPubKey(1), now: Timestamp(10) };
    let first = create_resource(&mut store, alice, my_resources_sample()).unwrap();
    let second = create_resource(&mut store, alice, my_resources_sample()).unwrap();
    delete_resource(&mut store, alice, first.action_hash).unwrap();
    let get_records = get_my_resources(&store, alice.agent);
    assert_eq!(get_records, vec![second]);
}
