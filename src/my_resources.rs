use vstd::prelude::*;
use crate::schema::{AgentPubKey, AnyLinkableHash, LinkTypes};
use crate::store::{links_of, Record, Store};
use crate::host::{get_linked_records, live_targets, records_at};

verus! {

/// The live Resources that `author` published, in edge order.
pub fn get_my_resources(store: &Store, author: AgentPubKey) -> (r: Vec<Record>)
    requires
        store.wf(),
    ensures
        records_at(r@, store@, live_targets(store@, links_of(store@, AnyLinkableHash::Agent(author), LinkTypes::MyResources))),
{
    get_linked_records(store, AnyLinkableHash::Agent(author), LinkTypes::MyResources)
}

} // verus!
