use vstd::prelude::*;

verus! {

/// Address of an action in the content store.
#[derive(Clone, Copy, Debug, PartialEq, Eq, Structural)]
pub struct ActionHash(pub u64);

/// Identity of an agent (a writer).
#[derive(Clone, Copy, Debug, PartialEq, Eq, Structural)]
pub struct AgentPubKey(pub u64);

/// Address of an opaque entry (an image, an anchor).
#[derive(Clone, Copy, Debug, PartialEq, Eq, Structural)]
pub struct EntryHash(pub u64);

/// Microseconds since the Unix epoch.
#[derive(Clone, Copy, Debug, PartialEq, Eq, Structural)]
pub struct Timestamp(pub i64);

/// Anything an edge can start from.
#[derive(Clone, Copy, Debug, PartialEq, Eq, Structural)]
pub enum AnyLinkableHash {
    Action(ActionHash),
    Agent(AgentPubKey),
    Entry(EntryHash),
}

/// Entry address of the anchor that every resource is enumerated from.
pub const ALL_RESOURCES_ANCHOR: u64 = 0;

#[derive(Clone, Debug, PartialEq, Eq)]
pub struct Resource {
    pub name: String,
    pub description: String,
    pub image_hash: EntryHash,
}

#[derive(Clone, Debug, PartialEq, Eq)]
pub struct BookingRequest {
    pub resource_hash: ActionHash,
    pub title: String,
    pub comment: String,
    pub start_time: Timestamp,
    pub end_time: Timestamp,
}

#[derive(Clone, Debug, PartialEq, Eq)]
pub struct Booking {
    pub title: String,
    pub start_time: Timestamp,
    pub end_time: Timestamp,
    pub bookers: Vec<AgentPubKey>,
    pub booking_request_hash: Option<ActionHash>,
    pub resource_hash: ActionHash,
}

#[derive(Clone, Debug, PartialEq, Eq)]
pub enum EntryTypes {
    Resource(Resource),
    BookingRequest(BookingRequest),
    Booking(Booking),
}

/// The kind of an entry, without its content.
#[derive(Clone, Copy, Debug, PartialEq, Eq, Structural)]
pub enum UnitEntryTypes {
    Resource,
    BookingRequest,
    Booking,
}

/// The edge kinds of the link index.
#[derive(Clone, Copy, Debug, PartialEq, Eq, Structural)]
pub enum LinkTypes {
    ResourceUpdates,
    ResourceToBookingRequests,
    BookingRequestToBookings,
    ResourceToBookings,
    AllResources,
    MyResources,
    MyBookingRequests,
    BookerToBookings,
}

impl Booking {
    /// Same content, the bookers compared as sequences.
    pub open spec fn same_as(&self, o: &Booking) -> bool {
        &&& self.title == o.title
        &&& self.start_time == o.start_time
        &&& self.end_time == o.end_time
        &&& self.bookers@ == o.bookers@
        &&& self.booking_request_hash == o.booking_request_hash
        &&& self.resource_hash == o.resource_hash
    }

    pub fn duplicate(&self) -> (r: Booking)
        ensures
            r.same_as(self),
    {
        let mut bookers: Vec<AgentPubKey> = Vec::new();
        let mut i: usize = 0;
        while i < self.bookers.len()
            invariant
                i <= self.bookers.len(),
                bookers@ == self.bookers@.take(i as int),
            decreases self.bookers.len() - i,
        {
            bookers.push(self.bookers[i]);
            i = i + 1;
            assert(bookers@ =~= self.bookers@.take(i as int));
        }
        assert(bookers@ =~= self.bookers@);
        Booking {
            title: self.title.clone(),
            start_time: self.start_time,
            end_time: self.end_time,
            bookers,
            booking_request_hash: self.booking_request_hash,
            resource_hash: self.resource_hash,
        }
    }
}

impl Resource {
    pub fn duplicate(&self) -> (r: Resource)
        ensures
            r == *self,
    {
        Resource {
            name: self.name.clone(),
            description: self.description.clone(),
            image_hash: self.image_hash,
        }
    }
}

impl BookingRequest {
    pub fn duplicate(&self) -> (r: BookingRequest)
        ensures
            r == *self,
    {
        BookingRequest {
            resource_hash: self.resource_hash,
            title: self.title.clone(),
            comment: self.comment.clone(),
            start_time: self.start_time,
            end_time: self.end_time,
        }
    }
}

impl EntryTypes {
    /// Same content; the only field compared by its view is a booking's bookers.
    pub open spec fn same_as(&self, o: &EntryTypes) -> bool {
        match (self, o) {
            (EntryTypes::Resource(a), EntryTypes::Resource(b)) => a == b,
            (EntryTypes::BookingRequest(a), EntryTypes::BookingRequest(b)) => a == b,
            (EntryTypes::Booking(a), EntryTypes::Booking(b)) => a.same_as(b),
            _ => false,
        }
    }

    pub open spec fn kind(&self) -> UnitEntryTypes {
        match self {
            EntryTypes::Resource(_) => UnitEntryTypes::Resource,
            EntryTypes::BookingRequest(_) => UnitEntryTypes::BookingRequest,
            EntryTypes::Booking(_) => UnitEntryTypes::Booking,
        }
    }

    pub fn entry_kind(&self) -> (r: UnitEntryTypes)
        ensures
            r == self.kind(),
    {
        match self {
            EntryTypes::Resource(_) => UnitEntryTypes::Resource,
            EntryTypes::BookingRequest(_) => UnitEntryTypes::BookingRequest,
            EntryTypes::Booking(_) => UnitEntryTypes::Booking,
        }
    }

    pub fn duplicate(&self) -> (r: EntryTypes)
        ensures
            r.same_as(self),
            r.kind() == self.kind(),
    {
        match self {
            EntryTypes::Resource(a) => EntryTypes::Resource(a.duplicate()),
            EntryTypes::BookingRequest(a) => EntryTypes::BookingRequest(a.duplicate()),
            EntryTypes::Booking(a) => EntryTypes::Booking(a.duplicate()),
        }
    }
}

impl LinkTypes {
    /// Audit-trail edges: once created they may never be removed.
    pub open spec fn is_audit_trail(self) -> bool {
        match self {
            LinkTypes::ResourceUpdates => true,
            LinkTypes::BookingRequestToBookings => true,
            LinkTypes::ResourceToBookings => true,
            _ => false,
        }
    }

    /// The entry kind that an edge's base must hold, where the kind is checked.
    pub open spec fn base_kind(self) -> Option<UnitEntryTypes> {
        match self {
            LinkTypes::ResourceToBookingRequests => Some(UnitEntryTypes::Resource),
            LinkTypes::BookingRequestToBookings => Some(UnitEntryTypes::BookingRequest),
            LinkTypes::ResourceToBookings => Some(UnitEntryTypes::Resource),
            _ => None,
        }
    }

    /// The entry kind that an edge's target must hold, where the kind is checked.
    pub open spec fn target_kind(self) -> Option<UnitEntryTypes> {
        match self {
            LinkTypes::ResourceToBookingRequests => Some(UnitEntryTypes::BookingRequest),
            LinkTypes::BookingRequestToBookings => Some(UnitEntryTypes::Booking),
            LinkTypes::ResourceToBookings => Some(UnitEntryTypes::Booking),
            LinkTypes::MyBookingRequests => Some(UnitEntryTypes::BookingRequest),
            _ => None,
        }
    }

    pub fn audit_trail(self) -> (r: bool)
        ensures
            r == self.is_audit_trail(),
    {
        match self {
            LinkTypes::ResourceUpdates => true,
            LinkTypes::BookingRequestToBookings => true,
            LinkTypes::ResourceToBookings => true,
            _ => false,
        }
    }

    pub fn required_base_kind(self) -> (r: Option<UnitEntryTypes>)
        ensures
            r == self.base_kind(),
    {
        match self {
            LinkTypes::ResourceToBookingRequests => Some(UnitEntryTypes::Resource),
            LinkTypes::BookingRequestToBookings => Some(UnitEntryTypes::BookingRequest),
            LinkTypes::ResourceToBookings => Some(UnitEntryTypes::Resource),
            _ => None,
        }
    }

    pub fn required_target_kind(self) -> (r: Option<UnitEntryTypes>)
        ensures
            r == self.target_kind(),
    {
        match self {
            LinkTypes::ResourceToBookingRequests => Some(UnitEntryTypes::BookingRequest),
            LinkTypes::BookingRequestToBookings => Some(UnitEntryTypes::Booking),
            LinkTypes::ResourceToBookings => Some(UnitEntryTypes::Booking),
            LinkTypes::MyBookingRequests => Some(UnitEntryTypes::BookingRequest),
            _ => None,
        }
    }
}

} // verus!
