use vstd::prelude::*;
use crate::schema::{
    ActionHash, AgentPubKey, AnyLinkableHash, Booking, BookingRequest, EntryTypes, LinkTypes, Resource,
    UnitEntryTypes,
};
use crate::store::{entry_at, exists_at, refers_back, Action, SignedAction, Store, MAX_ACTIONS};

verus! {

/// Why a mutation was rejected.
#[derive(Clone, Copy, Debug, PartialEq, Eq, Structural)]
pub enum Reason {
    /// A referenced action is not an entry of the expected kind.
    MissingDependency,
    /// An edge's base or target is not an entry of the expected kind.
    LinkedActionNotEntry,
    /// The edge kind is an audit trail and may not be removed.
    UndeletableLink(LinkTypes),
    /// An update changes the kind of the entry.
    EntryTypeMismatch,
    /// An update supersedes an action that carries no entry.
    UpdateOriginalNotEntry,
    /// A tombstone targets an action that carries no entry.
    DeleteOriginalNotEntry,
    /// An edge removal targets an action that created no edge.
    DeleteLinkOriginalNotCreateLink,
    /// An agent joined without presenting its validation package first.
    JoinWithoutValidationPackage,
}

/// The verdict on one mutation.
#[derive(Clone, Copy, Debug, PartialEq, Eq, Structural)]
pub enum ValidateCallbackResult {
    Valid,
    Invalid(Reason),
}

/// What a store operation or an entity-level operation can fail with.
#[derive(Clone, Copy, Debug, PartialEq, Eq, Structural)]
pub enum BookieError {
    /// An address resolves to nothing, or to the wrong kind of record.
    NotFound,
    /// Validation rejected the mutation.
    Invalid(Reason),
    /// A record or a chain does not have the expected shape.
    MalformedData,
    /// The store itself could not take the mutation.
    HostFailure,
}

pub type Verdict = Result<ValidateCallbackResult, BookieError>;

impl Reason {
    pub open spec fn text(self) -> Seq<char> {
        match self {
            Reason::MissingDependency => "Dependant action must be accompanied by an entry"@,
            Reason::LinkedActionNotEntry => "Linked action must reference an entry"@,
            Reason::UndeletableLink(LinkTypes::ResourceUpdates) => "ResourceUpdates links cannot be deleted"@,
            Reason::UndeletableLink(LinkTypes::BookingRequestToBookings) => "BookingRequestToBookings links cannot be deleted"@,
            Reason::UndeletableLink(LinkTypes::ResourceToBookings) => "ResourceToBookings links cannot be deleted"@,
            Reason::UndeletableLink(_) => "Links of this type cannot be deleted"@,
            Reason::EntryTypeMismatch => "Original and updated entry types must be the same"@,
            Reason::UpdateOriginalNotEntry => "Original action for an update must be a Create or Update action"@,
            Reason::DeleteOriginalNotEntry => "Original action for a delete must be a Create or Update action"@,
            Reason::DeleteLinkOriginalNotCreateLink => "The action that a DeleteLink deletes must be a CreateLink"@,
            Reason::JoinWithoutValidationPackage => "The previous action for a `CreateAgent` action must be an `AgentValidationPkg`"@,
        }
    }

    /// The human-readable reason.
    pub fn message(&self) -> (r: String)
        ensures
            r@ == self.text(),
    {
        match self {
            Reason::MissingDependency => "Dependant action must be accompanied by an entry".to_owned(),
            Reason::LinkedActionNotEntry => "Linked action must reference an entry".to_owned(),
            Reason::UndeletableLink(LinkTypes::ResourceUpdates) => "ResourceUpdates links cannot be deleted".to_owned(),
            Reason::UndeletableLink(LinkTypes::BookingRequestToBookings) => "BookingRequestToBookings links cannot be deleted".to_owned(),
            Reason::UndeletableLink(LinkTypes::ResourceToBookings) => "ResourceToBookings links cannot be deleted".to_owned(),
            Reason::UndeletableLink(_) => "Links of this type cannot be deleted".to_owned(),
            Reason::EntryTypeMismatch => "Original and updated entry types must be the same".to_owned(),
            Reason::UpdateOriginalNotEntry => "Original action for an update must be a Create or Update action".to_owned(),
            Reason::DeleteOriginalNotEntry => "Original action for a delete must be a Create or Update action".to_owned(),
            Reason::DeleteLinkOriginalNotCreateLink => "The action that a DeleteLink deletes must be a CreateLink".to_owned(),
            Reason::JoinWithoutValidationPackage => "The previous action for a `CreateAgent` action must be an `AgentValidationPkg`".to_owned(),
        }
    }
}

pub open spec fn has_kind(s: Seq<SignedAction>, h: ActionHash, k: UnitEntryTypes) -> bool {
    match entry_at(s, h) {
        Some(e) => e.kind() == k,
        None => false,
    }
}

/// A reference must name a stored action (else the lookup fails closed) that
/// carries an entry of kind `k` (else the mutation is rejected for `reason`).
pub open spec fn dependency_check(s: Seq<SignedAction>, h: ActionHash, k: UnitEntryTypes, reason: Reason) -> Verdict {
    if !exists_at(s, h) {
        Err(BookieError::NotFound)
    } else if has_kind(s, h, k) {
        Ok(ValidateCallbackResult::Valid)
    } else {
        Ok(ValidateCallbackResult::Invalid(reason))
    }
}

/// The first verdict unless it is `Valid`, then the second.
pub open spec fn both(a: Verdict, b: Verdict) -> Verdict {
    if a == Ok::<ValidateCallbackResult, BookieError>(ValidateCallbackResult::Valid) {
        b
    } else {
        a
    }
}

pub open spec fn create_resource_outcome(s: Seq<SignedAction>, r: Resource) -> Verdict {
    Ok(ValidateCallbackResult::Valid)
}

pub open spec fn create_booking_request_outcome(s: Seq<SignedAction>, q: BookingRequest) -> Verdict {
    dependency_check(s, q.resource_hash, UnitEntryTypes::Resource, Reason::MissingDependency)
}

pub open spec fn create_booking_outcome(s: Seq<SignedAction>, b: Booking) -> Verdict {
    let resource = dependency_check(s, b.resource_hash, UnitEntryTypes::Resource, Reason::MissingDependency);
    match b.booking_request_hash {
        Some(q) => both(
            dependency_check(s, q, UnitEntryTypes::BookingRequest, Reason::MissingDependency),
            resource,
        ),
        None => resource,
    }
}

/// The verdict on storing a new entry: its references must resolve to entries
/// of the kinds the schema names.
pub open spec fn create_entry_outcome(s: Seq<SignedAction>, e: EntryTypes) -> Verdict {
    match e {
        EntryTypes::Resource(r) => create_resource_outcome(s, r),
        EntryTypes::BookingRequest(q) => create_booking_request_outcome(s, q),
        EntryTypes::Booking(b) => create_booking_outcome(s, b),
    }
}

/// An update names a stored entry-bearing action, its new entry is valid as if
/// created, and both entries are of one kind.
pub open spec fn update_outcome(s: Seq<SignedAction>, original: ActionHash, e: EntryTypes) -> Verdict {
    if !exists_at(s, original) {
        Err(BookieError::NotFound)
    } else {
        match entry_at(s, original) {
            None => Ok(ValidateCallbackResult::Invalid(Reason::UpdateOriginalNotEntry)),
            Some(oe) => {
                let c = create_entry_outcome(s, e);
                if c != Ok::<ValidateCallbackResult, BookieError>(ValidateCallbackResult::Valid) {
                    c
                } else if oe.kind() == e.kind() {
                    Ok(ValidateCallbackResult::Valid)
                } else {
                    Ok(ValidateCallbackResult::Invalid(Reason::EntryTypeMismatch))
                }
            },
        }
    }
}

/// A tombstone names a stored entry-bearing action.
pub open spec fn delete_outcome(s: Seq<SignedAction>, deletes: ActionHash) -> Verdict {
    if !exists_at(s, deletes) {
        Err(BookieError::NotFound)
    } else if entry_at(s, deletes) is Some {
        Ok(ValidateCallbackResult::Valid)
    } else {
        Ok(ValidateCallbackResult::Invalid(Reason::DeleteOriginalNotEntry))
    }
}

/// An edge end whose kind the schema fixes must be an action of that kind.
pub open spec fn linked_check(s: Seq<SignedAction>, h: AnyLinkableHash, k: Option<UnitEntryTypes>) -> Verdict {
    match k {
        None => Ok(ValidateCallbackResult::Valid),
        Some(k) => match h {
            AnyLinkableHash::Action(a) => dependency_check(s, a, k, Reason::LinkedActionNotEntry),
            _ => Ok(ValidateCallbackResult::Invalid(Reason::LinkedActionNotEntry)),
        },
    }
}

pub open spec fn create_link_outcome(
    s: Seq<SignedAction>,
    base: AnyLinkableHash,
    target: ActionHash,
    t: LinkTypes,
) -> Verdict {
    both(linked_check(s, base, t.base_kind()), linked_check(s, AnyLinkableHash::Action(target), t.target_kind()))
}

/// The rule for removing an edge of kind `t`.
pub open spec fn delete_link_rule(t: LinkTypes) -> ValidateCallbackResult {
    if t.is_audit_trail() {
        ValidateCallbackResult::Invalid(Reason::UndeletableLink(t))
    } else {
        ValidateCallbackResult::Valid
    }
}

pub open spec fn delete_link_outcome(s: Seq<SignedAction>, link_add: ActionHash) -> Verdict {
    if !exists_at(s, link_add) {
        Err(BookieError::NotFound)
    } else {
        match s[link_add.0 as int].action {
            Action::CreateLink { link_type, .. } => Ok(delete_link_rule(link_type)),
            _ => Ok(ValidateCallbackResult::Invalid(Reason::DeleteLinkOriginalNotCreateLink)),
        }
    }
}

pub open spec fn join_outcome(s: Seq<SignedAction>, prev: ActionHash) -> Verdict {
    if !exists_at(s, prev) {
        Err(BookieError::NotFound)
    } else {
        match s[prev.0 as int].action {
            Action::AgentValidationPkg => Ok(ValidateCallbackResult::Valid),
            _ => Ok(ValidateCallbackResult::Invalid(Reason::JoinWithoutValidationPackage)),
        }
    }
}

/// The verdict on `op` against the actions stored before it.
pub open spec fn validation_outcome(s: Seq<SignedAction>, op: SignedAction) -> Verdict {
    match op.action {
        Action::AgentValidationPkg => Ok(ValidateCallbackResult::Valid),
        Action::CreateAgent { prev_action, .. } => join_outcome(s, prev_action),
        Action::Create { entry } => create_entry_outcome(s, entry),
        Action::Update { original_action_address, entry } => update_outcome(s, original_action_address, entry),
        Action::Delete { deletes_address } => delete_outcome(s, deletes_address),
        Action::CreateLink { base_address, target_address, link_type } => create_link_outcome(
            s,
            base_address,
            target_address,
            link_type,
        ),
        Action::DeleteLink { link_add_address } => delete_link_outcome(s, link_add_address),
    }
}

fn check_dependency(store: &Store, h: ActionHash, k: UnitEntryTypes, reason: Reason) -> (r: Verdict)
    ensures
        r == dependency_check(store@, h, k, reason),
{
    if store.action(h).is_none() {
        return Err(BookieError::NotFound);
    }
    match store.entry(h) {
        Some(e) => {
            if e.entry_kind() == k {
                Ok(ValidateCallbackResult::Valid)
            } else {
                Ok(ValidateCallbackResult::Invalid(reason))
            }
        },
        None => Ok(ValidateCallbackResult::Invalid(reason)),
    }
}

fn check_linked(store: &Store, h: AnyLinkableHash, k: Option<UnitEntryTypes>) -> (r: Verdict)
    ensures
        r == linked_check(store@, h, k),
{
    match k {
        None => Ok(ValidateCallbackResult::Valid),
        Some(k) => match h {
            AnyLinkableHash::Action(a) => check_dependency(store, a, k, Reason::LinkedActionNotEntry),
            _ => Ok(ValidateCallbackResult::Invalid(Reason::LinkedActionNotEntry)),
        },
    }
}

fn is_valid(v: &Verdict) -> (r: bool)
    ensures
        r == (*v == Ok::<ValidateCallbackResult, BookieError>(ValidateCallbackResult::Valid)),
{
    match v {
        Ok(ValidateCallbackResult::Valid) => true,
        _ => false,
    }
}

/// Checks an edge of kind `t` against the schema's table of end kinds.
pub fn validate_create_link(store: &Store, base_address: AnyLinkableHash, target_address: ActionHash, t: LinkTypes) -> (r: Verdict)
    ensures
        r == create_link_outcome(store@, base_address, target_address, t),
{
    let b = check_linked(store, base_address, t.required_base_kind());
    if !is_valid(&b) {
        return b;
    }
    check_linked(store, AnyLinkableHash::Action(target_address), t.required_target_kind())
}

/// Checks the removal of an edge of kind `t`: audit-trail edges stay.
pub fn validate_delete_link(t: LinkTypes) -> (r: Verdict)
    ensures
        r == Ok::<ValidateCallbackResult, BookieError>(delete_link_rule(t)),
{
    if t.audit_trail() {
        Ok(ValidateCallbackResult::Invalid(Reason::UndeletableLink(t)))
    } else {
        Ok(ValidateCallbackResult::Valid)
    }
}

pub fn validate_create_resource(store: &Store, resource: &Resource) -> (r: Verdict)
    ensures
        r == create_resource_outcome(store@, *resource),
{
    Ok(ValidateCallbackResult::Valid)
}

pub fn validate_update_resource(resource: &Resource, original_resource: &Resource) -> (r: Verdict)
    ensures
        r == Ok::<ValidateCallbackResult, BookieError>(ValidateCallbackResult::Valid),
{
    Ok(ValidateCallbackResult::Valid)
}

pub fn validate_delete_resource(original_resource: &Resource) -> (r: Verdict)
    ensures
        r == Ok::<ValidateCallbackResult, BookieError>(ValidateCallbackResult::Valid),
{
    Ok(ValidateCallbackResult::Valid)
}

/// A booking request must name a stored Resource.
pub fn validate_create_booking_request(store: &Store, booking_request: &BookingRequest) -> (r: Verdict)
    ensures
        r == create_booking_request_outcome(store@, *booking_request),
{
    check_dependency(store, booking_request.resource_hash, UnitEntryTypes::Resource, Reason::MissingDependency)
}

pub fn validate_update_booking_request(booking_request: &BookingRequest, original_booking_request: &BookingRequest) -> (r: Verdict)
    ensures
        r == Ok::<ValidateCallbackResult, BookieError>(ValidateCallbackResult::Valid),
{
    Ok(ValidateCallbackResult::Valid)
}

pub fn validate_delete_booking_request(original_booking_request: &BookingRequest) -> (r: Verdict)
    ensures
        r == Ok::<ValidateCallbackResult, BookieError>(ValidateCallbackResult::Valid),
{
    Ok(ValidateCallbackResult::Valid)
}

/// A booking must name a stored Resource and, where it names one, a stored
/// BookingRequest; the request is checked first.
pub fn validate_create_booking(store: &Store, booking: &Booking) -> (r: Verdict)
    ensures
        r == create_booking_outcome(store@, *booking),
{
    if let Some(q) = booking.booking_request_hash {
        let c = check_dependency(store, q, UnitEntryTypes::BookingRequest, Reason::MissingDependency);
        if !is_valid(&c) {
            return c;
        }
    }
    check_dependency(store, booking.resource_hash, UnitEntryTypes::Resource, Reason::MissingDependency)
}

pub fn validate_update_booking(booking: &Booking, original_booking: &Booking) -> (r: Verdict)
    ensures
        r == Ok::<ValidateCallbackResult, BookieError>(ValidateCallbackResult::Valid),
{
    Ok(ValidateCallbackResult::Valid)
}

pub fn validate_delete_booking(original_booking: &Booking) -> (r: Verdict)
    ensures
        r == Ok::<ValidateCallbackResult, BookieError>(ValidateCallbackResult::Valid),
{
    Ok(ValidateCallbackResult::Valid)
}

pub fn validate_create_link_resource_updates(store: &Store, base_address: AnyLinkableHash, target_address: ActionHash) -> (r: Verdict)
    ensures
        r == create_link_outcome(store@, base_address, target_address, LinkTypes::ResourceUpdates),
        r == Ok::<ValidateCallbackResult, BookieError>(ValidateCallbackResult::Valid),
{
    validate_create_link(store, base_address, target_address, LinkTypes::ResourceUpdates)
}

pub fn validate_delete_link_resource_updates() -> (r: Verdict)
    ensures
        r == Ok::<ValidateCallbackResult, BookieError>(
            ValidateCallbackResult::Invalid(Reason::UndeletableLink(LinkTypes::ResourceUpdates)),
        ),
{
    validate_delete_link(LinkTypes::ResourceUpdates)
}

/// The base must be a Resource and the target a BookingRequest.
pub fn validate_create_link_resource_to_booking_requests(
    store: &Store,
    base_address: AnyLinkableHash,
    target_address: ActionHash,
) -> (r: Verdict)
    ensures
        r == create_link_outcome(store@, base_address, target_address, LinkTypes::ResourceToBookingRequests),
{
    validate_create_link(store, base_address, target_address, LinkTypes::ResourceToBookingRequests)
}

pub fn validate_delete_link_resource_to_booking_requests() -> (r: Verdict)
    ensures
        r == Ok::<ValidateCallbackResult, BookieError>(ValidateCallbackResult::Valid),
{
    validate_delete_link(LinkTypes::ResourceToBookingRequests)
}

/// The base must be a BookingRequest and the target a Booking.
pub fn validate_create_link_booking_request_to_bookings(
    store: &Store,
    base_address: AnyLinkableHash,
    target_address: ActionHash,
) -> (r: Verdict)
    ensures
        r == create_link_outcome(store@, base_address, target_address, LinkTypes::BookingRequestToBookings),
{
    validate_create_link(store, base_address, target_address, LinkTypes::BookingRequestToBookings)
}

pub fn validate_delete_link_booking_request_to_bookings() -> (r: Verdict)
    ensures
        r == Ok::<ValidateCallbackResult, BookieError>(
            ValidateCallbackResult::Invalid(Reason::UndeletableLink(LinkTypes::BookingRequestToBookings)),
        ),
{
    validate_delete_link(LinkTypes::BookingRequestToBookings)
}

/// The base must be a Resource and the target a Booking.
pub fn validate_create_link_resource_to_bookings(
    store: &Store,
    base_address: AnyLinkableHash,
    target_address: ActionHash,
) -> (r: Verdict)
    ensures
        r == create_link_outcome(store@, base_address, target_address, LinkTypes::ResourceToBookings),
{
    validate_create_link(store, base_address, target_address, LinkTypes::ResourceToBookings)
}

pub fn validate_delete_link_resource_to_bookings() -> (r: Verdict)
    ensures
        r == Ok::<ValidateCallbackResult, BookieError>(
            ValidateCallbackResult::Invalid(Reason::UndeletableLink(LinkTypes::ResourceToBookings)),
        ),
{
    validate_delete_link(LinkTypes::ResourceToBookings)
}

pub fn validate_create_link_all_resources(store: &Store, base_address: AnyLinkableHash, target_address: ActionHash) -> (r: Verdict)
    ensures
        r == create_link_outcome(store@, base_address, target_address, LinkTypes::AllResources),
        r == Ok::<ValidateCallbackResult, BookieError>(ValidateCallbackResult::Valid),
{
    validate_create_link(store, base_address, target_address, LinkTypes::AllResources)
}

pub fn validate_delete_link_all_resources() -> (r: Verdict)
    ensures
        r == Ok::<ValidateCallbackResult, BookieError>(ValidateCallbackResult::Valid),
{
    validate_delete_link(LinkTypes::AllResources)
}

pub fn validate_create_link_my_resources(store: &Store, base_address: AnyLinkableHash, target_address: ActionHash) -> (r: Verdict)
    ensures
        r == create_link_outcome(store@, base_address, target_address, LinkTypes::MyResources),
        r == Ok::<ValidateCallbackResult, BookieError>(ValidateCallbackResult::Valid),
{
    validate_create_link(store, base_address, target_address, LinkTypes::MyResources)
}

pub fn validate_delete_link_my_resources() -> (r: Verdict)
    ensures
        r == Ok::<ValidateCallbackResult, BookieError>(ValidateCallbackResult::Valid),
{
    validate_delete_link(LinkTypes::MyResources)
}

/// The target must be a BookingRequest; the owning identity is not checked.
pub fn validate_create_link_my_booking_requests(
    store: &Store,
    base_address: AnyLinkableHash,
    target_address: ActionHash,
) -> (r: Verdict)
    ensures
        r == create_link_outcome(store@, base_address, target_address, LinkTypes::MyBookingRequests),
{
    validate_create_link(store, base_address, target_address, LinkTypes::MyBookingRequests)
}

pub fn validate_delete_link_my_booking_requests() -> (r: Verdict)
    ensures
        r == Ok::<ValidateCallbackResult, BookieError>(ValidateCallbackResult::Valid),
{
    validate_delete_link(LinkTypes::MyBookingRequests)
}

pub fn validate_create_link_booker_to_bookings(store: &Store, base_address: AnyLinkableHash, target_address: ActionHash) -> (r: Verdict)
    ensures
        r == create_link_outcome(store@, base_address, target_address, LinkTypes::BookerToBookings),
        r == Ok::<ValidateCallbackResult, BookieError>(ValidateCallbackResult::Valid),
{
    validate_create_link(store, base_address, target_address, LinkTypes::BookerToBookings)
}

pub fn validate_delete_link_booker_to_bookings() -> (r: Verdict)
    ensures
        r == Ok::<ValidateCallbackResult, BookieError>(ValidateCallbackResult::Valid),
{
    validate_delete_link(LinkTypes::BookerToBookings)
}

/// Self-check of a network's genesis: nothing to check.
pub fn genesis_self_check() -> (r: Verdict)
    ensures
        r == Ok::<ValidateCallbackResult, BookieError>(ValidateCallbackResult::Valid),
{
    Ok(ValidateCallbackResult::Valid)
}

/// Hook for an agent that joins: every agent may join.
pub fn validate_agent_joining(agent: AgentPubKey) -> (r: Verdict)
    ensures
        r == Ok::<ValidateCallbackResult, BookieError>(ValidateCallbackResult::Valid),
{
    Ok(ValidateCallbackResult::Valid)
}

fn validate_create_entry(store: &Store, entry: &EntryTypes) -> (r: Verdict)
    ensures
        r == create_entry_outcome(store@, *entry),
{
    match entry {
        EntryTypes::Resource(x) => validate_create_resource(store, x),
        EntryTypes::BookingRequest(x) => validate_create_booking_request(store, x),
        EntryTypes::Booking(x) => validate_create_booking(store, x),
    }
}

fn validate_update_entry(store: &Store, original: ActionHash, entry: &EntryTypes) -> (r: Verdict)
    ensures
        r == update_outcome(store@, original, *entry),
{
    if store.action(original).is_none() {
        return Err(BookieError::NotFound);
    }
    let original_entry = match store.entry(original) {
        Some(e) => e,
        None => return Ok(ValidateCallbackResult::Invalid(Reason::UpdateOriginalNotEntry)),
    };
    let c = validate_create_entry(store, entry);
    if !is_valid(&c) {
        return c;
    }
    match (entry, original_entry) {
        (EntryTypes::Resource(x), EntryTypes::Resource(o)) => validate_update_resource(x, o),
        (EntryTypes::BookingRequest(x), EntryTypes::BookingRequest(o)) => validate_update_booking_request(x, o),
        (EntryTypes::Booking(x), EntryTypes::Booking(o)) => validate_update_booking(x, o),
        _ => Ok(ValidateCallbackResult::Invalid(Reason::EntryTypeMismatch)),
    }
}

fn validate_delete_entry(store: &Store, deletes: ActionHash) -> (r: Verdict)
    ensures
        r == delete_outcome(store@, deletes),
{
    if store.action(deletes).is_none() {
        return Err(BookieError::NotFound);
    }
    match store.entry(deletes) {
        Some(EntryTypes::Resource(o)) => validate_delete_resource(o),
        Some(EntryTypes::BookingRequest(o)) => validate_delete_booking_request(o),
        Some(EntryTypes::Booking(o)) => validate_delete_booking(o),
        None => Ok(ValidateCallbackResult::Invalid(Reason::DeleteOriginalNotEntry)),
    }
}

fn validate_link_removal(store: &Store, link_add: ActionHash) -> (r: Verdict)
    ensures
        r == delete_link_outcome(store@, link_add),
{
    match store.action(link_add) {
        None => Err(BookieError::NotFound),
        Some(a) => match &a.action {
            Action::CreateLink { link_type, .. } => match link_type {
                LinkTypes::ResourceUpdates => validate_delete_link_resource_updates(),
                LinkTypes::ResourceToBookingRequests => validate_delete_link_resource_to_booking_requests(),
                LinkTypes::BookingRequestToBookings => validate_delete_link_booking_request_to_bookings(),
                LinkTypes::ResourceToBookings => validate_delete_link_resource_to_bookings(),
                LinkTypes::AllResources => validate_delete_link_all_resources(),
                LinkTypes::MyResources => validate_delete_link_my_resources(),
                LinkTypes::MyBookingRequests => validate_delete_link_my_booking_requests(),
                LinkTypes::BookerToBookings => validate_delete_link_booker_to_bookings(),
            },
            _ => Ok(ValidateCallbackResult::Invalid(Reason::DeleteLinkOriginalNotCreateLink)),
        },
    }
}

fn validate_join(store: &Store, agent: AgentPubKey, prev: ActionHash) -> (r: Verdict)
    ensures
        r == join_outcome(store@, prev),
{
    match store.action(prev) {
        None => Err(BookieError::NotFound),
        Some(a) => match &a.action {
            Action::AgentValidationPkg => validate_agent_joining(agent),
            _ => Ok(ValidateCallbackResult::Invalid(Reason::JoinWithoutValidationPackage)),
        },
    }
}

/// Decides whether `op` may be stored on top of what `store` holds. Pure: the
/// store is only read, so any peer may run it on any other peer's writes.
pub fn validate(store: &Store, op: &SignedAction) -> (r: Verdict)
    ensures
        r == validation_outcome(store@, *op),
{
    match &op.action {
        Action::AgentValidationPkg => genesis_self_check(),
        Action::CreateAgent { agent, prev_action } => validate_join(store, *agent, *prev_action),
        Action::Create { entry } => validate_create_entry(store, entry),
        Action::Update { original_action_address, entry } => validate_update_entry(store, *original_action_address, entry),
        Action::Delete { deletes_address } => validate_delete_entry(store, *deletes_address),
        Action::CreateLink { base_address, target_address, link_type } => {
            match link_type {
                LinkTypes::ResourceUpdates => validate_create_link_resource_updates(store, *base_address, *target_address),
                LinkTypes::ResourceToBookingRequests => validate_create_link_resource_to_booking_requests(store, *base_address, *target_address),
                LinkTypes::BookingRequestToBookings => validate_create_link_booking_request_to_bookings(store, *base_address, *target_address),
                LinkTypes::ResourceToBookings => validate_create_link_resource_to_bookings(store, *base_address, *target_address),
                LinkTypes::AllResources => validate_create_link_all_resources(store, *base_address, *target_address),
                LinkTypes::MyResources => validate_create_link_my_resources(store, *base_address, *target_address),
                LinkTypes::MyBookingRequests => validate_create_link_my_booking_requests(store, *base_address, *target_address),
                LinkTypes::BookerToBookings => validate_create_link_booker_to_bookings(store, *base_address, *target_address),
            }
        },
        Action::DeleteLink { link_add_address } => validate_link_removal(store, *link_add_address),
    }
}

/// What storing `op` on top of `s` returns: its address when everything it
/// refers to is stored, it is valid and it fits; else the rejection.
pub open spec fn commit_outcome(s: Seq<SignedAction>, op: SignedAction) -> Result<ActionHash, BookieError> {
    if !refers_back(op, s.len() as int) {
        Err(BookieError::NotFound)
    } else {
        match validation_outcome(s, op) {
        Ok(ValidateCallbackResult::Valid) => if s.len() < MAX_ACTIONS {
            Ok(ActionHash(s.len() as u64))
        } else {
            Err(BookieError::HostFailure)
        },
        Ok(ValidateCallbackResult::Invalid(reason)) => Err(BookieError::Invalid(reason)),
        Err(e) => Err(e),
        }
    }
}

/// The actions stored after an attempt to store `op` on top of `s`.
pub open spec fn commit_state(s: Seq<SignedAction>, op: SignedAction) -> Seq<SignedAction> {
    if commit_outcome(s, op) is Ok {
        s.push(op)
    } else {
        s
    }
}

/// Validates `op` and stores it only when it is valid: a rejected mutation
/// never reaches the store.
pub fn commit(store: &mut Store, op: SignedAction) -> (r: Result<ActionHash, BookieError>)
    requires
        old(store).wf(),
    ensures
        final(store).wf(),
        r == commit_outcome(old(store)@, op),
        final(store)@ == commit_state(old(store)@, op),
{
    if !store.references_exist(&op) {
        return Err(BookieError::NotFound);
    }
    match validate(store, &op) {
        Ok(ValidateCallbackResult::Valid) => {
            if !store.has_room_for(1) {
                return Err(BookieError::HostFailure);
            }
            Ok(store.append(op))
        },
        Ok(ValidateCallbackResult::Invalid(reason)) => Err(BookieError::Invalid(reason)),
        Err(e) => Err(e),
    }
}

} // verus!
