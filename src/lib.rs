//! Bookable resources, booking requests and bookings over an append-only,
//! content-addressed store: versioned-entry resolution, a link-based
//! secondary index, and the validation rules that guard every mutation.

pub mod schema;
pub mod store;
pub mod validation;
pub mod resolve;
pub mod host;
pub mod resource;
pub mod booking_request;
pub mod booking;
pub mod booker_to_bookings;
pub mod my_booking_requests;
pub mod my_resources;
pub mod laws;

pub use schema::{
    ActionHash, AgentPubKey, AnyLinkableHash, Booking, BookingRequest, EntryHash, EntryTypes, LinkTypes, Resource,
    Timestamp, UnitEntryTypes, ALL_RESOURCES_ANCHOR,
};
pub use store::{Action, Link, Record, RecordDetails, SignedAction, Store, UpdateRef, MAX_ACTIONS};
pub use validation::{
    commit, genesis_self_check, validate, validate_agent_joining, validate_create_booking,
    validate_create_booking_request, validate_create_link, validate_create_link_all_resources,
    validate_create_link_booker_to_bookings, validate_create_link_booking_request_to_bookings,
    validate_create_link_my_booking_requests, validate_create_link_my_resources,
    validate_create_link_resource_to_booking_requests, validate_create_link_resource_to_bookings,
    validate_create_link_resource_updates, validate_create_resource, validate_delete_booking,
    validate_delete_booking_request, validate_delete_link, validate_delete_link_all_resources,
    validate_delete_link_booker_to_bookings, validate_delete_link_booking_request_to_bookings,
    validate_delete_link_my_booking_requests, validate_delete_link_my_resources,
    validate_delete_link_resource_to_booking_requests, validate_delete_link_resource_to_bookings,
    validate_delete_link_resource_updates, validate_delete_resource, validate_update_booking,
    validate_update_booking_request, validate_update_resource, BookieError, Reason, ValidateCallbackResult, Verdict,
};
pub use resolve::{get_latest, get_resource_head, pick_latest};
pub use host::{create_entry, create_link, delete_entry, delete_link, get_linked_records, update_entry, AgentContext};
pub use resource::{create_resource, delete_resource, get_resource, update_resource, UpdateResourceInput};
pub use booking_request::{
    cancel_booking_request, create_booking_request, delete_booking_request, get_booking_request,
    get_booking_requests_for_resource, get_latest_booking_request, reject_booking_request,
    remove_booking_request_for_resource, update_booking_request, GetBookingRequestOutput, UpdateBookingRequestInput,
};
pub use booking::{
    create_booking, delete_booking, get_booking, get_bookings_for_booking_request, get_bookings_for_resource,
    get_latest_booking, update_booking, UpdateBookingInput,
};
pub use booker_to_bookings::{add_booking_for_booker, get_bookings_for_booker};
pub use my_booking_requests::{clear_my_booking_requests, get_my_booking_requests};
pub use my_resources::get_my_resources;
