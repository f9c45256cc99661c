pub mod association_request;
pub mod beacon;

pub use association_request::AssociationRequest;
pub use beacon::Beacon;
