use crate::frame::components::ManagementHeader;
use crate::frame::{AssociationRequest, Beacon};
use vstd::prelude::*;

verus! {

/// Frames that start with the header of a management frame.
pub trait HasHeader {
    /// The header of the frame.
    spec fn header(&self) -> ManagementHeader;

    /// The header of the frame.
    fn get_header(&self) -> (header: &ManagementHeader)
        ensures
            *header == self.header(),
    ;
}

impl HasHeader for AssociationRequest {
    open spec fn header(&self) -> ManagementHeader {
        self.header
    }

    fn get_header(&self) -> (header: &ManagementHeader) {
        &self.header
    }
}

impl HasHeader for Beacon {
    open spec fn header(&self) -> ManagementHeader {
        self.header
    }

    fn get_header(&self) -> (header: &ManagementHeader) {
        &self.header
    }
}

} // verus!
