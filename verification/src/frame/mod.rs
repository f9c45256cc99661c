pub mod components;
pub mod management;

use crate::error::{parse_error_report, ErrorView};
use crate::frame::components::FrameControl;
use crate::frame::management::association_request::AssociationRequestView;
use crate::frame::management::beacon::BeaconView;
use crate::frame_types::FrameSubType;
use crate::parsers::field;
use vstd::prelude::*;

pub use management::{AssociationRequest, Beacon};

verus! {

/// A frame of one of the subtypes that this library reads.
#[derive(Clone, Debug, PartialEq, Eq)]
pub enum Frame {
    Beacon(Beacon),
    AssociationRequest(AssociationRequest),
}

/// A [`Frame`] as a value of specifications.
pub enum FrameView {
    Beacon(BeaconView),
    AssociationRequest(AssociationRequestView),
}

impl View for Frame {
    type V = FrameView;

    open spec fn view(&self) -> FrameView {
        match self {
            Frame::Beacon(beacon) => FrameView::Beacon(beacon@),
            Frame::AssociationRequest(request) => FrameView::AssociationRequest(request@),
        }
    }
}

impl FrameView {
    /// The frame at the start of `input` with the octets that are left
    /// behind it, or the error for an input that does not start with a frame
    /// that this library reads.
    ///
    /// The first two octets are the frame control, and any two octets are
    /// one. Its subtype says what follows.
    pub open spec fn from_wire(input: Seq<u8>) -> Result<(Seq<u8>, FrameView), ErrorView> {
        match field(input, 2) {
            Err(e) => Err(parse_error_report(e)),
            Ok((body, _)) => {
                let frame_control = FrameControl::from_wire(input[0], input[1]);
                match frame_control.frame_subtype {
                    FrameSubType::Beacon => match BeaconView::from_wire(frame_control, body) {
                        Ok((rest, beacon)) => Ok((rest, FrameView::Beacon(beacon))),
                        Err(e) => Err(parse_error_report(e)),
                    },
                    FrameSubType::AssociationRequest => match AssociationRequestView::from_wire(
                        frame_control,
                        body,
                    ) {
                        Ok((rest, request)) => Ok((rest, FrameView::AssociationRequest(request))),
                        Err(e) => Err(parse_error_report(e)),
                    },
                    _ => Err(ErrorView::UnhandledFrameSubtype(frame_control, body)),
                }
            },
        }
    }
}

} // verus!
