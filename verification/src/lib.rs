//! A codec for IEEE 802.11 link-layer frames: raw octets to typed frames and
//! back, with the wire format stated as specifications and the code proved
//! against them.

pub mod bytes;
pub mod error;
pub mod frame;
pub mod frame_types;
pub mod generators;
pub mod parsers;
pub mod round_trip;
pub mod text;
pub mod traits;

use crate::error::{gen_error_report, Error, ErrorView};
use crate::frame::FrameView;
use crate::generators::{gen_beacon, generated, GenCursor, GenError};
use crate::parsers::{parse_association_request, parse_beacon, parse_frame_control};
use vstd::prelude::*;
use vstd::slice::slice_to_vec;

pub use crate::frame::Frame;
pub use crate::frame_types::{FrameSubType, FrameType};
pub use crate::traits::HasHeader;

verus! {

/// Parse IEEE 802.11 frames from raw bytes.
///
/// The frame comes back with the octets that are left behind it. A frame
/// check sequence is not looked at: where the capture holds one, it is among
/// those octets.
pub fn parse_frame<'a>(input: &'a [u8]) -> (r: Result<(&'a [u8], Frame), Error>)
    ensures
        match r {
            Ok((rest, frame)) => FrameView::from_wire(input@) == Ok::<_, ErrorView>(
                (rest@, frame@),
            ),
            Err(e) => FrameView::from_wire(input@) == Err::<(Seq<u8>, FrameView), _>(e@),
        },
{
    let (input, frame_control) = match parse_frame_control(input) {
        Ok(read) => read,
        Err(e) => { return Err(Error::from(e)); },
    };
    // Check which kind of frame sub-type we got
    match frame_control.frame_subtype {
        FrameSubType::Beacon => match parse_beacon(frame_control, input) {
            Ok((rest, beacon)) => Ok((rest, Frame::Beacon(beacon))),
            Err(e) => Err(Error::from(e)),
        },
        FrameSubType::AssociationRequest => match parse_association_request(
            frame_control,
            input,
        ) {
            Ok((rest, request)) => Ok((rest, Frame::AssociationRequest(request))),
            Err(e) => Err(Error::from(e)),
        },
        _ => Err(Error::UnhandledFrameSubtype(frame_control, slice_to_vec(input))),
    }
}

/// What the generator of a frame does with a buffer that holds `before`,
/// writing from `offset` on. Only beacons have one.
pub open spec fn frame_generated(before: Seq<u8>, offset: usize, frame: FrameView) -> Result<
    (Seq<u8>, usize),
    GenError,
> {
    match frame {
        FrameView::Beacon(beacon) => generated(before, offset, beacon.wire()),
        _ => Err(GenError::NotYetImplemented),
    }
}

/// Writes a frame to the start of `buffer` and says how many octets it
/// took. Where the frame cannot be written, or is longer than the buffer,
/// the buffer stays as it was.
pub fn serialize_frame(buffer: &mut [u8], frame: &Frame) -> (r: Result<usize, Error>)
    ensures
        match r {
            Ok(written) => frame_generated(old(buffer)@, 0, frame@) == Ok::<_, GenError>(
                (final(buffer)@, written),
            ),
            Err(e) => {
                &&& frame_generated(old(buffer)@, 0, frame@) matches Err(reason)
                &&& e@ == gen_error_report(reason)
                &&& final(buffer)@ == old(buffer)@
            },
        },
{
    match frame {
        Frame::Beacon(beacon) => {
            let initial_cursor: GenCursor = (buffer, 0);
            match gen_beacon(initial_cursor, beacon) {
                Ok(final_cursor) => Ok(final_cursor.1),
                Err(e) => Err(Error::from(e)),
            }
        },
        _ => Err(Error::from(GenError::NotYetImplemented)),
    }
}

} // verus!
