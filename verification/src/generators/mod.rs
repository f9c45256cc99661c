pub mod components;
pub mod error;
pub mod frame_types;

use crate::bytes::splice;
use vstd::prelude::*;

pub use components::frame_control::{
    gen_ctrl_subtype, gen_data_subtype, gen_frame_control, gen_frame_type, gen_mgmt_subtype,
};
pub use components::header::{_gen_data_header, gen_mgmt_header};
pub use components::sequence_control::gen_sequence_ctrl;
pub use components::station_info::gen_station_info;
pub use error::{GenError, SerializationError};
pub use frame_types::management::gen_beacon;

verus! {

/// Where a generator writes: a buffer, and the index of the first octet that
/// it may touch.
pub type GenCursor<'a> = (&'a mut [u8], usize);

/// What a generator hands back: the same buffer with the index behind what
/// it wrote, or the reason for which it wrote nothing.
pub type GenResult<'a> = Result<GenCursor<'a>, GenError>;

/// The largest index that `len` octets from `offset` on reach, as far as a
/// `usize` can tell.
pub open spec fn last_index(offset: usize, len: nat) -> usize
    recommends
        offset + len > 0,
{
    if offset + len > usize::MAX {
        usize::MAX
    } else {
        (offset + len - 1) as usize
    }
}

/// What every generator of this library does with the wire form of its
/// value, given a buffer that holds `before` and an index into it.
///
/// A value without a wire form is refused for that reason. A wire form that
/// does not fit between `offset` and the end of the buffer is refused with
/// the largest index that it would reach. Else the wire form replaces the
/// octets from `offset` on, and the index moves behind it. Nothing is written
/// unless all of it is.
pub open spec fn generated(
    before: Seq<u8>,
    offset: usize,
    wire: Result<Seq<u8>, SerializationError>,
) -> Result<(Seq<u8>, usize), GenError> {
    match wire {
        Err(e) => Err(GenError::CustomError(e)),
        Ok(bytes) => {
            if offset + bytes.len() <= before.len() {
                Ok((splice(before, offset as int, bytes), (offset + bytes.len()) as usize))
            } else {
                Err(GenError::BufferTooSmall(last_index(offset, bytes.len())))
            }
        },
    }
}

/// The index behind `len` octets written from `offset` on, if a buffer of
/// `buf_len` octets has room for them. `None` stands for a length beyond
/// `usize`.
pub fn check_room(buf_len: usize, offset: usize, len: Option<usize>) -> (end: Result<
    usize,
    GenError,
>)
    ensures
        match len {
            Some(n) => end == generated_end(buf_len, offset, n as nat),
            None => end == Err::<usize, _>(GenError::BufferTooSmall(usize::MAX)),
        },
{
    match len {
        Some(n) => match offset.checked_add(n) {
            Some(end) => {
                if end <= buf_len {
                    Ok(end)
                } else {
                    Err(GenError::BufferTooSmall(end - 1))
                }
            },
            None => Err(GenError::BufferTooSmall(usize::MAX)),
        },
        None => Err(GenError::BufferTooSmall(usize::MAX)),
    }
}

/// The index behind `len` octets written from `offset` on, or the error for
/// a buffer of `buf_len` octets that has no room for them.
pub open spec fn generated_end(buf_len: usize, offset: usize, len: nat) -> Result<
    usize,
    GenError,
> {
    if offset + len <= buf_len {
        Ok((offset + len) as usize)
    } else {
        Err(GenError::BufferTooSmall(last_index(offset, len)))
    }
}

} // verus!
