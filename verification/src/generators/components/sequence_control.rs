use crate::bytes::splice;
use crate::frame::components::SequenceControl;
use crate::generators::{check_room, generated, GenCursor, GenError, GenResult};
use vstd::prelude::*;

verus! {

/// Writes the two octets of a sequence control.
pub fn gen_sequence_ctrl<'a>(cursor: GenCursor<'a>, seq_ctrl: &SequenceControl) -> (r: GenResult<
    'a,
>)
    ensures
        match r {
            Ok((buf, end)) => {
                &&& generated(old(cursor.0)@, cursor.1, Ok(seq_ctrl.wire())) == Ok::<_, GenError>(
                    (buf@, end),
                )
                &&& final(buf)@ == final(cursor.0)@
            },
            Err(e) => {
                &&& generated(old(cursor.0)@, cursor.1, Ok(seq_ctrl.wire())) == Err::<
                    (Seq<u8>, usize),
                    _,
                >(e)
                &&& final(cursor.0)@ == old(cursor.0)@
            },
        },
{
    let (buf, offset) = cursor;
    let end = match check_room(buf.len(), offset, Some(2)) {
        Ok(end) => end,
        Err(e) => { return Err(e); },
    };
    write_sequence_ctrl(buf, offset, seq_ctrl);
    Ok((buf, end))
}

/// Writes the two octets of a sequence control where there is room for
/// them.
pub(crate) fn write_sequence_ctrl(buf: &mut [u8], at: usize, seq_ctrl: &SequenceControl)
    requires
        at + 2 <= old(buf).len(),
    ensures
        final(buf)@ == splice(old(buf)@, at as int, seq_ctrl.wire()),
{
    let sequence_number = seq_ctrl.sequence_number;
    let fragment_number = seq_ctrl.fragment_number;
    // Upper 8 bits of 12 bit sequence number
    let high = ((sequence_number >> 4) & 0xFF) as u8;
    // Lower 4 bits of sequence number + 4 bit fragment number
    let low = (((sequence_number & 0x0F) << 4) as u8) | (fragment_number & 0x0F);
    assert(high == (sequence_number / 16) % 256 && low == (sequence_number % 16) * 16
        + fragment_number % 16) by (bit_vector)
        requires
            high == ((sequence_number >> 4) & 0xFF) as u8,
            low == (((sequence_number & 0x0F) << 4) as u8) | (fragment_number & 0x0F),
    ;
    buf[at] = low;
    buf[at + 1] = high;
    assert(buf@ =~= splice(old(buf)@, at as int, seq_ctrl.wire()));
}

} // verus!
