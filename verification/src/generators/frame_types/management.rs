use crate::bytes::{le_bytes, lemma_le_bytes_len, lemma_splice_twice, splice, write_le};
use crate::frame::management::beacon::lemma_beacon_wire_layout;
use crate::frame::Beacon;
use crate::generators::components::frame_control::frame_control_octet;
use crate::generators::components::header::write_mgmt_header;
use crate::generators::components::station_info::{station_info_len, write_station_info};
use crate::generators::{
    check_room, generated, GenCursor, GenError, GenResult, SerializationError,
};
use vstd::prelude::*;

verus! {

/// Writes a beacon: header, timestamp, interval, capabilities and the
/// information elements.
pub fn gen_beacon<'a>(cursor: GenCursor<'a>, frame: &Beacon) -> (r: GenResult<'a>)
    ensures
        match r {
            Ok((buf, end)) => {
                &&& generated(old(cursor.0)@, cursor.1, frame@.wire()) == Ok::<_, GenError>(
                    (buf@, end),
                )
                &&& final(buf)@ == final(cursor.0)@
            },
            Err(e) => {
                &&& generated(old(cursor.0)@, cursor.1, frame@.wire()) == Err::<
                    (Seq<u8>, usize),
                    _,
                >(e)
                &&& final(cursor.0)@ == old(cursor.0)@
            },
        },
{
    let first = match frame_control_octet(&frame.header.frame_control) {
        Ok(octet) => octet,
        Err(e) => { return Err(GenError::CustomError(e)); },
    };
    let len = match station_info_len(&frame.station_info) {
        Ok(Some(elements_len)) => elements_len.checked_add(36),
        Ok(None) => None,
        Err(e) => { return Err(GenError::CustomError(e)); },
    };
    proof {
        lemma_beacon_wire_layout(frame@);
    }
    let (buf, offset) = cursor;
    let end = match check_room(buf.len(), offset, len) {
        Ok(end) => end,
        Err(e) => { return Err(e); },
    };
    write_beacon(buf, offset, frame, first);
    Ok((buf, end))
}

/// Writes a beacon where it can be written and there is room for it.
/// `first` is the first octet of its frame control.
fn write_beacon(buf: &mut [u8], at: usize, frame: &Beacon, first: u8)
    requires
        frame@.wire() is Ok,
        at + frame@.wire()->Ok_0.len() <= old(buf).len(),
        frame.header.frame_control.wire() == Ok::<Seq<u8>, SerializationError>(
            seq![first, frame.header.frame_control.flags],
        ),
    ensures
        final(buf)@ == splice(old(buf)@, at as int, frame@.wire()->Ok_0),
{
    let ghost before = buf@;
    let ghost header = frame.header.wire()->Ok_0;
    let ghost timestamp = le_bytes(frame.timestamp as nat, 8);
    let ghost interval = le_bytes(frame.beacon_interval as nat, 2);
    let ghost capabilities = le_bytes(frame.capability_info.0 as nat, 2);
    let ghost elements = frame.station_info@.wire()->Ok_0;
    proof {
        lemma_beacon_wire_layout(frame@);
        lemma_le_bytes_len(frame.timestamp as nat, 8);
        lemma_le_bytes_len(frame.beacon_interval as nat, 2);
        lemma_le_bytes_len(frame.capability_info.0 as nat, 2);
    }
    write_mgmt_header(buf, at, &frame.header, first);
    write_le(buf, at + 24, frame.timestamp, 8);
    assert(buf@ == splice(before, at as int, header + timestamp)) by {
        lemma_splice_twice(before, at as int, header, timestamp);
    }
    write_le(buf, at + 32, frame.beacon_interval as u64, 2);
    assert(buf@ == splice(before, at as int, header + timestamp + interval)) by {
        lemma_splice_twice(before, at as int, header + timestamp, interval);
    }
    write_le(buf, at + 34, frame.capability_info.bits() as u64, 2);
    assert(buf@ == splice(before, at as int, header + timestamp + interval + capabilities)) by {
        lemma_splice_twice(before, at as int, header + timestamp + interval, capabilities);
    }
    write_station_info(buf, at + 36, &frame.station_info);
    assert(buf@ == splice(before, at as int, frame@.wire()->Ok_0)) by {
        lemma_splice_twice(
            before,
            at as int,
            header + timestamp + interval + capabilities,
            elements,
        );
        assert(header + timestamp + interval + capabilities + elements =~= header + (timestamp
            + interval + capabilities) + elements);
    }
}

} // verus!
