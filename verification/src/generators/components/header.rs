use crate::bytes::{lemma_splice_twice, splice, write_bytes};
use crate::frame::components::header::addressing_wire;
use crate::frame::components::{DataHeader, MacAddress, ManagementHeader, SequenceControl};
use crate::generators::components::frame_control::{frame_control_octet, write_frame_control};
use crate::generators::components::sequence_control::write_sequence_ctrl;
use crate::generators::{
    check_room, generated, GenCursor, GenError, GenResult, SerializationError,
};
use vstd::prelude::*;

verus! {

/// Writes the 24 octets of the header of a management frame.
pub fn gen_mgmt_header<'a>(cursor: GenCursor<'a>, mgmt_header: &ManagementHeader) -> (r: GenResult<
    'a,
>)
    ensures
        match r {
            Ok((buf, end)) => {
                &&& generated(old(cursor.0)@, cursor.1, mgmt_header.wire()) == Ok::<_, GenError>(
                    (buf@, end),
                )
                &&& final(buf)@ == final(cursor.0)@
            },
            Err(e) => {
                &&& generated(old(cursor.0)@, cursor.1, mgmt_header.wire()) == Err::<
                    (Seq<u8>, usize),
                    _,
                >(e)
                &&& final(cursor.0)@ == old(cursor.0)@
            },
        },
{
    let first = match frame_control_octet(&mgmt_header.frame_control) {
        Ok(octet) => octet,
        Err(e) => { return Err(GenError::CustomError(e)); },
    };
    let (buf, offset) = cursor;
    let end = match check_room(buf.len(), offset, Some(24)) {
        Ok(end) => end,
        Err(e) => { return Err(e); },
    };
    write_mgmt_header(buf, offset, mgmt_header, first);
    Ok((buf, end))
}

/// Writes the header of a data frame: 24 octets, then the fourth address
/// and the QoS control field where the header holds them.
pub fn _gen_data_header<'a>(cursor: GenCursor<'a>, data_header: &DataHeader) -> (r: GenResult<'a>)
    ensures
        match r {
            Ok((buf, end)) => {
                &&& generated(old(cursor.0)@, cursor.1, data_header.wire()) == Ok::<_, GenError>(
                    (buf@, end),
                )
                &&& final(buf)@ == final(cursor.0)@
            },
            Err(e) => {
                &&& generated(old(cursor.0)@, cursor.1, data_header.wire()) == Err::<
                    (Seq<u8>, usize),
                    _,
                >(e)
                &&& final(cursor.0)@ == old(cursor.0)@
            },
        },
{
    let first = match frame_control_octet(&data_header.frame_control) {
        Ok(octet) => octet,
        Err(e) => { return Err(GenError::CustomError(e)); },
    };
    let after_address_4: usize = if data_header.address_4.is_some() {
        30
    } else {
        24
    };
    let len: usize = if data_header.qos.is_some() {
        after_address_4 + 2
    } else {
        after_address_4
    };
    proof {
        lemma_data_header_wire_layout(*data_header);
    }
    let (buf, offset) = cursor;
    let end = match check_room(buf.len(), offset, Some(len)) {
        Ok(end) => end,
        Err(e) => { return Err(e); },
    };
    write_data_header(buf, offset, data_header, first);
    Ok((buf, end))
}

/// The octets of a data header that can be written: two of the frame
/// control, 22 that every header has, and those of the fields that this one
/// holds.
pub proof fn lemma_data_header_wire_layout(header: DataHeader)
    requires
        header.wire() is Ok,
    ensures
        ({
            let fourth = match header.address_4 {
                Some(address) => address.wire(),
                None => Seq::empty(),
            };
            let qos = match header.qos {
                Some(qos) => qos@,
                None => Seq::empty(),
            };
            &&& header.wire()->Ok_0 == header.frame_control.wire()->Ok_0 + addressing_wire(
                header.duration,
                header.address_1,
                header.address_2,
                header.address_3,
                header.sequence_control,
            ) + fourth + qos
            &&& header.wire()->Ok_0.len() == 24 + fourth.len() + qos.len()
            &&& fourth.len() == (if header.address_4 is Some {
                6nat
            } else {
                0nat
            })
            &&& qos.len() == (if header.qos is Some {
                2nat
            } else {
                0nat
            })
        }),
{
    let fourth = match header.address_4 {
        Some(address) => address.wire(),
        None => Seq::empty(),
    };
    let qos = match header.qos {
        Some(qos) => qos@,
        None => Seq::empty(),
    };
    let addressing = addressing_wire(
        header.duration,
        header.address_1,
        header.address_2,
        header.address_3,
        header.sequence_control,
    );
    assert(header.wire()->Ok_0 =~= header.frame_control.wire()->Ok_0 + addressing + fourth + qos);
}

/// Writes the header of a data frame where there is room for it. `first`
/// is the first octet of the header's frame control.
fn write_data_header(buf: &mut [u8], at: usize, data_header: &DataHeader, first: u8)
    requires
        data_header.wire() is Ok,
        at + data_header.wire()->Ok_0.len() <= old(buf).len(),
        data_header.frame_control.wire() == Ok::<Seq<u8>, SerializationError>(
            seq![first, data_header.frame_control.flags],
        ),
    ensures
        final(buf)@ == splice(old(buf)@, at as int, data_header.wire()->Ok_0),
{
    let ghost before = buf@;
    let ghost control = seq![first, data_header.frame_control.flags];
    let ghost addressing = addressing_wire(
        data_header.duration,
        data_header.address_1,
        data_header.address_2,
        data_header.address_3,
        data_header.sequence_control,
    );
    let ghost fourth = match data_header.address_4 {
        Some(address) => address.wire(),
        None => Seq::empty(),
    };
    let ghost qos = match data_header.qos {
        Some(qos) => qos@,
        None => Seq::empty(),
    };
    proof {
        lemma_data_header_wire_layout(*data_header);
    }
    write_frame_control(buf, at, first, data_header.frame_control.flags);
    write_addressing(
        buf,
        at + 2,
        &data_header.duration,
        &data_header.address_1,
        &data_header.address_2,
        &data_header.address_3,
        &data_header.sequence_control,
    );
    assert(buf@ == splice(before, at as int, control + addressing)) by {
        lemma_splice_twice(before, at as int, control, addressing);
    }
    let after_address_4 = write_optional(
        buf,
        at + 24,
        match &data_header.address_4 {
            Some(address) => Some(address.0.as_slice()),
            None => None,
        },
    );
    assert(buf@ == splice(before, at as int, control + addressing + fourth)) by {
        lemma_splice_twice(before, at as int, control + addressing, fourth);
    }
    write_optional(
        buf,
        after_address_4,
        match &data_header.qos {
            Some(qos) => Some(qos.as_slice()),
            None => None,
        },
    );
    assert(buf@ == splice(before, at as int, control + addressing + fourth + qos)) by {
        lemma_splice_twice(before, at as int, control + addressing + fourth, qos);
    }
}

/// Writes a field that may be there or not, and gives the index behind it.
fn write_optional(buf: &mut [u8], at: usize, field: Option<&[u8]>) -> (end: usize)
    requires
        match field {
            Some(octets) => at + octets.len() <= old(buf).len(),
            None => at <= old(buf).len(),
        },
    ensures
        match field {
            Some(octets) => end == at + octets.len() && final(buf)@ == splice(
                old(buf)@,
                at as int,
                octets@,
            ),
            None => end == at && final(buf)@ == splice(old(buf)@, at as int, Seq::empty()),
        },
{
    match field {
        Some(octets) => {
            write_bytes(buf, at, octets);
            at + octets.len()
        },
        None => {
            assert(buf@ =~= splice(buf@, at as int, Seq::<u8>::empty()));
            at
        },
    }
}

/// Writes the 24 octets of the header of a management frame where there is
/// room for them. `first` is the first octet of the header's frame control.
pub(crate) fn write_mgmt_header(
    buf: &mut [u8],
    at: usize,
    mgmt_header: &ManagementHeader,
    first: u8,
)
    requires
        at + 24 <= old(buf).len(),
        mgmt_header.frame_control.wire() == Ok::<Seq<u8>, SerializationError>(
            seq![first, mgmt_header.frame_control.flags],
        ),
    ensures
        mgmt_header.wire() is Ok,
        mgmt_header.wire()->Ok_0.len() == 24,
        final(buf)@ == splice(old(buf)@, at as int, mgmt_header.wire()->Ok_0),
{
    write_frame_control(buf, at, first, mgmt_header.frame_control.flags);
    write_addressing(
        buf,
        at + 2,
        &mgmt_header.duration,
        &mgmt_header.address_1,
        &mgmt_header.address_2,
        &mgmt_header.address_3,
        &mgmt_header.sequence_control,
    );
    proof {
        lemma_splice_twice(
            old(buf)@,
            at as int,
            seq![first, mgmt_header.frame_control.flags],
            mgmt_header.body_wire(),
        );
    }
}

/// Writes the 22 octets that follow the frame control in a header where
/// there is room for them.
fn write_addressing(
    buf: &mut [u8],
    at: usize,
    duration: &[u8; 2],
    address_1: &MacAddress,
    address_2: &MacAddress,
    address_3: &MacAddress,
    sequence_control: &SequenceControl,
)
    requires
        at + 22 <= old(buf).len(),
    ensures
        addressing_wire(*duration, *address_1, *address_2, *address_3, *sequence_control).len()
            == 22,
        final(buf)@ == splice(
            old(buf)@,
            at as int,
            addressing_wire(*duration, *address_1, *address_2, *address_3, *sequence_control),
        ),
{
    let ghost before = buf@;
    write_bytes(buf, at, duration.as_slice());
    write_bytes(buf, at + 2, address_1.0.as_slice());
    proof {
        lemma_splice_twice(before, at as int, duration@, address_1.wire());
    }
    write_bytes(buf, at + 8, address_2.0.as_slice());
    proof {
        lemma_splice_twice(before, at as int, duration@ + address_1.wire(), address_2.wire());
    }
    write_bytes(buf, at + 14, address_3.0.as_slice());
    proof {
        lemma_splice_twice(
            before,
            at as int,
            duration@ + address_1.wire() + address_2.wire(),
            address_3.wire(),
        );
    }
    write_sequence_ctrl(buf, at + 20, sequence_control);
    proof {
        lemma_splice_twice(
            before,
            at as int,
            duration@ + address_1.wire() + address_2.wire() + address_3.wire(),
            sequence_control.wire(),
        );
    }
}

} // verus!
