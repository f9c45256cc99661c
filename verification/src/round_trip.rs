//! Writing and reading are inverse to each other: what is written reads back
//! as the value that was written, and what is read writes back as the octets
//! that were read. Both hold with conditions, which are stated here.

use crate::bytes::{
    le_bytes, le_value, lemma_le_bytes_len, lemma_le_bytes_of_value, lemma_le_value_bound,
    lemma_le_value_of_bytes, lemma_radix_values,
};
use crate::error::{ErrorView, ParseErrorView};
use crate::frame::components::frame_control::{
    lemma_frame_control_read_back, lemma_frame_control_round_trip, lemma_tables_inverse,
};
use crate::frame::components::sequence_control::{
    lemma_sequence_control_read_back, lemma_sequence_control_round_trip,
};
use crate::frame::components::station_info::{
    elements_fit, elements_wire, lemma_elements_cover_input, lemma_elements_wire_front,
    lemma_elements_wire_len, lemma_info_id_inverse, octets_of_rates, parse_elements,
    rates_of_octets, ssid_text, without_nul, Element, StationInfoView, MAX_ELEMENT_LEN,
    MAX_TRAILER_LEN,
};
use crate::frame::components::{DataHeader, FrameControl, ManagementHeader, ManagementInfoId};
use crate::frame::management::beacon::{lemma_beacon_wire_layout, BeaconView};
use crate::frame::FrameView;
use crate::frame_types::FrameSubType;
use crate::generators::SerializationError;
use vstd::prelude::*;
use vstd::utf8::{
    decode_utf8, decode_utf8_encode_utf8, encode_utf8, encode_utf8_decode_utf8,
    encode_utf8_valid_utf8, valid_utf8,
};

verus! {

/// Whether a text holds no NUL.
pub open spec fn has_no_nul(text: Seq<char>) -> bool {
    forall|i: int| 0 <= i < text.len() ==> text[i] != '\0'
}

impl StationInfoView {
    /// Whether the elements of this station info, written and followed by
    /// `trailer_len` more octets, read back as this station info.
    ///
    /// - There is an element, each element fits its length octet, and at
    ///   most four octets follow: reading starts with an element, and goes
    ///   on while more than four octets are left.
    /// - The last of several elements makes more than four octets with what
    ///   follows it: else it is taken for a trailer.
    /// - The SSID holds no NUL: reading puts a space in its place.
    /// - No field of `data` has the id of the SSID or of the rates: reading
    ///   takes such an element for the SSID or the rates.
    pub open spec fn reads_back(self, trailer_len: nat) -> bool {
        let elements = self.elements();
        &&& elements.len() >= 1
        &&& elements_fit(elements)
        &&& trailer_len <= MAX_TRAILER_LEN
        &&& elements.len() >= 2 ==> 2 + elements.last().payload.len() + trailer_len
            > MAX_TRAILER_LEN
        &&& self.ssid matches Some(ssid) ==> has_no_nul(ssid)
        &&& fields_have_own_ids(self.data)
    }
}

/// Whether a run of elements stands as [`StationInfoView::elements`] would
/// put the elements of the station info that it stands for.
///
/// - Every id has a name: an element without one is not kept.
/// - An SSID stands first, and its octets are the UTF-8 of a text without
///   NUL: only such text is written as it was read.
/// - A list of rates is not empty, and stands first or behind an SSID that
///   stands first.
pub open spec fn in_writing_order(elements: Seq<Element>) -> bool {
    &&& forall|i: int|
        0 <= i < elements.len() ==> ManagementInfoId::from_wire_value(
            (#[trigger] elements[i]).id,
        ) is Some
    &&& forall|i: int|
        0 <= i < elements.len() && (#[trigger] elements[i]).id == 0 ==> {
            &&& i == 0
            &&& valid_utf8(elements[i].payload)
            &&& has_no_nul(decode_utf8(elements[i].payload))
        }
    &&& forall|i: int|
        0 <= i < elements.len() && (#[trigger] elements[i]).id == 1 ==> {
            &&& elements[i].payload.len() > 0
            &&& i == 0 || (i == 1 && elements[0].id == 0)
        }
}

/// Elements that are written and followed by a short trailer are read as
/// they were, and the trailer is left.
pub proof fn lemma_parse_elements_of_wire(elements: Seq<Element>, trailer: Seq<u8>)
    requires
        elements.len() >= 1,
        elements_fit(elements),
        trailer.len() <= MAX_TRAILER_LEN,
        elements.len() >= 2 ==> 2 + elements.last().payload.len() + trailer.len()
            > MAX_TRAILER_LEN,
    ensures
        parse_elements(elements_wire(elements) + trailer) == Ok::<_, Seq<u8>>((elements, trailer)),
    decreases elements.len(),
{
    let first = elements[0];
    let others = elements.skip(1);
    let input = elements_wire(elements) + trailer;
    assert(elements =~= seq![first] + others);
    lemma_elements_wire_front(first, others);
    lemma_elements_wire_len(others);
    assert(first.payload.len() <= MAX_ELEMENT_LEN);
    assert(input =~= first.wire() + (elements_wire(others) + trailer));
    assert(input[0] == first.id);
    assert(input[1] == first.payload.len());
    assert(input.subrange(2, 2 + input[1]) =~= first.payload);
    let rest = input.skip(2 + input[1]);
    assert(rest =~= elements_wire(others) + trailer);
    let read = Element { id: input[0], payload: input.subrange(2, 2 + input[1]) };
    assert(read == first);
    if others.len() == 0 {
        assert(rest =~= trailer);
        assert(seq![read] =~= elements);
    } else {
        assert(others.last() == elements.last());
        assert(elements_fit(others)) by {
            assert forall|i: int| 0 <= i < others.len() implies (#[trigger] others[i]).payload.len()
                <= MAX_ELEMENT_LEN by {
                assert(others[i] == elements[i + 1]);
            }
        }
        lemma_parse_elements_of_wire(others, trailer);
    }
}

/// The station info that its own elements stand for is the station info,
/// where its SSID holds no NUL and none of its fields has the id of the SSID
/// or of the rates.
pub proof fn lemma_of_own_elements(info: StationInfoView)
    requires
        info.ssid matches Some(ssid) ==> has_no_nul(ssid),
        fields_have_own_ids(info.data),
    ensures
        StationInfoView::of_elements(info.elements()) == info,
{
    lemma_of_first_elements(info, info.data.len() as int);
    assert(info.data.take(info.data.len() as int) =~= info.data);
    let lead = info.ssid_elements() + info.rates_elements();
    assert(info.elements().take((lead.len() + info.data.len()) as int) =~= info.elements());
}

/// [`lemma_of_own_elements`] for the SSID, the rates and the first `count`
/// fields.
proof fn lemma_of_first_elements(info: StationInfoView, count: int)
    requires
        0 <= count <= info.data.len(),
        info.ssid matches Some(ssid) ==> has_no_nul(ssid),
        fields_have_own_ids(info.data),
    ensures
        StationInfoView::of_elements(
            info.elements().take((info.ssid_elements() + info.rates_elements()).len() + count),
        ) == (StationInfoView { data: info.data.take(count), ..info }),
    decreases count,
{
    let lead = info.ssid_elements() + info.rates_elements();
    let elements = info.elements();
    let so_far = elements.take(lead.len() + count);
    let expected = StationInfoView { data: info.data.take(count), ..info };
    if count == 0 {
        assert(so_far =~= lead);
        assert(expected.data =~= Seq::empty());
        lemma_of_lead(info);
    } else {
        lemma_of_first_elements(info, count - 1);
        let before = StationInfoView { data: info.data.take(count - 1), ..info };
        let field = info.data[count - 1];
        let element = elements[lead.len() + count - 1];
        assert(element == info.data_elements()[count - 1]);
        assert(so_far.drop_last() =~= elements.take(lead.len() + count - 1));
        assert(so_far.last() == element);
        lemma_info_id_inverse(field.0, element.id);
        assert(before.with_element(element).data =~= expected.data);
    }
}

/// [`lemma_of_own_elements`] for the SSID and the rates.
proof fn lemma_of_lead(info: StationInfoView)
    requires
        info.ssid matches Some(ssid) ==> has_no_nul(ssid),
    ensures
        StationInfoView::of_elements(info.ssid_elements() + info.rates_elements())
            == (StationInfoView { data: Seq::empty(), ..info }),
{
    let lead = info.ssid_elements() + info.rates_elements();
    let expected = StationInfoView { data: Seq::empty(), ..info };
    reveal_with_fuel(StationInfoView::of_elements, 3);
    if info.ssid is Some {
        lemma_ssid_reads_back(info.ssid->Some_0);
    }
    if info.supported_rates.len() > 0 {
        assert(rates_of_octets(octets_of_rates(info.supported_rates)) =~= info.supported_rates);
    } else {
        assert(info.supported_rates =~= Seq::empty());
    }
    if lead.len() == 1 {
        assert(lead.drop_last() =~= Seq::<Element>::empty());
    } else if lead.len() == 2 {
        assert(lead.drop_last() =~= seq![lead[0]]);
        assert(lead.drop_last().drop_last() =~= Seq::<Element>::empty());
    }
    assert(StationInfoView::of_elements(lead).supported_rates =~= expected.supported_rates);
}

/// The octets of a text without NUL are read as that text.
pub proof fn lemma_ssid_reads_back(ssid: Seq<char>)
    requires
        has_no_nul(ssid),
    ensures
        ssid_text(encode_utf8(ssid)) == ssid,
{
    encode_utf8_valid_utf8(ssid);
    encode_utf8_decode_utf8(ssid);
    assert(without_nul(ssid) =~= ssid);
}

/// A station info that [`StationInfoView::reads_back`] reads back: its
/// elements can be written, and what is written, followed by the trailer, is
/// read as the same elements, which stand for the same station info, with
/// the trailer left.
pub proof fn lemma_station_info_round_trip(info: StationInfoView, trailer: Seq<u8>)
    requires
        info.reads_back(trailer.len()),
    ensures
        info.wire() matches Ok(octets) && parse_elements(octets + trailer) == Ok::<_, Seq<u8>>(
            (info.elements(), trailer),
        ),
        StationInfoView::of_elements(info.elements()) == info,
{
    lemma_parse_elements_of_wire(info.elements(), trailer);
    lemma_of_own_elements(info);
}

/// The octets of a text without NUL that is read from them are those
/// octets.
pub proof fn lemma_ssid_writes_back(payload: Seq<u8>)
    requires
        valid_utf8(payload),
        has_no_nul(decode_utf8(payload)),
    ensures
        encode_utf8(ssid_text(payload)) == payload,
        has_no_nul(ssid_text(payload)),
{
    decode_utf8_encode_utf8(payload);
    assert(without_nul(decode_utf8(payload)) =~= decode_utf8(payload));
}

/// The elements of the station info that a run of elements in writing
/// order stands for are that run.
pub proof fn lemma_elements_of_read(elements: Seq<Element>)
    requires
        in_writing_order(elements),
    ensures
        StationInfoView::of_elements(elements).elements() == elements,
{
    lemma_elements_of_first_read(elements, elements.len() as int);
    assert(elements.take(elements.len() as int) =~= elements);
}

/// [`lemma_elements_of_read`] for the first `count` elements.
proof fn lemma_elements_of_first_read(elements: Seq<Element>, count: int)
    requires
        in_writing_order(elements),
        0 <= count <= elements.len(),
    ensures
        StationInfoView::of_elements(elements.take(count)).elements() == elements.take(count),
    decreases count,
{
    let so_far = elements.take(count);
    let info = StationInfoView::of_elements(so_far);
    if count == 0 {
        assert(info.elements() =~= so_far);
    } else {
        lemma_elements_of_first_read(elements, count - 1);
        let before = StationInfoView::of_elements(elements.take(count - 1));
        let element = elements[count - 1];
        assert(so_far.drop_last() =~= elements.take(count - 1));
        assert(so_far.last() == element);
        assert(info == before.with_element(element));
        let id = ManagementInfoId::from_wire_value(element.id)->Some_0;
        lemma_info_id_inverse(id, element.id);
        if element.id == 0 {
            assert(elements.take(0) =~= Seq::<Element>::empty());
            lemma_ssid_writes_back(element.payload);
            assert(info.elements() =~= so_far);
        } else if element.id == 1 {
            assert(octets_of_rates(rates_of_octets(element.payload)) =~= element.payload);
            if count == 1 {
                assert(elements.take(0) =~= Seq::<Element>::empty());
                assert(info.elements() =~= so_far);
            } else {
                reveal_with_fuel(StationInfoView::of_elements, 3);
                let first = elements[0];
                assert(elements.take(1).drop_last() =~= Seq::<Element>::empty());
                assert(elements.take(1).last() == first);
                assert(info.elements() =~= so_far);
            }
        } else {
            assert(info.data_elements() =~= before.data_elements().push(element));
            assert(info.elements() =~= before.elements().push(element));
            assert(info.elements() =~= so_far);
        }
    }
}

/// What is read writes back: where the elements that are read from `input`
/// stand in writing order, the station info that they stand for has them as
/// its elements, and its octets are the input without the trailer.
pub proof fn lemma_station_info_read_back(input: Seq<u8>)
    requires
        parse_elements(input) matches Ok((elements, _)) && in_writing_order(elements),
    ensures
        ({
            let (elements, trailer) = parse_elements(input)->Ok_0;
            let info = StationInfoView::of_elements(elements);
            &&& info.elements() == elements
            &&& info.wire() == Ok::<_, SerializationError>(
                input.take(input.len() - trailer.len()),
            )
            &&& info.wire()->Ok_0 + trailer == input
        }),
{
    let (elements, trailer) = parse_elements(input)->Ok_0;
    lemma_elements_cover_input(input);
    lemma_elements_of_read(elements);
    lemma_elements_wire_len(elements);
    assert(input.take(input.len() - trailer.len()) =~= elements_wire(elements));
}

/// A management header that is written and read is the same header
/// exactly if it is well formed.
pub proof fn lemma_management_header_round_trip(header: ManagementHeader)
    ensures
        header.well_formed() <==> (header.wire() matches Ok(octets)
            && ManagementHeader::from_wire(
                FrameControl::from_wire(octets[0], octets[1]),
                octets.skip(2),
            ) == header),
        header.wire() matches Ok(octets) ==> octets.len() == 24,
{
    lemma_tables_inverse(header.frame_control.frame_type, header.frame_control.frame_subtype);
    lemma_frame_control_round_trip(header.frame_control);
    lemma_sequence_control_round_trip(header.sequence_control);
    if header.wire() is Ok {
        let octets = header.wire()->Ok_0;
        let body = octets.skip(2);
        assert(body =~= header.body_wire());
        let read = ManagementHeader::from_wire(
            FrameControl::from_wire(octets[0], octets[1]),
            body,
        );
        assert(read.duration =~= header.duration);
        assert(read.address_1.0 =~= header.address_1.0);
        assert(read.address_2.0 =~= header.address_2.0);
        assert(read.address_3.0 =~= header.address_3.0);
    }
}

/// The 22 octets from which a management header is read are the octets
/// that follow the frame control when it is written.
pub proof fn lemma_management_header_read_back(frame_control: FrameControl, body: Seq<u8>)
    requires
        body.len() == 22,
    ensures
        ManagementHeader::from_wire(frame_control, body).body_wire() == body,
        ManagementHeader::from_wire(frame_control, body).sequence_control.well_formed(),
{
    let header = ManagementHeader::from_wire(frame_control, body);
    lemma_sequence_control_read_back(body[20], body[21]);
    assert(header.body_wire() =~= body);
}

/// A data header that is written and read is the same header exactly if it
/// is well formed.
pub proof fn lemma_data_header_round_trip(header: DataHeader)
    ensures
        header.well_formed() <==> (header.wire() matches Ok(octets) && DataHeader::from_wire(
            FrameControl::from_wire(octets[0], octets[1]),
            octets.skip(2),
        ) == header),
        header.well_formed() ==> (header.wire() matches Ok(octets) && octets.len() == 2
            + DataHeader::body_len(header.frame_control)),
{
    lemma_tables_inverse(header.frame_control.frame_type, header.frame_control.frame_subtype);
    lemma_frame_control_round_trip(header.frame_control);
    lemma_sequence_control_round_trip(header.sequence_control);
    if header.wire() is Ok {
        let octets = header.wire()->Ok_0;
        let body = octets.skip(2);
        assert(body =~= header.body_wire());
        let read = DataHeader::from_wire(FrameControl::from_wire(octets[0], octets[1]), body);
        assert(read.duration =~= header.duration);
        assert(read.address_1.0 =~= header.address_1.0);
        assert(read.address_2.0 =~= header.address_2.0);
        assert(read.address_3.0 =~= header.address_3.0);
        if header.well_formed() {
            if header.address_4 is Some {
                assert(read.address_4->Some_0.0 =~= header.address_4->Some_0.0);
            }
            if header.qos is Some {
                assert(read.qos->Some_0 =~= header.qos->Some_0);
            }
        }
    }
}

/// The octets from which a data header is read are the octets that follow
/// the frame control when it is written, and the header is well formed if
/// its frame control is.
pub proof fn lemma_data_header_read_back(frame_control: FrameControl, body: Seq<u8>)
    requires
        body.len() == DataHeader::body_len(frame_control),
    ensures
        DataHeader::from_wire(frame_control, body).body_wire() == body,
        frame_control.well_formed() ==> DataHeader::from_wire(frame_control, body).well_formed(),
{
    let header = DataHeader::from_wire(frame_control, body);
    lemma_sequence_control_read_back(body[20], body[21]);
    assert(header.body_wire() =~= body);
}

/// What it means that a beacon was read from `input`: the first two octets
/// are its frame control and say that it is a beacon, the 34 octets behind
/// them are the rest of its header and its fixed fields, and its station
/// info is what the elements behind those stand for.
pub proof fn lemma_beacon_was_read(input: Seq<u8>)
    requires
        FrameView::from_wire(input) matches Ok((_, FrameView::Beacon(_))),
    ensures
        ({
            let (rest, frame) = FrameView::from_wire(input)->Ok_0;
            let beacon = frame->Beacon_0;
            let frame_control = FrameControl::from_wire(input[0], input[1]);
            &&& input.len() >= 36
            &&& frame_control.frame_subtype == FrameSubType::Beacon
            &&& beacon.header == ManagementHeader::from_wire(frame_control, input.subrange(2, 24))
            &&& beacon.timestamp == le_value(input.subrange(24, 32))
            &&& beacon.beacon_interval == le_value(input.subrange(32, 34))
            &&& beacon.capability_info.0 == le_value(input.subrange(34, 36))
            &&& parse_elements(input.skip(36)) matches Ok((elements, trailer))
            &&& trailer == rest
            &&& beacon.station_info == StationInfoView::of_elements(elements)
        }),
{
    let body = input.skip(2);
    assert(body.take(22) =~= input.subrange(2, 24));
    assert(body.subrange(22, 30) =~= input.subrange(24, 32));
    assert(body.subrange(30, 32) =~= input.subrange(32, 34));
    assert(body.subrange(32, 34) =~= input.subrange(34, 36));
    assert(body.skip(34) =~= input.skip(36));
    lemma_le_value_bound(input.subrange(24, 32));
    lemma_le_value_bound(input.subrange(32, 34));
    lemma_le_value_bound(input.subrange(34, 36));
    lemma_radix_values();
}

/// A beacon that is written, followed by a short trailer and read is the
/// same beacon, and the trailer is left. This holds where its header is well
/// formed, its subtype says that it is a beacon, and its station info reads
/// back.
pub proof fn lemma_beacon_round_trip(beacon: BeaconView, trailer: Seq<u8>)
    requires
        beacon.header.well_formed(),
        beacon.header.frame_control.frame_subtype == FrameSubType::Beacon,
        beacon.station_info.reads_back(trailer.len()),
    ensures
        beacon.wire() matches Ok(octets) && FrameView::from_wire(octets + trailer) == Ok::<
            _,
            ErrorView,
        >((trailer, FrameView::Beacon(beacon))),
{
    let header = beacon.header;
    lemma_management_header_round_trip(header);
    lemma_station_info_round_trip(beacon.station_info, trailer);
    let input = beacon.wire()->Ok_0 + trailer;
    let body = input.skip(2);
    let frame_control = FrameControl::from_wire(input[0], input[1]);
    lemma_written_beacon_fields(beacon, trailer);
    lemma_radix_values();
    lemma_le_value_of_bytes(beacon.timestamp as nat, 8);
    lemma_le_value_of_bytes(beacon.beacon_interval as nat, 2);
    lemma_le_value_of_bytes(beacon.capability_info.0 as nat, 2);
    assert(frame_control == header.frame_control);
    assert(BeaconView::from_wire(frame_control, body) == Ok::<_, ParseErrorView>(
        (trailer, beacon),
    ));
}

/// Where the fields of a written beacon lie behind the two octets of its
/// frame control, when `trailer` follows it.
proof fn lemma_written_beacon_fields(beacon: BeaconView, trailer: Seq<u8>)
    requires
        beacon.wire() is Ok,
    ensures
        ({
            let octets = beacon.wire()->Ok_0;
            let input = octets + trailer;
            let body = input.skip(2);
            &&& input.len() >= 36
            &&& input[0] == beacon.header.wire()->Ok_0[0]
            &&& input[1] == beacon.header.wire()->Ok_0[1]
            &&& body.take(22) == beacon.header.wire()->Ok_0.skip(2)
            &&& body.subrange(22, 30) == le_bytes(beacon.timestamp as nat, 8)
            &&& body.subrange(30, 32) == le_bytes(beacon.beacon_interval as nat, 2)
            &&& body.subrange(32, 34) == le_bytes(beacon.capability_info.0 as nat, 2)
            &&& body.skip(34) == beacon.station_info.wire()->Ok_0 + trailer
        }),
{
    let octets = beacon.wire()->Ok_0;
    let input = octets + trailer;
    let body = input.skip(2);
    lemma_beacon_wire_layout(beacon);
    assert(body.take(22) =~= octets.take(24).skip(2));
    assert(body.subrange(22, 30) =~= octets.subrange(24, 32));
    assert(body.subrange(30, 32) =~= octets.subrange(32, 34));
    assert(body.subrange(32, 34) =~= octets.subrange(34, 36));
    assert(body.skip(34) =~= octets.skip(36) + trailer);
    assert(input[0] == octets.take(24)[0]);
    assert(input[1] == octets.take(24)[1]);
}

/// A beacon that is read writes back as the octets from which it was read,
/// without the trailer that reading left. This holds where its elements
/// stand in writing order.
pub proof fn lemma_beacon_read_back(input: Seq<u8>)
    requires
        FrameView::from_wire(input) matches Ok((_, FrameView::Beacon(_))),
        parse_elements(input.skip(36)) matches Ok((elements, _)) && in_writing_order(elements),
    ensures
        ({
            let (rest, frame) = FrameView::from_wire(input)->Ok_0;
            let beacon = frame->Beacon_0;
            &&& beacon.wire() == Ok::<_, SerializationError>(input.take(input.len() - rest.len()))
            &&& beacon.wire()->Ok_0 + rest == input
        }),
{
    let (rest, frame) = FrameView::from_wire(input)->Ok_0;
    let beacon = frame->Beacon_0;
    let frame_control = FrameControl::from_wire(input[0], input[1]);
    lemma_beacon_was_read(input);
    lemma_frame_control_read_back(input[0], input[1]);
    lemma_management_header_read_back(frame_control, input.subrange(2, 24));
    lemma_le_bytes_of_value(input.subrange(24, 32));
    lemma_le_bytes_of_value(input.subrange(32, 34));
    lemma_le_bytes_of_value(input.subrange(34, 36));
    lemma_station_info_read_back(input.skip(36));
    let elements = beacon.station_info.wire()->Ok_0;
    assert(beacon.header.wire()->Ok_0 =~= input.take(24));
    assert(beacon.fixed_wire() =~= input.subrange(24, 36));
    assert(elements + rest == input.skip(36));
    assert(input.take(24) + input.subrange(24, 36) + (elements + rest) =~= input);
    assert(input.take(24) + input.subrange(24, 36) + elements + rest =~= input);
    assert(beacon.wire()->Ok_0 =~= input.take(input.len() - rest.len()));
}

/// Runs of elements with the same octets are the same run, where each
/// element fits its length octet.
pub proof fn lemma_elements_wire_injective(left: Seq<Element>, right: Seq<Element>)
    requires
        elements_fit(left),
        elements_fit(right),
        elements_wire(left) == elements_wire(right),
    ensures
        left == right,
    decreases left.len(),
{
    lemma_elements_wire_len(left);
    lemma_elements_wire_len(right);
    if left.len() == 0 || right.len() == 0 {
        if left.len() > 0 {
            lemma_elements_wire_front(left[0], left.skip(1));
            assert(left =~= seq![left[0]] + left.skip(1));
        }
        if right.len() > 0 {
            lemma_elements_wire_front(right[0], right.skip(1));
            assert(right =~= seq![right[0]] + right.skip(1));
        }
        assert(left =~= right);
    } else {
        let (first, others) = (left[0], left.skip(1));
        let (other_first, other_others) = (right[0], right.skip(1));
        assert(left =~= seq![first] + others);
        assert(right =~= seq![other_first] + other_others);
        lemma_elements_wire_front(first, others);
        lemma_elements_wire_front(other_first, other_others);
        let octets = elements_wire(left);
        assert(octets[0] == first.id && octets[0] == other_first.id);
        assert(octets[1] == first.payload.len() && octets[1] == other_first.payload.len());
        let len = first.payload.len() as int;
        assert(first.payload =~= octets.subrange(2, 2 + len));
        assert(other_first.payload =~= octets.subrange(2, 2 + len));
        assert(elements_wire(others) =~= octets.skip(2 + len));
        assert(elements_wire(other_others) =~= octets.skip(2 + len));
        assert(elements_fit(others)) by {
            assert forall|i: int| 0 <= i < others.len() implies (#[trigger] others[i]).payload.len()
                <= MAX_ELEMENT_LEN by {
                assert(others[i] == left[i + 1]);
            }
        }
        assert(elements_fit(other_others)) by {
            assert forall|i: int| 0 <= i < other_others.len() implies
                (#[trigger] other_others[i]).payload.len() <= MAX_ELEMENT_LEN by {
                assert(other_others[i] == right[i + 1]);
            }
        }
        lemma_elements_wire_injective(others, other_others);
    }
}

/// The last of several elements that are read makes more than four octets
/// with the trailer: else reading would have stopped before it.
pub proof fn lemma_last_element_is_long(input: Seq<u8>)
    requires
        parse_elements(input) is Ok,
    ensures
        ({
            let (elements, trailer) = parse_elements(input)->Ok_0;
            elements.len() >= 2 ==> 2 + elements.last().payload.len() + trailer.len()
                > MAX_TRAILER_LEN
        }),
    decreases input.len(),
{
    let rest = input.skip(2 + input[1]);
    if rest.len() > MAX_TRAILER_LEN {
        let (others, trailer) = parse_elements(rest)->Ok_0;
        lemma_last_element_is_long(rest);
        lemma_elements_cover_input(rest);
        if others.len() == 1 {
            lemma_elements_wire_front(others[0], Seq::empty());
            assert(seq![others[0]] + Seq::<Element>::empty() =~= others);
            assert(elements_wire(Seq::<Element>::empty()) =~= Seq::<u8>::empty());
        }
    }
}

/// Whether no field has the id of the SSID or of the rates.
pub open spec fn fields_have_own_ids(data: Seq<(ManagementInfoId, Seq<u8>)>) -> bool {
    forall|i: int|
        0 <= i < data.len() ==> (#[trigger] data[i]).0 != ManagementInfoId::SSID && data[i].0
            != ManagementInfoId::SupportedRates
}

/// What is read holds no NUL in its SSID and no field with the id of the
/// SSID or of the rates.
pub proof fn lemma_read_station_info(elements: Seq<Element>)
    ensures
        StationInfoView::of_elements(elements).ssid matches Some(ssid) ==> has_no_nul(ssid),
        fields_have_own_ids(StationInfoView::of_elements(elements).data),
    decreases elements.len(),
{
    if elements.len() > 0 {
        lemma_read_station_info(elements.drop_last());
    }
}

/// A station info whose elements stand for it holds no NUL in its SSID and
/// no field with the id of the SSID or of the rates.
pub proof fn lemma_of_own_elements_only_if(info: StationInfoView)
    requires
        StationInfoView::of_elements(info.elements()) == info,
    ensures
        info.ssid matches Some(ssid) ==> has_no_nul(ssid),
        fields_have_own_ids(info.data),
{
    lemma_read_station_info(info.elements());
}

/// The conditions of [`lemma_station_info_round_trip`] are met by every
/// station info that reads back.
pub proof fn lemma_station_info_round_trip_only_if(info: StationInfoView, trailer: Seq<u8>)
    requires
        info.wire() matches Ok(octets) && parse_elements(octets + trailer) matches Ok(
            (elements, left),
        ) && left == trailer && StationInfoView::of_elements(elements) == info,
    ensures
        info.reads_back(trailer.len()),
{
    let octets = info.wire()->Ok_0;
    let input = octets + trailer;
    let (elements, left) = parse_elements(input)->Ok_0;
    lemma_elements_cover_input(input);
    lemma_last_element_is_long(input);
    lemma_elements_wire_len(elements);
    lemma_elements_wire_len(info.elements());
    assert(elements_wire(elements) =~= input.take(input.len() - trailer.len()));
    assert(octets =~= input.take(input.len() - trailer.len()));
    lemma_elements_wire_injective(elements, info.elements());
    lemma_of_own_elements_only_if(info);
}

/// The elements of what is read stand in writing order.
pub proof fn lemma_elements_of_read_in_writing_order(elements: Seq<Element>)
    ensures
        in_writing_order(StationInfoView::of_elements(elements).elements()),
{
    let info = StationInfoView::of_elements(elements);
    let own = info.elements();
    let lead = info.ssid_elements() + info.rates_elements();
    lemma_read_station_info(elements);
    if info.ssid is Some {
        encode_utf8_valid_utf8(info.ssid->Some_0);
        encode_utf8_decode_utf8(info.ssid->Some_0);
    }
    assert forall|i: int| 0 <= i < own.len() implies ManagementInfoId::from_wire_value(
        (#[trigger] own[i]).id,
    ) is Some && (own[i].id == 0 ==> i == 0 && valid_utf8(own[i].payload) && has_no_nul(
        decode_utf8(own[i].payload),
    )) && (own[i].id == 1 ==> own[i].payload.len() > 0 && (i == 0 || (i == 1 && own[0].id
        == 0))) by {
        if i >= lead.len() {
            let field = info.data[i - lead.len()];
            assert(own[i] == info.data_elements()[i - lead.len()]);
            lemma_info_id_inverse(field.0, own[i].id);
            lemma_info_id_inverse(ManagementInfoId::SSID, own[i].id);
            lemma_info_id_inverse(ManagementInfoId::SupportedRates, own[i].id);
        }
    }
}

/// The condition of [`lemma_station_info_read_back`] is met by every input
/// that writes back.
pub proof fn lemma_station_info_read_back_only_if(input: Seq<u8>)
    requires
        parse_elements(input) matches Ok((elements, trailer)) && StationInfoView::of_elements(
            elements,
        ).wire() == Ok::<_, SerializationError>(input.take(input.len() - trailer.len())),
    ensures
        in_writing_order(parse_elements(input)->Ok_0.0),
{
    let (elements, trailer) = parse_elements(input)->Ok_0;
    let info = StationInfoView::of_elements(elements);
    lemma_elements_cover_input(input);
    lemma_elements_wire_len(elements);
    assert(elements_wire(elements) =~= input.take(input.len() - trailer.len()));
    lemma_elements_wire_injective(info.elements(), elements);
    lemma_elements_of_read_in_writing_order(elements);
}

/// The conditions of [`lemma_beacon_round_trip`] are met by every beacon
/// that reads back.
pub proof fn lemma_beacon_round_trip_only_if(beacon: BeaconView, trailer: Seq<u8>)
    requires
        beacon.wire() matches Ok(octets) && FrameView::from_wire(octets + trailer) == Ok::<
            _,
            ErrorView,
        >((trailer, FrameView::Beacon(beacon))),
    ensures
        beacon.header.well_formed(),
        beacon.header.frame_control.frame_subtype == FrameSubType::Beacon,
        beacon.station_info.reads_back(trailer.len()),
{
    let octets = beacon.wire()->Ok_0;
    let input = octets + trailer;
    lemma_beacon_wire_layout(beacon);
    lemma_beacon_was_read(input);
    assert(beacon.header.well_formed()) by {
        lemma_frame_control_read_back(input[0], input[1]);
        lemma_sequence_control_read_back(input.subrange(2, 24)[20], input.subrange(2, 24)[21]);
    }
    assert(input.skip(36) =~= beacon.station_info.wire()->Ok_0 + trailer) by {
        assert(input.skip(36) =~= octets.skip(36) + trailer);
    }
    lemma_station_info_round_trip_only_if(beacon.station_info, trailer);
}

/// The condition of [`lemma_beacon_read_back`] is met by every beacon
/// that writes back as the octets from which it was read.
pub proof fn lemma_beacon_read_back_only_if(input: Seq<u8>)
    requires
        FrameView::from_wire(input) matches Ok((rest, FrameView::Beacon(beacon)))
            && beacon.wire() == Ok::<_, SerializationError>(input.take(input.len() - rest.len())),
    ensures
        parse_elements(input.skip(36)) matches Ok((elements, _)) && in_writing_order(elements),
{
    let (rest, frame) = FrameView::from_wire(input)->Ok_0;
    let beacon = frame->Beacon_0;
    let elements = input.skip(36);
    lemma_beacon_was_read(input);
    lemma_beacon_wire_layout(beacon);
    lemma_elements_cover_input(elements);
    assert(beacon.station_info.wire()->Ok_0 =~= elements.take(elements.len() - rest.len())) by {
        let written = beacon.wire()->Ok_0;
        assert(written == input.take(input.len() - rest.len()));
        assert(written.len() == input.len() - rest.len());
        assert(written.skip(36) =~= elements.take(elements.len() - rest.len()));
    }
    lemma_station_info_read_back_only_if(elements);
}

} // verus!
