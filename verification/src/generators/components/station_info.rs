use crate::bytes::{lemma_splice_twice, splice, write_bytes};
use crate::frame::components::station_info::{
    elements_fit, elements_wire, octets_of_rates, Element, MAX_ELEMENT_LEN,
};
use crate::frame::components::{ManagementInfoId, StationInfo, SupportedRate};
use crate::generators::{
    check_room, generated, GenCursor, GenError, GenResult, SerializationError,
};
use vstd::prelude::*;
use vstd::utf8::encode_utf8;

verus! {

/// Writes the information elements of a management frame: the SSID where
/// there is one, the rates where there are any, then every field of `data`
/// in its own order.
pub fn gen_station_info<'a>(cursor: GenCursor<'a>, station_info: &StationInfo) -> (r: GenResult<
    'a,
>)
    ensures
        match r {
            Ok((buf, end)) => {
                &&& generated(old(cursor.0)@, cursor.1, station_info@.wire()) == Ok::<_, GenError>(
                    (buf@, end),
                )
                &&& final(buf)@ == final(cursor.0)@
            },
            Err(e) => {
                &&& generated(old(cursor.0)@, cursor.1, station_info@.wire()) == Err::<
                    (Seq<u8>, usize),
                    _,
                >(e)
                &&& final(cursor.0)@ == old(cursor.0)@
            },
        },
{
    let len = match station_info_len(station_info) {
        Ok(len) => len,
        Err(e) => { return Err(GenError::CustomError(e)); },
    };
    let (buf, offset) = cursor;
    let end = match check_room(buf.len(), offset, len) {
        Ok(end) => end,
        Err(e) => { return Err(e); },
    };
    write_station_info(buf, offset, station_info);
    Ok((buf, end))
}

/// `len`, as far as a `usize` can hold it.
pub open spec fn within_usize(len: nat) -> Option<usize> {
    if len <= usize::MAX {
        Some(len as usize)
    } else {
        None
    }
}

/// The sum of two lengths, as far as a `usize` can hold it.
fn add_len(so_far: Option<usize>, more: usize) -> (sum: Option<usize>)
    ensures
        match so_far {
            Some(n) => sum == within_usize((n + more) as nat),
            None => sum is None,
        },
{
    match so_far {
        Some(n) => n.checked_add(more),
        None => None,
    }
}

/// The number of octets of an element with a payload of `payload_len`
/// octets, if its length octet can say that number.
fn gen_info_element_len(payload_len: usize) -> (len: Result<usize, SerializationError>)
    ensures
        match len {
            Ok(n) => payload_len <= MAX_ELEMENT_LEN && n == 2 + payload_len,
            Err(e) => payload_len > MAX_ELEMENT_LEN && e == SerializationError::MgmtElementTooLong,
        },
{
    if payload_len > MAX_ELEMENT_LEN {
        Err(SerializationError::MgmtElementTooLong)
    } else {
        Ok(2 + payload_len)
    }
}

/// The number of octets that the elements of `station_info` take on the
/// wire (`None` where a `usize` cannot hold it), or the reason for which
/// they cannot be written.
pub fn station_info_len(station_info: &StationInfo) -> (len: Result<
    Option<usize>,
    SerializationError,
>)
    ensures
        match station_info@.wire() {
            Ok(octets) => len == Ok::<_, SerializationError>(within_usize(octets.len())),
            Err(e) => len == Err::<Option<usize>, _>(e),
        },
{
    let ghost elements = station_info@.elements();
    let ghost lead = station_info@.ssid_elements() + station_info@.rates_elements();
    let mut total: Option<usize> = Some(0);
    match &station_info.ssid {
        Some(ssid) => {
            let ssid_len = ssid.as_str().as_bytes().len();
            match gen_info_element_len(ssid_len) {
                Ok(n) => {
                    total = add_len(total, n);
                },
                Err(e) => {
                    proof {
                        assert(elements[0].payload.len() > MAX_ELEMENT_LEN);
                    }
                    return Err(e);
                },
            }
        },
        None => {},
    }
    proof {
        lemma_lead_wire(station_info@.ssid_elements());
    }
    if station_info.supported_rates.len() > 0 {
        match gen_info_element_len(station_info.supported_rates.len()) {
            Ok(n) => {
                total = add_len(total, n);
            },
            Err(e) => {
                proof {
                    let at = station_info@.ssid_elements().len() as int;
                    assert(elements[at].payload.len() > MAX_ELEMENT_LEN);
                }
                return Err(e);
            },
        }
    }
    proof {
        lemma_lead_wire(lead);
        assert(elements.take(lead.len() as int) =~= lead);
    }
    let mut i: usize = 0;
    while i < station_info.data.len()
        invariant
            i <= station_info.data.len(),
            elements == station_info@.elements(),
            lead == station_info@.ssid_elements() + station_info@.rates_elements(),
            elements.len() == lead.len() + station_info.data.len(),
            elements_fit(elements.take(lead.len() + i)),
            total == within_usize(elements_wire(elements.take(lead.len() + i)).len()),
        decreases station_info.data.len() - i,
    {
        let ghost done = elements.take(lead.len() + i);
        let ghost next = elements[lead.len() + i];
        proof {
            assert(next == station_info@.data_elements()[i as int]);
            assert(next.payload == station_info.data@[i as int].1@);
            assert(elements.take(lead.len() + i + 1) =~= done.push(next));
            lemma_elements_wire_push(done, next);
        }
        match gen_info_element_len(station_info.data[i].1.len()) {
            Ok(n) => {
                total = add_len(total, n);
            },
            Err(e) => {
                return Err(e);
            },
        }
        i += 1;
    }
    proof {
        assert(elements.take(elements.len() as int) =~= elements);
    }
    Ok(total)
}

/// The octets of a run of elements with one more element are the octets of
/// the run and then those of the element.
pub proof fn lemma_elements_wire_push(elements: Seq<Element>, element: Element)
    ensures
        elements_wire(elements.push(element)) == elements_wire(elements) + element.wire(),
        element.wire().len() == 2 + element.payload.len(),
{
    assert(elements.push(element).drop_last() =~= elements);
}

/// The octets of a run of at most two elements, written out.
proof fn lemma_lead_wire(elements: Seq<Element>)
    requires
        elements.len() <= 2,
    ensures
        elements.len() == 0 ==> elements_wire(elements) == Seq::<u8>::empty(),
        elements.len() == 1 ==> elements_wire(elements) == elements[0].wire(),
        elements.len() == 2 ==> elements_wire(elements) == elements[0].wire() + elements[1].wire(),
{
    reveal_with_fuel(elements_wire, 3);
    if elements.len() == 1 {
        assert(elements_wire(elements) =~= elements[0].wire());
    } else if elements.len() == 2 {
        assert(elements.drop_last().drop_last() =~= Seq::<Element>::empty());
        assert(elements_wire(elements) =~= elements[0].wire() + elements[1].wire());
    }
}

/// The octets of the first elements of a run are no more than those of the
/// whole run.
pub proof fn lemma_elements_wire_grows(elements: Seq<Element>, count: int)
    requires
        0 <= count <= elements.len(),
    ensures
        elements_wire(elements.take(count)).len() <= elements_wire(elements).len(),
    decreases elements.len() - count,
{
    if count < elements.len() {
        assert(elements.take(count + 1) =~= elements.take(count).push(elements[count]));
        lemma_elements_wire_push(elements.take(count), elements[count]);
        lemma_elements_wire_grows(elements, count + 1);
    } else {
        assert(elements.take(count) =~= elements);
    }
}

/// Writes one element where there is room for it: id, length, payload.
fn gen_info_element(buf: &mut [u8], at: usize, id: u8, payload: &[u8]) -> (end: usize)
    requires
        payload.len() <= MAX_ELEMENT_LEN,
        at + 2 + payload.len() <= old(buf).len(),
    ensures
        end == at + 2 + payload.len(),
        final(buf)@ == splice(old(buf)@, at as int, (Element { id, payload: payload@ }).wire()),
{
    gen_info_element_hdr(buf, at, id, payload.len());
    write_bytes(buf, at + 2, payload);
    proof {
        lemma_splice_twice(old(buf)@, at as int, seq![id, payload.len() as u8], payload@);
    }
    at + 2 + payload.len()
}

/// Writes the id and the length of an element where there is room for
/// them.
fn gen_info_element_hdr(buf: &mut [u8], at: usize, id: u8, data_len: usize)
    requires
        data_len <= MAX_ELEMENT_LEN,
        at + 2 <= old(buf).len(),
    ensures
        final(buf)@ == splice(old(buf)@, at as int, seq![id, data_len as u8]),
{
    buf[at] = id;
    buf[at + 1] = data_len as u8;
    assert(buf@ =~= splice(old(buf)@, at as int, seq![id, data_len as u8]));
}

/// Writes the element of the SSID where there is room for it.
fn gen_ssid(buf: &mut [u8], at: usize, ssid: &String) -> (end: usize)
    requires
        encode_utf8(ssid@).len() <= MAX_ELEMENT_LEN,
        at + 2 + encode_utf8(ssid@).len() <= old(buf).len(),
    ensures
        end == at + 2 + encode_utf8(ssid@).len(),
        final(buf)@ == splice(
            old(buf)@,
            at as int,
            (Element { id: 0, payload: encode_utf8(ssid@) }).wire(),
        ),
{
    let ssid_utf8 = ssid.as_str().as_bytes();
    let id: u8 = ManagementInfoId::SSID.into();
    gen_info_element(buf, at, id, ssid_utf8)
}

/// Writes the element of the rates where there is room for it.
fn gen_supported_rates(buf: &mut [u8], at: usize, rates: &Vec<SupportedRate>) -> (end: usize)
    requires
        rates.len() <= MAX_ELEMENT_LEN,
        at + 2 + rates.len() <= old(buf).len(),
    ensures
        end == at + 2 + rates.len(),
        final(buf)@ == splice(
            old(buf)@,
            at as int,
            (Element { id: 1, payload: octets_of_rates(rates@) }).wire(),
        ),
{
    let id: u8 = ManagementInfoId::SupportedRates.into();
    gen_info_element_hdr(buf, at, id, rates.len());
    let ghost header = seq![1u8, rates.len() as u8];
    let ghost payload = octets_of_rates(rates@);
    let mut i: usize = 0;
    proof {
        assert(buf@ =~= splice(old(buf)@, at as int, header + payload.take(0)));
    }
    while i < rates.len()
        invariant
            i <= rates.len(),
            at + 2 + rates.len() <= buf.len(),
            buf@.len() == old(buf)@.len(),
            header.len() == 2,
            payload == octets_of_rates(rates@),
            buf@ == splice(old(buf)@, at as int, header + payload.take(i as int)),
        decreases rates.len() - i,
    {
        buf[at + 2 + i] = rates[i].0;
        i += 1;
        proof {
            assert(buf@ =~= splice(old(buf)@, at as int, header + payload.take(i as int)));
        }
    }
    proof {
        assert(payload.take(rates.len() as int) =~= payload);
    }
    at + 2 + rates.len()
}

/// Writes the elements of `station_info` where they can be written and
/// there is room for them.
pub(crate) fn write_station_info(buf: &mut [u8], at: usize, station_info: &StationInfo) -> (end:
    usize)
    requires
        station_info@.wire() is Ok,
        at + station_info@.wire()->Ok_0.len() <= old(buf).len(),
    ensures
        end == at + station_info@.wire()->Ok_0.len(),
        final(buf)@ == splice(old(buf)@, at as int, station_info@.wire()->Ok_0),
{
    let ghost elements = station_info@.elements();
    let ghost first = station_info@.ssid_elements();
    let ghost lead = station_info@.ssid_elements() + station_info@.rates_elements();
    let mut pos = at;
    proof {
        lemma_lead_wire(first);
        lemma_lead_wire(lead);
        assert(elements.take(first.len() as int) =~= first);
        assert(elements.take(lead.len() as int) =~= lead);
        lemma_elements_wire_grows(elements, first.len() as int);
        lemma_elements_wire_grows(elements, lead.len() as int);
        assert(buf@ =~= splice(old(buf)@, at as int, Seq::<u8>::empty()));
    }
    match &station_info.ssid {
        Some(ssid) => {
            assert(elements[0].payload.len() <= MAX_ELEMENT_LEN);
            pos = gen_ssid(buf, pos, ssid);
        },
        None => {},
    }
    assert(buf@ == splice(old(buf)@, at as int, elements_wire(first)));
    if station_info.supported_rates.len() > 0 {
        assert(elements[first.len() as int].payload.len() <= MAX_ELEMENT_LEN);
        pos = gen_supported_rates(buf, pos, &station_info.supported_rates);
        proof {
            lemma_splice_twice(
                old(buf)@,
                at as int,
                elements_wire(first),
                station_info@.rates_elements()[0].wire(),
            );
        }
    }
    assert(buf@ == splice(old(buf)@, at as int, elements_wire(lead)));
    let mut i: usize = 0;
    while i < station_info.data.len()
        invariant
            i <= station_info.data.len(),
            elements == station_info@.elements(),
            lead == station_info@.ssid_elements() + station_info@.rates_elements(),
            elements.len() == lead.len() + station_info.data.len(),
            elements_fit(elements),
            at + elements_wire(elements).len() <= buf.len(),
            buf@.len() == old(buf)@.len(),
            pos == at + elements_wire(elements.take(lead.len() + i)).len(),
            buf@ == splice(old(buf)@, at as int, elements_wire(elements.take(lead.len() + i))),
        decreases station_info.data.len() - i,
    {
        let ghost done = elements.take(lead.len() + i);
        let ghost next = elements[lead.len() + i];
        proof {
            assert(next == station_info@.data_elements()[i as int]);
            assert(next.payload == station_info.data@[i as int].1@);
            assert(elements.take(lead.len() + i + 1) =~= done.push(next));
            lemma_elements_wire_push(done, next);
            lemma_elements_wire_grows(elements, lead.len() + i + 1);
        }
        pos = gen_unparsed_field(buf, pos, &station_info.data[i]);
        proof {
            lemma_splice_twice(old(buf)@, at as int, elements_wire(done), next.wire());
        }
        i += 1;
    }
    proof {
        assert(elements.take(elements.len() as int) =~= elements);
    }
    pos
}

/// Writes one field of `data` where there is room for it.
fn gen_unparsed_field(buf: &mut [u8], at: usize, field: &(ManagementInfoId, Vec<u8>)) -> (end:
    usize)
    requires
        field.1.len() <= MAX_ELEMENT_LEN,
        at + 2 + field.1.len() <= old(buf).len(),
    ensures
        end == at + 2 + field.1.len(),
        final(buf)@ == splice(
            old(buf)@,
            at as int,
            (Element { id: field.0.wire_value(), payload: field.1@ }).wire(),
        ),
{
    let id: u8 = field.0.into();
    gen_info_element(buf, at, id, field.1.as_slice())
}

} // verus!
