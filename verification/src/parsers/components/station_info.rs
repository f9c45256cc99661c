use crate::error::{ParseError, ParseErrorView};
use crate::frame::components::station_info::{
    fields_view, parse_elements, rates_of_octets, utf8_lossy, without_nul, Element,
    StationInfoView, MAX_TRAILER_LEN,
};
use crate::frame::components::{ManagementInfoId, StationInfo, SupportedRate};
use vstd::prelude::*;
use vstd::slice::slice_to_vec;
use vstd::string::StringExecFns;
use vstd::utf8::{decode_utf8, valid_utf8};

verus! {

/// `String::from_utf8_lossy`, as an owned string.
///
/// Trusted: octets that are valid UTF-8 give the text that they encode, and
/// what other octets give depends on the octets alone.
#[verifier::external_body]
fn from_utf8_lossy(data: &[u8]) -> (text: String)
    ensures
        valid_utf8(data@) ==> text@ == decode_utf8(data@),
        !valid_utf8(data@) ==> text@ == utf8_lossy(data@),
{
    String::from_utf8_lossy(data).into_owned()
}

/// `str::replace`, with NUL as the pattern and one space to put in its
/// place.
///
/// Trusted: each NUL becomes a space, and nothing else changes.
#[verifier::external_body]
fn replace_nul(text: &str) -> (clean: String)
    ensures
        clean@ == without_nul(text@),
{
    text.replace('\0', " ")
}

/// What an element that breaks off is reported as.
pub open spec fn broken_element(left: Seq<u8>) -> ParseErrorView {
    ParseErrorView::Error("Eof"@, left)
}

/// `done`, and then what `more` found.
pub open spec fn after(
    done: Seq<Element>,
    more: Result<(Seq<Element>, Seq<u8>), Seq<u8>>,
) -> Result<(Seq<Element>, Seq<u8>), Seq<u8>> {
    match more {
        Ok((elements, trailer)) => Ok((done + elements, trailer)),
        Err(left) => Err(left),
    }
}

/// Reads the information elements of a management frame.
///
/// Each element is one octet of id, one octet of length and as many octets
/// of payload as the length says. One element is always read; after each,
/// reading goes on while more than four octets are left, so that a frame
/// check sequence behind the elements is not taken for one. The octets that
/// are left come back with the station info.
///
/// An SSID is read as text; a list of rates as one rate for each octet; an
/// element with another known id goes to `data` as it is, and one with an
/// id that has no name is passed over.
pub fn parse_station_info<'a>(input: &'a [u8]) -> (r: Result<(&'a [u8], StationInfo), ParseError>)
    ensures
        match r {
            Ok((rest, station_info)) => {
                &&& parse_elements(input@) matches Ok((elements, trailer))
                &&& rest@ == trailer
                &&& station_info@ == StationInfoView::of_elements(elements)
            },
            Err(e) => {
                &&& parse_elements(input@) matches Err(left)
                &&& e@ == broken_element(left)
            },
        },
{
    let mut station_info = StationInfo::default();
    let mut rest = input;
    let ghost mut done: Seq<Element> = Seq::empty();
    proof {
        assert(parse_elements(input@) == after(done, parse_elements(rest@))) by {
            match parse_elements(rest@) {
                Ok((elements, trailer)) => {
                    assert(done + elements =~= elements);
                },
                Err(_) => {},
            }
        }
    }
    loop
        invariant
            parse_elements(input@) == after(done, parse_elements(rest@)),
            station_info@ == StationInfoView::of_elements(done),
        decreases rest@.len(),
    {
        if rest.len() < 2 {
            return Err(ParseError::Error(String::from_str("Eof"), Vec::new()));
        }
        let element_id = rest[0];
        let length = rest[1] as usize;
        let behind_header = &rest[2..rest.len()];
        if behind_header.len() < length {
            return Err(ParseError::Error(String::from_str("Eof"), slice_to_vec(behind_header)));
        }
        let data = &behind_header[0..length];
        let ghost element = Element { id: element_id, payload: data@ };
        let ghost before = station_info@;
        let ghost here = rest@;
        proof {
            assert(data@ =~= here.subrange(2, 2 + here[1]));
        }
        rest = &behind_header[length..behind_header.len()];
        proof {
            assert(rest@ =~= here.skip(2 + here[1]));
        }
        match ManagementInfoId::try_from(element_id) {
            Ok(ManagementInfoId::SSID) => {
                let ssid = from_utf8_lossy(data);
                // Some access points pad the name with NUL.
                station_info.ssid = Some(replace_nul(ssid.as_str()));
            },
            Ok(ManagementInfoId::SupportedRates) => {
                station_info.supported_rates = rates_of(data);
            },
            Ok(id) => {
                let ghost fields = station_info.data@;
                station_info.data.push((id, slice_to_vec(data)));
                proof {
                    assert(fields_view(station_info.data@) =~= fields_view(fields).push(
                        (id, data@),
                    ));
                }
            },
            Err(_) => {},
        }
        proof {
            assert(station_info@ == before.with_element(element));
            assert(done.push(element).drop_last() =~= done);
            let ghost so_far = done;
            done = done.push(element);
            if here.skip(2 + here[1]).len() > MAX_TRAILER_LEN {
                match parse_elements(rest@) {
                    Ok((elements, trailer)) => {
                        assert(so_far + (seq![element] + elements) =~= done + elements);
                    },
                    Err(_) => {},
                }
            } else {
                assert(so_far + seq![element] =~= done);
            }
        }
        if rest.len() <= MAX_TRAILER_LEN {
            return Ok((rest, station_info));
        }
    }
}

/// One rate for each octet.
fn rates_of(data: &[u8]) -> (rates: Vec<SupportedRate>)
    ensures
        rates@ == rates_of_octets(data@),
{
    let mut rates: Vec<SupportedRate> = Vec::new();
    let mut i: usize = 0;
    while i < data.len()
        invariant
            i <= data.len(),
            rates@ == rates_of_octets(data@.take(i as int)),
        decreases data.len() - i,
    {
        rates.push(SupportedRate(data[i]));
        i += 1;
        proof {
            assert(rates@ =~= rates_of_octets(data@.take(i as int)));
        }
    }
    proof {
        assert(data@.take(data.len() as int) =~= data@);
    }
    rates
}

} // verus!
