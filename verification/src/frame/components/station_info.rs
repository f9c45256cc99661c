use crate::error::{Error, ErrorView};
use crate::generators::SerializationError;
use crate::text::{decimal, push_decimal};
use vstd::prelude::*;
use vstd::string::StringExecFns;
use vstd::utf8::{decode_utf8, encode_utf8, valid_utf8};

verus! {

/// The variable part of a management frame: a run of elements, each an id,
/// a length and as many octets as the length says.
///
/// The elements that this library understands have a field of their own.
/// All others are kept in `data` as they came.
#[derive(Clone, Debug, PartialEq, Eq)]
pub struct StationInfo {
    /// The transmission rates that the station supports. Empty where no
    /// rates were sent.
    pub supported_rates: Vec<SupportedRate>,
    /// The name of the network, where the sender gave one.
    pub ssid: Option<String>,
    /// The elements without a field of their own, in the order of the wire.
    /// An id may occur more than once.
    pub data: Vec<(ManagementInfoId, Vec<u8>)>,
}

/// One octet that stands for a transmission rate.
#[derive(Clone, Copy, Debug, PartialEq, Eq, Structural)]
pub struct SupportedRate(pub u8);

/// The ids of the information elements of management frames.
#[derive(Clone, Copy, Debug, PartialEq, Eq, Structural)]
pub enum ManagementInfoId {
    SSID,
    SupportedRates,
    FhParameterSet,
    DsParameterSet,
    CfParameterSet,
    TIM,
    IbssParamterSet,
    Country,
    HoppingPatternParams,
    HoppingPatternTable,
    Request,
    ObssLoadElement,
    ChallengeText,
    PowerConstraint,
    PowerCapability,
    TpcRequest,
    TpcReport,
    SupportedChannels,
    ChannelSwitch,
    MeasureRequest,
    MeasureReport,
    Quiet,
    IbssDfs,
    ErpInfo,
    HtCapability,
    RobustSecurityNetwork,
    ExtSupportedRates,
    HtInfo,
    RmEnabledCapability,
    BssOverlapParams,
    VendorSpecific,
    InfoIdExtension,
}

/// The number that was refused as the id of an information element.
#[derive(Clone, Copy, Debug, PartialEq, Eq, Structural)]
pub struct UnknownInfoId(pub u8);

impl ManagementInfoId {
    /// The octet that stands for this id on the wire.
    pub open spec fn wire_value(self) -> u8 {
        match self {
            ManagementInfoId::SSID => 0,
            ManagementInfoId::SupportedRates => 1,
            ManagementInfoId::FhParameterSet => 2,
            ManagementInfoId::DsParameterSet => 3,
            ManagementInfoId::CfParameterSet => 4,
            ManagementInfoId::TIM => 5,
            ManagementInfoId::IbssParamterSet => 6,
            ManagementInfoId::Country => 7,
            ManagementInfoId::HoppingPatternParams => 8,
            ManagementInfoId::HoppingPatternTable => 9,
            ManagementInfoId::Request => 10,
            ManagementInfoId::ObssLoadElement => 11,
            ManagementInfoId::ChallengeText => 16,
            ManagementInfoId::PowerConstraint => 32,
            ManagementInfoId::PowerCapability => 33,
            ManagementInfoId::TpcRequest => 34,
            ManagementInfoId::TpcReport => 35,
            ManagementInfoId::SupportedChannels => 36,
            ManagementInfoId::ChannelSwitch => 37,
            ManagementInfoId::MeasureRequest => 38,
            ManagementInfoId::MeasureReport => 39,
            ManagementInfoId::Quiet => 40,
            ManagementInfoId::IbssDfs => 41,
            ManagementInfoId::ErpInfo => 42,
            ManagementInfoId::HtCapability => 45,
            ManagementInfoId::RobustSecurityNetwork => 48,
            ManagementInfoId::ExtSupportedRates => 50,
            ManagementInfoId::HtInfo => 61,
            ManagementInfoId::RmEnabledCapability => 70,
            ManagementInfoId::BssOverlapParams => 74,
            ManagementInfoId::VendorSpecific => 221,
            ManagementInfoId::InfoIdExtension => 255,
        }
    }

    /// The id that an octet stands for, if it stands for one.
    pub open spec fn from_wire_value(octet: u8) -> Option<ManagementInfoId> {
        match octet {
            0 => Some(ManagementInfoId::SSID),
            1 => Some(ManagementInfoId::SupportedRates),
            2 => Some(ManagementInfoId::FhParameterSet),
            3 => Some(ManagementInfoId::DsParameterSet),
            4 => Some(ManagementInfoId::CfParameterSet),
            5 => Some(ManagementInfoId::TIM),
            6 => Some(ManagementInfoId::IbssParamterSet),
            7 => Some(ManagementInfoId::Country),
            8 => Some(ManagementInfoId::HoppingPatternParams),
            9 => Some(ManagementInfoId::HoppingPatternTable),
            10 => Some(ManagementInfoId::Request),
            11 => Some(ManagementInfoId::ObssLoadElement),
            16 => Some(ManagementInfoId::ChallengeText),
            32 => Some(ManagementInfoId::PowerConstraint),
            33 => Some(ManagementInfoId::PowerCapability),
            34 => Some(ManagementInfoId::TpcRequest),
            35 => Some(ManagementInfoId::TpcReport),
            36 => Some(ManagementInfoId::SupportedChannels),
            37 => Some(ManagementInfoId::ChannelSwitch),
            38 => Some(ManagementInfoId::MeasureRequest),
            39 => Some(ManagementInfoId::MeasureReport),
            40 => Some(ManagementInfoId::Quiet),
            41 => Some(ManagementInfoId::IbssDfs),
            42 => Some(ManagementInfoId::ErpInfo),
            45 => Some(ManagementInfoId::HtCapability),
            48 => Some(ManagementInfoId::RobustSecurityNetwork),
            50 => Some(ManagementInfoId::ExtSupportedRates),
            61 => Some(ManagementInfoId::HtInfo),
            70 => Some(ManagementInfoId::RmEnabledCapability),
            74 => Some(ManagementInfoId::BssOverlapParams),
            221 => Some(ManagementInfoId::VendorSpecific),
            255 => Some(ManagementInfoId::InfoIdExtension),
            _ => None,
        }
    }
}

/// An octet stands for an id exactly if it is the wire value of that id.
pub proof fn lemma_info_id_inverse(id: ManagementInfoId, octet: u8)
    ensures
        ManagementInfoId::from_wire_value(octet) == Some(id) <==> id.wire_value() == octet,
{
}

impl From<ManagementInfoId> for u8 {
    fn from(id: ManagementInfoId) -> (octet: u8)
        ensures
            octet == id.wire_value(),
    {
        match id {
            ManagementInfoId::SSID => 0,
            ManagementInfoId::SupportedRates => 1,
            ManagementInfoId::FhParameterSet => 2,
            ManagementInfoId::DsParameterSet => 3,
            ManagementInfoId::CfParameterSet => 4,
            ManagementInfoId::TIM => 5,
            ManagementInfoId::IbssParamterSet => 6,
            ManagementInfoId::Country => 7,
            ManagementInfoId::HoppingPatternParams => 8,
            ManagementInfoId::HoppingPatternTable => 9,
            ManagementInfoId::Request => 10,
            ManagementInfoId::ObssLoadElement => 11,
            ManagementInfoId::ChallengeText => 16,
            ManagementInfoId::PowerConstraint => 32,
            ManagementInfoId::PowerCapability => 33,
            ManagementInfoId::TpcRequest => 34,
            ManagementInfoId::TpcReport => 35,
            ManagementInfoId::SupportedChannels => 36,
            ManagementInfoId::ChannelSwitch => 37,
            ManagementInfoId::MeasureRequest => 38,
            ManagementInfoId::MeasureReport => 39,
            ManagementInfoId::Quiet => 40,
            ManagementInfoId::IbssDfs => 41,
            ManagementInfoId::ErpInfo => 42,
            ManagementInfoId::HtCapability => 45,
            ManagementInfoId::RobustSecurityNetwork => 48,
            ManagementInfoId::ExtSupportedRates => 50,
            ManagementInfoId::HtInfo => 61,
            ManagementInfoId::RmEnabledCapability => 70,
            ManagementInfoId::BssOverlapParams => 74,
            ManagementInfoId::VendorSpecific => 221,
            ManagementInfoId::InfoIdExtension => 255,
        }
    }
}

impl vstd::std_specs::convert::FromSpecImpl<ManagementInfoId> for u8 {
    open spec fn obeys_from_spec() -> bool {
        true
    }

    open spec fn from_spec(id: ManagementInfoId) -> u8 {
        id.wire_value()
    }
}

impl TryFrom<u8> for ManagementInfoId {
    type Error = UnknownInfoId;

    fn try_from(octet: u8) -> (id: Result<ManagementInfoId, UnknownInfoId>)
        ensures
            match id {
                Ok(id) => ManagementInfoId::from_wire_value(octet) == Some(id),
                Err(e) => ManagementInfoId::from_wire_value(octet) is None && e == UnknownInfoId(
                    octet,
                ),
            },
    {
        match octet {
            0 => Ok(ManagementInfoId::SSID),
            1 => Ok(ManagementInfoId::SupportedRates),
            2 => Ok(ManagementInfoId::FhParameterSet),
            3 => Ok(ManagementInfoId::DsParameterSet),
            4 => Ok(ManagementInfoId::CfParameterSet),
            5 => Ok(ManagementInfoId::TIM),
            6 => Ok(ManagementInfoId::IbssParamterSet),
            7 => Ok(ManagementInfoId::Country),
            8 => Ok(ManagementInfoId::HoppingPatternParams),
            9 => Ok(ManagementInfoId::HoppingPatternTable),
            10 => Ok(ManagementInfoId::Request),
            11 => Ok(ManagementInfoId::ObssLoadElement),
            16 => Ok(ManagementInfoId::ChallengeText),
            32 => Ok(ManagementInfoId::PowerConstraint),
            33 => Ok(ManagementInfoId::PowerCapability),
            34 => Ok(ManagementInfoId::TpcRequest),
            35 => Ok(ManagementInfoId::TpcReport),
            36 => Ok(ManagementInfoId::SupportedChannels),
            37 => Ok(ManagementInfoId::ChannelSwitch),
            38 => Ok(ManagementInfoId::MeasureRequest),
            39 => Ok(ManagementInfoId::MeasureReport),
            40 => Ok(ManagementInfoId::Quiet),
            41 => Ok(ManagementInfoId::IbssDfs),
            42 => Ok(ManagementInfoId::ErpInfo),
            45 => Ok(ManagementInfoId::HtCapability),
            48 => Ok(ManagementInfoId::RobustSecurityNetwork),
            50 => Ok(ManagementInfoId::ExtSupportedRates),
            61 => Ok(ManagementInfoId::HtInfo),
            70 => Ok(ManagementInfoId::RmEnabledCapability),
            74 => Ok(ManagementInfoId::BssOverlapParams),
            221 => Ok(ManagementInfoId::VendorSpecific),
            255 => Ok(ManagementInfoId::InfoIdExtension),
            _ => Err(UnknownInfoId(octet)),
        }
    }
}

impl vstd::std_specs::convert::TryFromSpecImpl<u8> for ManagementInfoId {
    open spec fn obeys_try_from_spec() -> bool {
        true
    }

    open spec fn try_from_spec(octet: u8) -> Result<ManagementInfoId, UnknownInfoId> {
        match ManagementInfoId::from_wire_value(octet) {
            Some(id) => Ok(id),
            None => Err(UnknownInfoId(octet)),
        }
    }
}

/// The rate in kbps that an octet stands for, if it stands for one.
pub open spec fn rate_kbps(octet: u8) -> Option<u32> {
    match octet {
        0x82 => Some(1000u32),
        0x84 => Some(2000u32),
        0x8b => Some(5500u32),
        0x0c => Some(6000u32),
        0x12 => Some(9000u32),
        0x96 => Some(11000u32),
        0x18 => Some(12000u32),
        0x24 => Some(18000u32),
        0x2c => Some(22000u32),
        0x30 => Some(24000u32),
        0x42 => Some(33000u32),
        0x48 => Some(36000u32),
        0x60 => Some(48000u32),
        0x6c => Some(54000u32),
        _ => None,
    }
}

/// The octet that stands for a rate in kbps, if one does.
pub open spec fn rate_octet(kbps: u32) -> Option<u8> {
    match kbps {
        1000 => Some(0x82u8),
        2000 => Some(0x84u8),
        5500 => Some(0x8bu8),
        6000 => Some(0x0cu8),
        9000 => Some(0x12u8),
        11000 => Some(0x96u8),
        12000 => Some(0x18u8),
        18000 => Some(0x24u8),
        22000 => Some(0x2cu8),
        24000 => Some(0x30u8),
        33000 => Some(0x42u8),
        36000 => Some(0x48u8),
        48000 => Some(0x60u8),
        54000 => Some(0x6cu8),
        _ => None,
    }
}

/// The two tables of rates are inverse to each other.
pub proof fn lemma_rate_tables_inverse(octet: u8, kbps: u32)
    ensures
        rate_kbps(octet) == Some(kbps) <==> rate_octet(kbps) == Some(octet),
{
}

/// What asking for the rate of `octet` gives.
pub open spec fn rate_of_octet(octet: u8) -> Result<u32, ErrorView> {
    match rate_kbps(octet) {
        Some(kbps) => Ok(kbps),
        None => Err(ErrorView::ParseFailure("Unknown supported rate value!"@, seq![octet])),
    }
}

/// What asking for the octet of a rate gives.
pub open spec fn octet_of_rate(kbps: u32) -> Result<SupportedRate, ErrorView> {
    match rate_octet(kbps) {
        Some(octet) => Ok(SupportedRate(octet)),
        None => Err(
            ErrorView::SerializeFailure(
                "Can't be an 802.11 supported rate: "@ + decimal(kbps as nat) + " kbps!"@,
            ),
        ),
    }
}

impl TryFrom<SupportedRate> for u32 {
    type Error = Error;

    /// Supported rate in kbps.
    fn try_from(value: SupportedRate) -> (kbps: Result<u32, Error>)
        ensures
            match kbps {
                Ok(kbps) => rate_of_octet(value.0) == Ok::<_, ErrorView>(kbps),
                Err(e) => rate_of_octet(value.0) == Err::<u32, _>(e@),
            },
    {
        match value.0 {
            0x82 => Ok(1000),
            0x84 => Ok(2000),
            0x8b => Ok(5500),
            0x0c => Ok(6000),
            0x12 => Ok(9000),
            0x96 => Ok(11000),
            0x18 => Ok(12000),
            0x24 => Ok(18000),
            0x2c => Ok(22000),
            0x30 => Ok(24000),
            0x42 => Ok(33000),
            0x48 => Ok(36000),
            0x60 => Ok(48000),
            0x6c => Ok(54000),
            _ => {
                let mut data = Vec::new();
                data.push(value.0);
                Err(Error::ParseFailure(String::from_str("Unknown supported rate value!"), data))
            },
        }
    }
}

impl vstd::std_specs::convert::TryFromSpecImpl<SupportedRate> for u32 {
    /// `try_from` is stated over the view of the error.
    open spec fn obeys_try_from_spec() -> bool {
        false
    }

    open spec fn try_from_spec(value: SupportedRate) -> Result<u32, Error> {
        arbitrary()
    }
}

impl TryFrom<u32> for SupportedRate {
    type Error = Error;

    /// The octet of a rate in kbps.
    fn try_from(value: u32) -> (rate: Result<SupportedRate, Error>)
        ensures
            match rate {
                Ok(rate) => octet_of_rate(value) == Ok::<_, ErrorView>(rate),
                Err(e) => octet_of_rate(value) == Err::<SupportedRate, _>(e@),
            },
    {
        let rate: Option<u8> = match value {
            1000 => Some(0x82),
            2000 => Some(0x84),
            5500 => Some(0x8b),
            6000 => Some(0x0c),
            9000 => Some(0x12),
            11000 => Some(0x96),
            12000 => Some(0x18),
            18000 => Some(0x24),
            22000 => Some(0x2c),
            24000 => Some(0x30),
            33000 => Some(0x42),
            36000 => Some(0x48),
            48000 => Some(0x60),
            54000 => Some(0x6c),
            _ => None,
        };
        match rate {
            Some(octet) => Ok(SupportedRate(octet)),
            None => {
                let mut text = String::from_str("Can't be an 802.11 supported rate: ");
                push_decimal(&mut text, value as u128);
                text.append(" kbps!");
                Err(Error::SerializeFailure(text))
            },
        }
    }
}

impl vstd::std_specs::convert::TryFromSpecImpl<u32> for SupportedRate {
    /// `try_from` is stated over the view of the error.
    open spec fn obeys_try_from_spec() -> bool {
        false
    }

    open spec fn try_from_spec(value: u32) -> Result<SupportedRate, Error> {
        arbitrary()
    }
}

impl Default for SupportedRate {
    fn default() -> (rate: SupportedRate)
        ensures
            rate == SupportedRate(0),
    {
        SupportedRate(0)
    }
}


/// A [`StationInfo`] as a value of specifications.
pub struct StationInfoView {
    pub supported_rates: Seq<SupportedRate>,
    pub ssid: Option<Seq<char>>,
    pub data: Seq<(ManagementInfoId, Seq<u8>)>,
}

impl View for StationInfo {
    type V = StationInfoView;

    open spec fn view(&self) -> StationInfoView {
        StationInfoView {
            supported_rates: self.supported_rates@,
            ssid: match self.ssid {
                Some(ssid) => Some(ssid@),
                None => None,
            },
            data: fields_view(self.data@),
        }
    }
}

/// The fields of `data` with their octets as values of specifications.
pub open spec fn fields_view(data: Seq<(ManagementInfoId, Vec<u8>)>) -> Seq<
    (ManagementInfoId, Seq<u8>),
> {
    data.map_values(|field: (ManagementInfoId, Vec<u8>)| (field.0, field.1@))
}

/// The rates that a run of octets stands for, one for each octet.
pub open spec fn rates_of_octets(octets: Seq<u8>) -> Seq<SupportedRate> {
    octets.map_values(|octet: u8| SupportedRate(octet))
}

/// The octets that stand for a list of rates, one for each rate.
pub open spec fn octets_of_rates(rates: Seq<SupportedRate>) -> Seq<u8> {
    rates.map_values(|rate: SupportedRate| rate.0)
}

impl Default for StationInfo {
    fn default() -> (info: StationInfo)
        ensures
            info@ == StationInfoView::empty(),
    {
        let info = StationInfo { supported_rates: Vec::new(), ssid: None, data: Vec::new() };
        assert(info@.data =~= Seq::empty());
        info
    }
}

/// One information element as the wire has it: an id, and the octets that
/// its length octet counts.
pub struct Element {
    pub id: u8,
    pub payload: Seq<u8>,
}

/// The most octets that one element can hold: its length is one octet.
pub const MAX_ELEMENT_LEN: usize = 255;

/// The most octets at the end of the elements that are taken for a trailer
/// and left alone.
pub const MAX_TRAILER_LEN: usize = 4;

impl Element {
    /// The octets of the element: id, length, payload.
    pub open spec fn wire(self) -> Seq<u8>
        recommends
            self.payload.len() <= MAX_ELEMENT_LEN,
    {
        seq![self.id, self.payload.len() as u8] + self.payload
    }
}

/// The octets of a run of elements, one after the other.
pub open spec fn elements_wire(elements: Seq<Element>) -> Seq<u8>
    decreases elements.len(),
{
    if elements.len() == 0 {
        Seq::empty()
    } else {
        elements_wire(elements.drop_last()) + elements.last().wire()
    }
}

/// Whether each element of a run is short enough for its length octet.
pub open spec fn elements_fit(elements: Seq<Element>) -> bool {
    forall|i: int|
        0 <= i < elements.len() ==> (#[trigger] elements[i]).payload.len() <= MAX_ELEMENT_LEN
}

/// The text that stands for the octets of an SSID element: the octets read
/// as UTF-8, as far as they are UTF-8, and then with a space in place of
/// each NUL.
pub open spec fn ssid_text(payload: Seq<u8>) -> Seq<char> {
    without_nul(text_of_octets(payload))
}

/// The text that is made of octets that may or may not be UTF-8. Octets
/// that are valid UTF-8 stand for the text that they encode.
pub open spec fn text_of_octets(octets: Seq<u8>) -> Seq<char> {
    if valid_utf8(octets) {
        decode_utf8(octets)
    } else {
        utf8_lossy(octets)
    }
}

/// `text` with a space in place of each NUL.
pub open spec fn without_nul(text: Seq<char>) -> Seq<char> {
    text.map_values(
        |c: char|
            if c == '\0' {
                ' '
            } else {
                c
            },
    )
}

/// The text that `String::from_utf8_lossy` makes of octets that are not
/// valid UTF-8: what is valid stays, and U+FFFD stands for what is not.
pub uninterp spec fn utf8_lossy(octets: Seq<u8>) -> Seq<char>;

impl StationInfoView {
    /// No rates, no SSID, no other elements.
    pub open spec fn empty() -> StationInfoView {
        StationInfoView { supported_rates: Seq::empty(), ssid: None, data: Seq::empty() }
    }

    /// The element of the SSID, where there is one.
    pub open spec fn ssid_elements(self) -> Seq<Element> {
        match self.ssid {
            Some(ssid) => seq![Element { id: 0, payload: encode_utf8(ssid) }],
            None => Seq::empty(),
        }
    }

    /// The element of the rates, where there are any.
    pub open spec fn rates_elements(self) -> Seq<Element> {
        if self.supported_rates.len() > 0 {
            seq![Element { id: 1, payload: octets_of_rates(self.supported_rates) }]
        } else {
            Seq::empty()
        }
    }

    /// The elements of `data`.
    pub open spec fn data_elements(self) -> Seq<Element> {
        self.data.map_values(
            |field: (ManagementInfoId, Seq<u8>)|
                Element { id: field.0.wire_value(), payload: field.1 },
        )
    }

    /// The elements in the order in which they are written: the SSID where
    /// there is one, the rates where there are any, then `data` in its own
    /// order.
    pub open spec fn elements(self) -> Seq<Element> {
        self.ssid_elements() + self.rates_elements() + self.data_elements()
    }

    /// The octets of the elements, or the reason for which they have none:
    /// one of them is longer than its length octet can say.
    pub open spec fn wire(self) -> Result<Seq<u8>, SerializationError> {
        if elements_fit(self.elements()) {
            Ok(elements_wire(self.elements()))
        } else {
            Err(SerializationError::MgmtElementTooLong)
        }
    }

    /// What one more element makes of the station info read so far. An SSID
    /// or a list of rates takes the place of the one before it. An element
    /// with an id that has no name is passed over.
    pub open spec fn with_element(self, element: Element) -> StationInfoView {
        match ManagementInfoId::from_wire_value(element.id) {
            Some(ManagementInfoId::SSID) => StationInfoView {
                ssid: Some(ssid_text(element.payload)),
                ..self
            },
            Some(ManagementInfoId::SupportedRates) => StationInfoView {
                supported_rates: rates_of_octets(element.payload),
                ..self
            },
            Some(id) => StationInfoView { data: self.data.push((id, element.payload)), ..self },
            None => self,
        }
    }

    /// The station info that a run of elements stands for.
    pub open spec fn of_elements(elements: Seq<Element>) -> StationInfoView
        decreases elements.len(),
    {
        if elements.len() == 0 {
            StationInfoView::empty()
        } else {
            Self::of_elements(elements.drop_last()).with_element(elements.last())
        }
    }
}

/// The elements at the start of `input` and the octets behind them, or,
/// where an element breaks off, the octets that were left for its payload.
///
/// One element is always read. After each element, reading goes on while
/// more than [`MAX_TRAILER_LEN`] octets are left.
pub open spec fn parse_elements(input: Seq<u8>) -> Result<(Seq<Element>, Seq<u8>), Seq<u8>>
    decreases input.len(),
{
    if input.len() < 2 {
        Err(Seq::empty())
    } else if input.len() < 2 + input[1] {
        Err(input.skip(2))
    } else {
        let element = Element { id: input[0], payload: input.subrange(2, 2 + input[1]) };
        let rest = input.skip(2 + input[1]);
        if rest.len() <= MAX_TRAILER_LEN {
            Ok((seq![element], rest))
        } else {
            match parse_elements(rest) {
                Ok((elements, trailer)) => Ok((seq![element] + elements, trailer)),
                Err(left) => Err(left),
            }
        }
    }
}


/// The number of octets that a run of elements takes on the wire: for each
/// element two, and its payload.
pub open spec fn elements_len(elements: Seq<Element>) -> nat
    decreases elements.len(),
{
    if elements.len() == 0 {
        0
    } else {
        elements_len(elements.drop_last()) + 2 + elements.last().payload.len()
    }
}

/// The octets of a run of elements are as many as `elements_len` says.
pub proof fn lemma_elements_wire_len(elements: Seq<Element>)
    ensures
        elements_wire(elements).len() == elements_len(elements),
    decreases elements.len(),
{
    if elements.len() > 0 {
        lemma_elements_wire_len(elements.drop_last());
    }
}

/// The octets of a run of elements are those of its first element and then
/// those of the others.
pub proof fn lemma_elements_wire_front(first: Element, others: Seq<Element>)
    ensures
        elements_wire(seq![first] + others) == first.wire() + elements_wire(others),
        elements_len(seq![first] + others) == 2 + first.payload.len() + elements_len(others),
    decreases others.len(),
{
    let all = seq![first] + others;
    if others.len() == 0 {
        assert(all.drop_last() =~= others);
        assert(all.last() == first);
        assert(elements_wire(all) =~= first.wire() + elements_wire(others));
    } else {
        assert(all.drop_last() =~= seq![first] + others.drop_last());
        lemma_elements_wire_front(first, others.drop_last());
        assert(elements_wire(all) =~= first.wire() + elements_wire(others));
    }
}

/// What is read is what was there: the octets of the elements that are
/// read, one after the other, and then the octets that are left, are the
/// input. So the elements take two octets each and their payloads, and with
/// what is left that is the length of the input. At least one element is
/// read, none is longer than 255 octets, and at most four octets are left.
pub proof fn lemma_elements_cover_input(input: Seq<u8>)
    requires
        parse_elements(input) is Ok,
    ensures
        ({
            let (elements, trailer) = parse_elements(input)->Ok_0;
            &&& elements.len() >= 1
            &&& elements_fit(elements)
            &&& trailer.len() <= MAX_TRAILER_LEN
            &&& elements_wire(elements) + trailer == input
            &&& elements_len(elements) + trailer.len() == input.len()
        }),
    decreases input.len(),
{
    let element = Element { id: input[0], payload: input.subrange(2, 2 + input[1]) };
    let rest = input.skip(2 + input[1]);
    assert(element.wire() + rest =~= input);
    if rest.len() <= MAX_TRAILER_LEN {
        lemma_elements_wire_front(element, Seq::empty());
        assert(seq![element] + Seq::<Element>::empty() =~= seq![element]);
        assert(elements_wire(Seq::<Element>::empty()) =~= Seq::<u8>::empty());
        assert(element.wire() + Seq::<u8>::empty() + rest =~= input);
    } else {
        lemma_elements_cover_input(rest);
        let (elements, trailer) = parse_elements(rest)->Ok_0;
        lemma_elements_wire_front(element, elements);
        let others_and_trailer = elements_wire(elements) + trailer;
        assert(element.wire() + elements_wire(elements) + trailer =~= element.wire()
            + others_and_trailer);
        let all = seq![element] + elements;
        assert forall|i: int| 0 <= i < all.len() implies (#[trigger] all[i]).payload.len()
            <= MAX_ELEMENT_LEN by {
            if i > 0 {
                assert(all[i] == elements[i - 1]);
            }
        }
    }
}

/// The length ceiling: the elements of a station info can be written
/// exactly if the SSID takes at most 255 octets, there are at most 255 rates
/// and no field of `data` holds more than 255 octets. Else the reason is
/// that an element is too long.
pub proof fn lemma_length_ceiling(info: StationInfoView)
    ensures
        info.wire() is Ok <==> {
            &&& info.ssid matches Some(ssid) ==> encode_utf8(ssid).len() <= MAX_ELEMENT_LEN
            &&& info.supported_rates.len() <= MAX_ELEMENT_LEN
            &&& forall|i: int|
                0 <= i < info.data.len() ==> (#[trigger] info.data[i]).1.len() <= MAX_ELEMENT_LEN
        },
        info.wire() is Err ==> info.wire() == Err::<Seq<u8>, _>(
            SerializationError::MgmtElementTooLong,
        ),
{
    let elements = info.elements();
    let lead = info.ssid_elements() + info.rates_elements();
    if info.wire() is Ok {
        if info.ssid is Some {
            assert(elements[0].payload.len() <= MAX_ELEMENT_LEN);
        }
        if info.supported_rates.len() > 0 {
            assert(elements[info.ssid_elements().len() as int].payload.len() <= MAX_ELEMENT_LEN);
        }
        assert forall|i: int| 0 <= i < info.data.len() implies (#[trigger] info.data[i]).1.len()
            <= MAX_ELEMENT_LEN by {
            assert(elements[lead.len() + i].payload == info.data[i].1);
        }
    } else {
        let i = choose|i: int|
            0 <= i < elements.len() && (#[trigger] elements[i]).payload.len() > MAX_ELEMENT_LEN;
        if i >= lead.len() {
            assert(elements[i].payload == info.data[i - lead.len()].1);
        }
    }
}

} // verus!
