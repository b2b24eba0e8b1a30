//! The RADIUS attribute and packet data model: the closed code
//! enumeration, the typed attribute sum type with its `Unknown` escape,
//! and the two-state vendor-specific payload with its lazy decode.

use crate::errors::DecodeError;
use vstd::prelude::*;
use vstd::string::StrSliceExecFns;
use vstd::utf8::{decode_utf8, encode_utf8, valid_utf8};

verus! {

broadcast use vstd::seq::group_seq_axioms;

/// An IPv4 address held as its four plain octets.
#[derive(Clone, Copy, PartialEq, Eq, Structural, Debug)]
pub struct Ipv4Address {
    pub octet0: u8,
    pub octet1: u8,
    pub octet2: u8,
    pub octet3: u8,
}

impl Ipv4Address {
    /// The four octets in network order.
    pub open spec fn spec_octets(self) -> Seq<u8> {
        seq![self.octet0, self.octet1, self.octet2, self.octet3]
    }

    pub fn new(octet0: u8, octet1: u8, octet2: u8, octet3: u8) -> (r: Ipv4Address)
        ensures
            r == (Ipv4Address { octet0, octet1, octet2, octet3 }),
    {
        Ipv4Address { octet0, octet1, octet2, octet3 }
    }
}

/// The Service-Type attribute value, a protocol-defined 32-bit selector.
#[derive(Clone, Copy, PartialEq, Eq, Structural, Debug)]
pub struct ServiceType(pub u32);

/// The Framed-Protocol attribute value.
#[derive(Clone, Copy, PartialEq, Eq, Structural, Debug)]
pub struct FramedProtocol(pub u32);

/// The Framed-Routing attribute value.
#[derive(Clone, Copy, PartialEq, Eq, Structural, Debug)]
pub struct FramedRouting(pub u32);

/// The Framed-Compression attribute value.
#[derive(Clone, Copy, PartialEq, Eq, Structural, Debug)]
pub struct FramedCompression(pub u32);

/// The closed enumeration of RADIUS packet codes this engine understands.
#[derive(Clone, Copy, PartialEq, Eq, Structural, Debug)]
pub enum RadiusCode {
    AccessRequest,
    AccessAccept,
    AccessReject,
    AccountingRequest,
    AccountingResponse,
    AccessChallenge,
    StatusServer,
    StatusClient,
    Reserved,
}

/// The numeric wire value of a packet code.
pub open spec fn spec_code_num(c: RadiusCode) -> u8 {
    match c {
        RadiusCode::AccessRequest => 1,
        RadiusCode::AccessAccept => 2,
        RadiusCode::AccessReject => 3,
        RadiusCode::AccountingRequest => 4,
        RadiusCode::AccountingResponse => 5,
        RadiusCode::AccessChallenge => 11,
        RadiusCode::StatusServer => 12,
        RadiusCode::StatusClient => 13,
        RadiusCode::Reserved => 255,
    }
}

/// The packet code denoted by a numeric wire value, if any.
pub open spec fn spec_code_of(n: u8) -> Option<RadiusCode> {
    if n == 1 {
        Some(RadiusCode::AccessRequest)
    } else if n == 2 {
        Some(RadiusCode::AccessAccept)
    } else if n == 3 {
        Some(RadiusCode::AccessReject)
    } else if n == 4 {
        Some(RadiusCode::AccountingRequest)
    } else if n == 5 {
        Some(RadiusCode::AccountingResponse)
    } else if n == 11 {
        Some(RadiusCode::AccessChallenge)
    } else if n == 12 {
        Some(RadiusCode::StatusServer)
    } else if n == 13 {
        Some(RadiusCode::StatusClient)
    } else if n == 255 {
        Some(RadiusCode::Reserved)
    } else {
        None
    }
}

/// Reading back the numeric value of a code yields that code.
pub proof fn lemma_code_num_roundtrip(c: RadiusCode)
    ensures
        spec_code_of(spec_code_num(c)) == Some(c),
{
}

pub fn code_num(c: RadiusCode) -> (n: u8)
    ensures
        n == spec_code_num(c),
{
    match c {
        RadiusCode::AccessRequest => 1,
        RadiusCode::AccessAccept => 2,
        RadiusCode::AccessReject => 3,
        RadiusCode::AccountingRequest => 4,
        RadiusCode::AccountingResponse => 5,
        RadiusCode::AccessChallenge => 11,
        RadiusCode::StatusServer => 12,
        RadiusCode::StatusClient => 13,
        RadiusCode::Reserved => 255,
    }
}

pub fn code_of(n: u8) -> (r: Option<RadiusCode>)
    ensures
        r == spec_code_of(n),
{
    if n == 1 {
        Some(RadiusCode::AccessRequest)
    } else if n == 2 {
        Some(RadiusCode::AccessAccept)
    } else if n == 3 {
        Some(RadiusCode::AccessReject)
    } else if n == 4 {
        Some(RadiusCode::AccountingRequest)
    } else if n == 5 {
        Some(RadiusCode::AccountingResponse)
    } else if n == 11 {
        Some(RadiusCode::AccessChallenge)
    } else if n == 12 {
        Some(RadiusCode::StatusServer)
    } else if n == 13 {
        Some(RadiusCode::StatusClient)
    } else if n == 255 {
        Some(RadiusCode::Reserved)
    } else {
        None
    }
}

/// A successfully decoded vendor-specific payload: a vendor-assigned
/// sub-type and a UTF-8 text body.
#[derive(PartialEq, Debug)]
pub struct VendorSpecificDecoded {
    pub vendor_type: u8,
    pub text: String,
}

/// The mathematical shape of a decoded vendor-specific payload.
#[verifier::ext_equal]
pub struct VsaDecodedView {
    pub vendor_type: u8,
    pub text: Seq<char>,
}

impl View for VendorSpecificDecoded {
    type V = VsaDecodedView;

    open spec fn view(&self) -> VsaDecodedView {
        VsaDecodedView { vendor_type: self.vendor_type, text: self.text@ }
    }
}

/// A vendor-specific payload, either opportunistically decoded or kept
/// as raw bytes when decoding failed or was never attempted.
#[derive(PartialEq, Debug)]
pub enum VendorSpecificData {
    Decoded(VendorSpecificDecoded),
    Encoded(Vec<u8>),
}

/// The mathematical shape of a vendor-specific payload.
#[verifier::ext_equal]
pub enum VsaDataView {
    Decoded(VsaDecodedView),
    Encoded(Seq<u8>),
}

impl View for VendorSpecificData {
    type V = VsaDataView;

    open spec fn view(&self) -> VsaDataView {
        match self {
            VendorSpecificData::Decoded(d) => VsaDataView::Decoded(d@),
            VendorSpecificData::Encoded(b) => VsaDataView::Encoded(b@),
        }
    }
}

/// A text body longer than 247 bytes of UTF-8 is cut at 247 bytes when
/// re-encoded, so that the nested TLV stays inside the 255-byte
/// attribute ceiling.
pub open spec fn spec_trunc247(s: Seq<u8>) -> Seq<u8> {
    if s.len() <= 247 {
        s
    } else {
        s.take(247)
    }
}

/// The nested TLV bytes of a decoded vendor-specific payload:
/// sub-type, length of the (possibly truncated) text, then the text.
pub open spec fn spec_vsa_decoded_bytes(d: VsaDecodedView) -> Seq<u8> {
    let tb = spec_trunc247(encode_utf8(d.text));
    seq![d.vendor_type, tb.len() as u8] + tb
}

/// The wire bytes of a vendor-specific payload in either state.
pub open spec fn spec_vsa_data_bytes(d: VsaDataView) -> Seq<u8> {
    match d {
        VsaDataView::Decoded(dec) => spec_vsa_decoded_bytes(dec),
        VsaDataView::Encoded(b) => b,
    }
}

/// How a nested vendor-specific TLV decodes: sub-type byte, then a
/// length byte that must count exactly the remaining bytes, then a text
/// body that must be valid UTF-8.
pub open spec fn spec_vsa_try_decode(d: Seq<u8>) -> Result<VsaDecodedView, DecodeError> {
    if d.len() < 2 || d.len() > 255 {
        Err(DecodeError::Malformed)
    } else if d[1] as int != d.len() - 2 {
        Err(DecodeError::Malformed)
    } else if !valid_utf8(d.skip(2)) {
        Err(DecodeError::Encoding)
    } else {
        Ok(VsaDecodedView { vendor_type: d[0], text: decode_utf8(d.skip(2)) })
    }
}

/// Relies on `String::from_utf8`: it succeeds exactly on input that is
/// valid UTF-8, and then returns the string that wraps the input bytes,
/// i.e. the one whose UTF-8 encoding is the input.
#[verifier::external_body]
fn bytes_to_string(v: Vec<u8>) -> (r: Option<String>)
    ensures
        (r is Some) == valid_utf8(v@),
        r matches Some(s) ==> encode_utf8(s@) == v@,
{
    match String::from_utf8(v) {
        Ok(s) => Some(s),
        Err(_) => None,
    }
}

/// Whether a byte sequence is valid UTF-8.
pub(crate) fn utf8_check(v: &[u8]) -> (r: bool)
    ensures
        r == valid_utf8(v@),
{
    bytes_to_string(vstd::slice::slice_to_vec(v)).is_some()
}

impl Clone for VendorSpecificDecoded {
    /// Cloning keeps the sub-type and the text.
    fn clone(&self) -> (res: Self)
        ensures
            res@ == self@,
    {
        VendorSpecificDecoded { vendor_type: self.vendor_type, text: self.text.clone() }
    }
}

impl Clone for VendorSpecificData {
    /// Cloning keeps the state and the contents.
    fn clone(&self) -> (res: Self)
        ensures
            res@ == self@,
    {
        match self {
            VendorSpecificData::Decoded(d) => VendorSpecificData::Decoded(d.clone()),
            VendorSpecificData::Encoded(b) => VendorSpecificData::Encoded(
                crate::util::clone_bytes(b),
            ),
        }
    }
}

impl VendorSpecificDecoded {
    /// Decodes a nested vendor-specific TLV, rejecting size and length
    /// mismatches as `Malformed` and non-UTF-8 text as `Encoding`.
    pub fn try_from_bytes(v: &Vec<u8>) -> (r: Result<VendorSpecificDecoded, DecodeError>)
        ensures
            (r is Ok) == (spec_vsa_try_decode(v@) is Ok),
            r matches Ok(d) ==> spec_vsa_try_decode(v@) matches Ok(dv) && d@ == dv,
            r matches Err(e) ==> spec_vsa_try_decode(v@) matches Err(e2) && e == e2,
    {
        let n = v.len();
        if n < 2 || n > 255 {
            Err(DecodeError::Malformed)
        } else if v[1] as usize != n - 2 {
            Err(DecodeError::Malformed)
        } else {
            let body = vstd::slice::slice_to_vec(vstd::slice::slice_subrange(v.as_slice(), 2, n));
            match bytes_to_string(body) {
                Some(text) => {
                    proof {
                        vstd::utf8::encode_utf8_decode_utf8(text@);
                    }
                    Ok(VendorSpecificDecoded { vendor_type: v[0], text })
                },
                None => Err(DecodeError::Encoding),
            }
        }
    }

    /// The nested TLV bytes of this payload; text beyond 247 bytes of
    /// UTF-8 is truncated, not rejected.
    pub fn to_bytes(&self) -> (out: Vec<u8>)
        ensures
            out@ == spec_vsa_decoded_bytes(self@),
    {
        let mut text = self.text.as_str().as_bytes_vec();
        text.truncate(247);
        let mut out: Vec<u8> = Vec::new();
        out.push(self.vendor_type);
        out.push(text.len() as u8);
        out.append(&mut text);
        proof {
            assert(out@ =~= spec_vsa_decoded_bytes(self@));
        }
        out
    }
}

impl VendorSpecificData {
    /// Returns the decoded form of this payload: already-decoded data is
    /// returned as it is, and raw bytes are decoded or rejected.
    pub fn try_decode(&self) -> (r: Result<Self, DecodeError>)
        ensures
            self matches VendorSpecificData::Decoded(d) ==> r matches Ok(s) && s@ == self@,
            self@ matches VsaDataView::Encoded(b) ==> {
                &&& (r is Ok) == (spec_vsa_try_decode(b) is Ok)
                &&& (r matches Ok(s) ==> spec_vsa_try_decode(b) matches Ok(dv) && s@
                    == VsaDataView::Decoded(dv))
                &&& (r matches Err(e) ==> spec_vsa_try_decode(b) matches Err(e2) && e == e2)
            },
    {
        match self {
            VendorSpecificData::Decoded(d) => Ok(VendorSpecificData::Decoded(d.clone())),
            VendorSpecificData::Encoded(data) => {
                match VendorSpecificDecoded::try_from_bytes(data) {
                    Ok(d) => Ok(VendorSpecificData::Decoded(d)),
                    Err(e) => Err(e),
                }
            },
        }
    }

    /// Returns the encoded form of this payload; already-raw bytes are
    /// kept as they are.
    pub fn encode(self) -> (r: Self)
        ensures
            r@ == VsaDataView::Encoded(spec_vsa_data_bytes(self@)),
    {
        match self {
            VendorSpecificData::Decoded(data) => VendorSpecificData::Encoded(data.to_bytes()),
            VendorSpecificData::Encoded(_) => self,
        }
    }

    /// The wire bytes of this payload in either state, leaving the
    /// payload itself untouched.
    pub fn data_bytes(&self) -> (out: Vec<u8>)
        ensures
            out@ == spec_vsa_data_bytes(self@),
    {
        match self {
            VendorSpecificData::Decoded(d) => d.to_bytes(),
            VendorSpecificData::Encoded(b) => crate::util::clone_bytes(b),
        }
    }

    /// Wraps raw nested-TLV bytes, decoding them opportunistically: bytes
    /// that do not decode are kept raw, which is not an error.
    pub fn from_bytes(v: Vec<u8>) -> (r: Self)
        ensures
            spec_vsa_try_decode(v@) matches Ok(dv) ==> r@ == VsaDataView::Decoded(dv),
            spec_vsa_try_decode(v@) is Err ==> r@ == VsaDataView::Encoded(v@),
    {
        let encoded = VendorSpecificData::Encoded(v);
        match encoded.try_decode() {
            Ok(decoded) => decoded,
            Err(_) => encoded,
        }
    }
}

/// One RADIUS attribute: a closed sum of the typed attributes this
/// engine understands, plus a lossless `Unknown` escape for every other
/// tag.
#[derive(PartialEq, Debug)]
pub enum RadiusAttribute {
    UserName(Vec<u8>),
    UserPassword(Vec<u8>),
    ChapPassword(u8, Vec<u8>),
    NasIPAddress(Ipv4Address),
    NasPort(u32),
    ServiceType(ServiceType),
    FramedProtocol(FramedProtocol),
    FramedIPAddress(Ipv4Address),
    FramedIPNetmask(Ipv4Address),
    FramedRouting(FramedRouting),
    FilterId(Vec<u8>),
    FramedMTU(u32),
    FramedCompression(FramedCompression),
    VendorSpecific(u32, VendorSpecificData),
    CalledStationId(Vec<u8>),
    CallingStationId(Vec<u8>),
    Unknown(u8, Vec<u8>),
}

/// The mathematical shape of one attribute.
#[verifier::ext_equal]
pub enum AttrView {
    UserName(Seq<u8>),
    UserPassword(Seq<u8>),
    ChapPassword(u8, Seq<u8>),
    NasIPAddress(Ipv4Address),
    NasPort(u32),
    ServiceType(ServiceType),
    FramedProtocol(FramedProtocol),
    FramedIPAddress(Ipv4Address),
    FramedIPNetmask(Ipv4Address),
    FramedRouting(FramedRouting),
    FilterId(Seq<u8>),
    FramedMTU(u32),
    FramedCompression(FramedCompression),
    VendorSpecific(u32, VsaDataView),
    CalledStationId(Seq<u8>),
    CallingStationId(Seq<u8>),
    Unknown(u8, Seq<u8>),
}

impl View for RadiusAttribute {
    type V = AttrView;

    open spec fn view(&self) -> AttrView {
        match self {
            RadiusAttribute::UserName(b) => AttrView::UserName(b@),
            RadiusAttribute::UserPassword(b) => AttrView::UserPassword(b@),
            RadiusAttribute::ChapPassword(ident, hash) => AttrView::ChapPassword(*ident, hash@),
            RadiusAttribute::NasIPAddress(ip) => AttrView::NasIPAddress(*ip),
            RadiusAttribute::NasPort(p) => AttrView::NasPort(*p),
            RadiusAttribute::ServiceType(s) => AttrView::ServiceType(*s),
            RadiusAttribute::FramedProtocol(p) => AttrView::FramedProtocol(*p),
            RadiusAttribute::FramedIPAddress(ip) => AttrView::FramedIPAddress(*ip),
            RadiusAttribute::FramedIPNetmask(ip) => AttrView::FramedIPNetmask(*ip),
            RadiusAttribute::FramedRouting(r) => AttrView::FramedRouting(*r),
            RadiusAttribute::FilterId(b) => AttrView::FilterId(b@),
            RadiusAttribute::FramedMTU(m) => AttrView::FramedMTU(*m),
            RadiusAttribute::FramedCompression(c) => AttrView::FramedCompression(*c),
            RadiusAttribute::VendorSpecific(id, d) => AttrView::VendorSpecific(*id, d@),
            RadiusAttribute::CalledStationId(b) => AttrView::CalledStationId(b@),
            RadiusAttribute::CallingStationId(b) => AttrView::CallingStationId(b@),
            RadiusAttribute::Unknown(tag, b) => AttrView::Unknown(*tag, b@),
        }
    }
}

impl Clone for RadiusAttribute {
    /// Cloning keeps the attribute's kind and payload.
    fn clone(&self) -> (res: Self)
        ensures
            res@ == self@,
    {
        match self {
            RadiusAttribute::UserName(b) => RadiusAttribute::UserName(crate::util::clone_bytes(b)),
            RadiusAttribute::UserPassword(b) => RadiusAttribute::UserPassword(
                crate::util::clone_bytes(b),
            ),
            RadiusAttribute::ChapPassword(ident, hash) => RadiusAttribute::ChapPassword(
                *ident,
                crate::util::clone_bytes(hash),
            ),
            RadiusAttribute::NasIPAddress(ip) => RadiusAttribute::NasIPAddress(*ip),
            RadiusAttribute::NasPort(p) => RadiusAttribute::NasPort(*p),
            RadiusAttribute::ServiceType(s) => RadiusAttribute::ServiceType(*s),
            RadiusAttribute::FramedProtocol(p) => RadiusAttribute::FramedProtocol(*p),
            RadiusAttribute::FramedIPAddress(ip) => RadiusAttribute::FramedIPAddress(*ip),
            RadiusAttribute::FramedIPNetmask(ip) => RadiusAttribute::FramedIPNetmask(*ip),
            RadiusAttribute::FramedRouting(r) => RadiusAttribute::FramedRouting(*r),
            RadiusAttribute::FilterId(b) => RadiusAttribute::FilterId(crate::util::clone_bytes(b)),
            RadiusAttribute::FramedMTU(m) => RadiusAttribute::FramedMTU(*m),
            RadiusAttribute::FramedCompression(c) => RadiusAttribute::FramedCompression(*c),
            RadiusAttribute::VendorSpecific(id, d) => RadiusAttribute::VendorSpecific(
                *id,
                d.clone(),
            ),
            RadiusAttribute::CalledStationId(b) => RadiusAttribute::CalledStationId(
                crate::util::clone_bytes(b),
            ),
            RadiusAttribute::CallingStationId(b) => RadiusAttribute::CallingStationId(
                crate::util::clone_bytes(b),
            ),
            RadiusAttribute::Unknown(tag, b) => RadiusAttribute::Unknown(
                *tag,
                crate::util::clone_bytes(b),
            ),
        }
    }
}

/// A RADIUS packet: code, correlating identifier, the 16-byte opaque
/// authenticator, and the ordered attribute sequence.
#[derive(PartialEq, Debug)]
pub struct RadiusData {
    pub code: RadiusCode,
    pub identifier: u8,
    pub authenticator: Vec<u8>,
    pub attributes: Vec<RadiusAttribute>,
}

/// The mathematical shape of a packet.
#[verifier::ext_equal]
pub struct PacketView {
    pub code: RadiusCode,
    pub identifier: u8,
    pub authenticator: Seq<u8>,
    pub attributes: Seq<AttrView>,
}

impl View for RadiusData {
    type V = PacketView;

    open spec fn view(&self) -> PacketView {
        PacketView {
            code: self.code,
            identifier: self.identifier,
            authenticator: self.authenticator@,
            attributes: self.attributes@.map_values(|a: RadiusAttribute| a@),
        }
    }
}

impl Clone for RadiusData {
    /// Cloning keeps every field, attribute order included.
    fn clone(&self) -> (res: Self)
        ensures
            res@ == self@,
    {
        let mut attributes: Vec<RadiusAttribute> = Vec::new();
        let n = self.attributes.len();
        let mut i: usize = 0;
        while i < n
            invariant
                i <= n,
                n == self.attributes@.len(),
                attributes@.len() == i,
                forall|j: int| 0 <= j < i ==> attributes@[j]@ == self.attributes@[j]@,
            decreases n - i,
        {
            attributes.push(self.attributes[i].clone());
            i += 1;
        }
        let res = RadiusData {
            code: self.code,
            identifier: self.identifier,
            authenticator: crate::util::clone_bytes(&self.authenticator),
            attributes,
        };
        proof {
            assert(res@.attributes =~= self@.attributes);
            assert(res@ =~= self@);
        }
        res
    }
}

} // verus!
