//! The packet codec: the wire grammar that splits a raw datagram into a
//! loosely-typed parse tree, the decoder that types each attribute, and
//! the encoder that is its exact inverse.
//!
//! Wire format: `code:u8 | identifier:u8 | length:u16(BE) |
//! authenticator:16 bytes | attributes`, each attribute being
//! `tag:u8 | length:u8 | value:(length-2) bytes`.

use crate::errors::{DecodeError, EncodeError, ParseError};
use crate::pkt::{
    lemma_code_num_roundtrip, spec_code_num, spec_code_of, spec_trunc247, spec_vsa_data_bytes,
    spec_vsa_decoded_bytes, spec_vsa_try_decode, AttrView, FramedCompression, FramedProtocol, FramedRouting, Ipv4Address,
    PacketView, RadiusAttribute, RadiusCode, RadiusData, ServiceType, VendorSpecificData,
    VsaDataView,
};
use crate::util::{
    spec_u16_from_be_bytes, spec_u16_to_be_bytes, spec_u32_from_be_bytes, spec_u32_to_be_bytes,
};
use vstd::prelude::*;
use vstd::utf8::{decode_utf8, encode_utf8, valid_utf8};

verus! {

broadcast use vstd::seq::group_seq_axioms;

/// One loosely-typed attribute as the wire grammar sees it: a numeric
/// tag and its raw value bytes.
#[derive(PartialEq, Debug)]
pub struct RawAttribute {
    pub tag: u8,
    pub value: Vec<u8>,
}

/// The mathematical shape of a loosely-typed attribute.
#[verifier::ext_equal]
pub struct RawAttrView {
    pub tag: u8,
    pub value: Seq<u8>,
}

impl View for RawAttribute {
    type V = RawAttrView;

    open spec fn view(&self) -> RawAttrView {
        RawAttrView { tag: self.tag, value: self.value@ }
    }
}

/// The loosely-typed parse tree of one datagram: numeric code,
/// identifier, the authenticator bytes, and the attribute pairs, absent
/// when the packet carries no attribute bytes.
#[derive(PartialEq, Debug)]
pub struct ParseTree {
    pub code: u8,
    pub identifier: u8,
    pub authenticator: Vec<u8>,
    pub attributes: Option<Vec<RawAttribute>>,
}

/// The mathematical shape of a parse tree.
#[verifier::ext_equal]
pub struct ParseTreeView {
    pub code: u8,
    pub identifier: u8,
    pub authenticator: Seq<u8>,
    pub attributes: Option<Seq<RawAttrView>>,
}

impl View for ParseTree {
    type V = ParseTreeView;

    open spec fn view(&self) -> ParseTreeView {
        ParseTreeView {
            code: self.code,
            identifier: self.identifier,
            authenticator: self.authenticator@,
            attributes: match self.attributes {
                Some(v) => Some(v@.map_values(|a: RawAttribute| a@)),
                None => None,
            },
        }
    }
}

// ------------------------------------------------------------------
// The wire grammar: bytes to parse tree.
// ------------------------------------------------------------------

/// How an attribute section splits into TLVs: each attribute claims a
/// length of at least 2 that must not run past the section.
pub open spec fn spec_parse_attrs(s: Seq<u8>) -> Option<Seq<RawAttrView>>
    decreases s.len(),
{
    if s.len() == 0 {
        Some(Seq::empty())
    } else if s.len() < 2 {
        None
    } else {
        let l = s[1] as int;
        if l < 2 || l > s.len() {
            None
        } else {
            match spec_parse_attrs(s.skip(l)) {
                Some(rest) => Some(
                    seq![RawAttrView { tag: s[0], value: s.subrange(2, l) }] + rest,
                ),
                None => None,
            }
        }
    }
}

/// How a datagram parses: a 20-byte header whose length field must
/// cover at least the header and lie within the datagram, then the
/// attribute section; bytes past the claimed length are ignored.
pub open spec fn spec_parse(w: Seq<u8>) -> Result<ParseTreeView, ParseError> {
    if w.len() < 20 {
        Err(ParseError::TooShort)
    } else {
        let length = spec_u16_from_be_bytes(w.subrange(2, 4)) as int;
        if length < 20 || length > w.len() {
            Err(ParseError::BadLength)
        } else {
            let ab = w.subrange(20, length);
            if ab.len() == 0 {
                Ok(
                    ParseTreeView {
                        code: w[0],
                        identifier: w[1],
                        authenticator: w.subrange(4, 20),
                        attributes: None,
                    },
                )
            } else {
                match spec_parse_attrs(ab) {
                    Some(attrs) => Ok(
                        ParseTreeView {
                            code: w[0],
                            identifier: w[1],
                            authenticator: w.subrange(4, 20),
                            attributes: Some(attrs),
                        },
                    ),
                    None => Err(ParseError::BadAttribute),
                }
            }
        }
    }
}

// ------------------------------------------------------------------
// Decoding: parse tree to typed packet.
// ------------------------------------------------------------------

/// Whether a tag is in the closed enumeration of typed attributes.
pub open spec fn spec_known_tag(tag: u8) -> bool {
    tag == 1 || tag == 2 || tag == 3 || tag == 4 || tag == 5 || tag == 6 || tag == 7 || tag == 8
        || tag == 9 || tag == 10 || tag == 11 || tag == 12 || tag == 13 || tag == 26 || tag == 30
        || tag == 31
}

/// The IPv4 address read from 4 raw bytes.
pub open spec fn spec_ipv4_of(v: Seq<u8>) -> Ipv4Address
    recommends
        v.len() == 4,
{
    Ipv4Address { octet0: v[0], octet1: v[1], octet2: v[2], octet3: v[3] }
}

/// How one attribute pair decodes. Text-bearing attributes must hold
/// valid UTF-8; fixed-width attributes must have exactly their width;
/// a vendor-specific value needs a 4-byte vendor id and at least one
/// payload byte, decoded opportunistically; every unlisted tag is kept
/// losslessly as `Unknown`.
pub open spec fn spec_decode_attr(tag: u8, v: Seq<u8>) -> Result<AttrView, DecodeError> {
    if tag == 1 {
        if valid_utf8(v) {
            Ok(AttrView::UserName(v))
        } else {
            Err(DecodeError::Encoding)
        }
    } else if tag == 2 {
        Ok(AttrView::UserPassword(v))
    } else if tag == 3 {
        if v.len() == 17 {
            Ok(AttrView::ChapPassword(v[0], v.skip(1)))
        } else {
            Err(DecodeError::Malformed)
        }
    } else if tag == 4 {
        if v.len() == 4 {
            Ok(AttrView::NasIPAddress(spec_ipv4_of(v)))
        } else {
            Err(DecodeError::Malformed)
        }
    } else if tag == 5 {
        if v.len() == 4 {
            Ok(AttrView::NasPort(spec_u32_from_be_bytes(v)))
        } else {
            Err(DecodeError::Malformed)
        }
    } else if tag == 6 {
        if v.len() == 4 {
            Ok(AttrView::ServiceType(ServiceType(spec_u32_from_be_bytes(v))))
        } else {
            Err(DecodeError::Malformed)
        }
    } else if tag == 7 {
        if v.len() == 4 {
            Ok(AttrView::FramedProtocol(FramedProtocol(spec_u32_from_be_bytes(v))))
        } else {
            Err(DecodeError::Malformed)
        }
    } else if tag == 8 {
        if v.len() == 4 {
            Ok(AttrView::FramedIPAddress(spec_ipv4_of(v)))
        } else {
            Err(DecodeError::Malformed)
        }
    } else if tag == 9 {
        if v.len() == 4 {
            Ok(AttrView::FramedIPNetmask(spec_ipv4_of(v)))
        } else {
            Err(DecodeError::Malformed)
        }
    } else if tag == 10 {
        if v.len() == 4 {
            Ok(AttrView::FramedRouting(FramedRouting(spec_u32_from_be_bytes(v))))
        } else {
            Err(DecodeError::Malformed)
        }
    } else if tag == 11 {
        if valid_utf8(v) {
            Ok(AttrView::FilterId(v))
        } else {
            Err(DecodeError::Encoding)
        }
    } else if tag == 12 {
        if v.len() == 4 {
            Ok(AttrView::FramedMTU(spec_u32_from_be_bytes(v)))
        } else {
            Err(DecodeError::Malformed)
        }
    } else if tag == 13 {
        if v.len() == 4 {
            Ok(AttrView::FramedCompression(FramedCompression(spec_u32_from_be_bytes(v))))
        } else {
            Err(DecodeError::Malformed)
        }
    } else if tag == 26 {
        if v.len() >= 5 {
            let id = spec_u32_from_be_bytes(v.take(4));
            let data = v.skip(4);
            let payload = match spec_vsa_try_decode(data) {
                Ok(dv) => VsaDataView::Decoded(dv),
                Err(_) => VsaDataView::Encoded(data),
            };
            Ok(AttrView::VendorSpecific(id, payload))
        } else {
            Err(DecodeError::Malformed)
        }
    } else if tag == 30 {
        if valid_utf8(v) {
            Ok(AttrView::CalledStationId(v))
        } else {
            Err(DecodeError::Encoding)
        }
    } else if tag == 31 {
        if valid_utf8(v) {
            Ok(AttrView::CallingStationId(v))
        } else {
            Err(DecodeError::Encoding)
        }
    } else {
        Ok(AttrView::Unknown(tag, v))
    }
}

/// How an attribute list decodes: pair by pair, in order, aborting the
/// whole packet on the first failing pair.
pub open spec fn spec_decode_attrs(s: Seq<RawAttrView>) -> Result<Seq<AttrView>, DecodeError>
    decreases s.len(),
{
    if s.len() == 0 {
        Ok(Seq::empty())
    } else {
        match spec_decode_attr(s[0].tag, s[0].value) {
            Ok(a) => match spec_decode_attrs(s.drop_first()) {
                Ok(rest) => Ok(seq![a] + rest),
                Err(e) => Err(e),
            },
            Err(e) => Err(e),
        }
    }
}

/// How a parse tree decodes: the code must be in the closed
/// enumeration, the authenticator must be exactly 16 bytes, and every
/// attribute pair must decode.
pub open spec fn spec_decode(t: ParseTreeView) -> Result<PacketView, DecodeError> {
    match spec_code_of(t.code) {
        None => Err(DecodeError::UnknownCode),
        Some(code) => {
            if t.authenticator.len() != 16 {
                Err(DecodeError::Malformed)
            } else {
                let raw = match t.attributes {
                    Some(l) => l,
                    None => Seq::empty(),
                };
                match spec_decode_attrs(raw) {
                    Ok(attrs) => Ok(
                        PacketView {
                            code,
                            identifier: t.identifier,
                            authenticator: t.authenticator,
                            attributes: attrs,
                        },
                    ),
                    Err(e) => Err(e),
                }
            }
        },
    }
}

// ------------------------------------------------------------------
// Encoding: typed packet to wire bytes.
// ------------------------------------------------------------------

/// The numeric tag under which an attribute serializes; the same table
/// that decoding uses, read in the inverse direction.
pub open spec fn spec_attr_tag(a: AttrView) -> u8 {
    match a {
        AttrView::UserName(_) => 1,
        AttrView::UserPassword(_) => 2,
        AttrView::ChapPassword(_, _) => 3,
        AttrView::NasIPAddress(_) => 4,
        AttrView::NasPort(_) => 5,
        AttrView::ServiceType(_) => 6,
        AttrView::FramedProtocol(_) => 7,
        AttrView::FramedIPAddress(_) => 8,
        AttrView::FramedIPNetmask(_) => 9,
        AttrView::FramedRouting(_) => 10,
        AttrView::FilterId(_) => 11,
        AttrView::FramedMTU(_) => 12,
        AttrView::FramedCompression(_) => 13,
        AttrView::VendorSpecific(_, _) => 26,
        AttrView::CalledStationId(_) => 30,
        AttrView::CallingStationId(_) => 31,
        AttrView::Unknown(tag, _) => tag,
    }
}

/// The value bytes under which an attribute serializes: fixed-width
/// attributes as 4-byte big-endian values, `ChapPassword` as identifier
/// byte plus hash, `VendorSpecific` as 4-byte vendor id plus nested TLV.
pub open spec fn spec_attr_payload(a: AttrView) -> Seq<u8> {
    match a {
        AttrView::UserName(b) => b,
        AttrView::UserPassword(b) => b,
        AttrView::ChapPassword(ident, hash) => seq![ident] + hash,
        AttrView::NasIPAddress(ip) => ip.spec_octets(),
        AttrView::NasPort(v) => spec_u32_to_be_bytes(v),
        AttrView::ServiceType(s) => spec_u32_to_be_bytes(s.0),
        AttrView::FramedProtocol(p) => spec_u32_to_be_bytes(p.0),
        AttrView::FramedIPAddress(ip) => ip.spec_octets(),
        AttrView::FramedIPNetmask(ip) => ip.spec_octets(),
        AttrView::FramedRouting(r) => spec_u32_to_be_bytes(r.0),
        AttrView::FilterId(b) => b,
        AttrView::FramedMTU(v) => spec_u32_to_be_bytes(v),
        AttrView::FramedCompression(c) => spec_u32_to_be_bytes(c.0),
        AttrView::VendorSpecific(id, d) => spec_u32_to_be_bytes(id) + spec_vsa_data_bytes(d),
        AttrView::CalledStationId(b) => b,
        AttrView::CallingStationId(b) => b,
        AttrView::Unknown(_, b) => b,
    }
}

/// Whether one attribute may serialize: its TLV must fit in 255 bytes,
/// and a `FramedMTU` value must lie in the protocol range.
pub open spec fn spec_attr_encodable(a: AttrView) -> bool {
    &&& spec_attr_payload(a).len() + 2 <= 255
    &&& (a matches AttrView::FramedMTU(v) ==> 64 <= v <= 65535)
}

/// The error reported for an attribute that may not serialize.
pub open spec fn spec_attr_err(a: AttrView) -> EncodeError {
    if a matches AttrView::FramedMTU(v) && !(64 <= v <= 65535) {
        EncodeError::MtuOutOfRange
    } else {
        EncodeError::AttributeTooLong
    }
}

/// The TLV bytes of one attribute: tag, total length, value.
pub open spec fn spec_attr_tlv(a: AttrView) -> Seq<u8> {
    let p = spec_attr_payload(a);
    seq![spec_attr_tag(a), (p.len() + 2) as u8] + p
}

/// The concatenated TLV bytes of an attribute list, in order.
pub open spec fn spec_attrs_bytes(s: Seq<AttrView>) -> Seq<u8>
    decreases s.len(),
{
    if s.len() == 0 {
        Seq::empty()
    } else {
        spec_attr_tlv(s[0]) + spec_attrs_bytes(s.drop_first())
    }
}

/// The total wire length of a packet: the 20-byte header plus all TLVs.
pub open spec fn spec_packet_len(p: PacketView) -> int {
    20 + spec_attrs_bytes(p.attributes).len() as int
}

/// Whether a packet may serialize: a 16-byte authenticator, every
/// attribute encodable, and the whole packet within the 65535-byte
/// protocol ceiling.
pub open spec fn spec_packet_encodable(p: PacketView) -> bool {
    &&& p.authenticator.len() == 16
    &&& (forall|i: int| 0 <= i < p.attributes.len() ==> spec_attr_encodable(#[trigger] p.attributes[i]))
    &&& spec_packet_len(p) <= 65535
}

/// The first error met when a packet may not serialize: the
/// authenticator size, then the attributes in order, then the ceiling.
pub open spec fn spec_attrs_err(s: Seq<AttrView>) -> Option<EncodeError>
    decreases s.len(),
{
    if s.len() == 0 {
        None
    } else if !spec_attr_encodable(s[0]) {
        Some(spec_attr_err(s[0]))
    } else {
        spec_attrs_err(s.drop_first())
    }
}

/// The error that encoding an unencodable packet reports.
pub open spec fn spec_encode_err(p: PacketView) -> EncodeError {
    if p.authenticator.len() != 16 {
        EncodeError::InvalidAuthenticator
    } else {
        match spec_attrs_err(p.attributes) {
            Some(e) => e,
            None => EncodeError::PacketTooLong,
        }
    }
}

/// The wire bytes of an encodable packet.
pub open spec fn spec_packet_bytes(p: PacketView) -> Seq<u8> {
    seq![spec_code_num(p.code), p.identifier] + spec_u16_to_be_bytes(spec_packet_len(p) as u16)
        + p.authenticator + spec_attrs_bytes(p.attributes)
}

// ------------------------------------------------------------------
// The executable codec.
// ------------------------------------------------------------------

impl RadiusAttribute {
    /// Types one loosely-typed attribute pair via the tag mapping table.
    pub fn from_pair(tag: u8, value: Vec<u8>) -> (r: Result<RadiusAttribute, DecodeError>)
        ensures
            (r is Ok) == (spec_decode_attr(tag, value@) is Ok),
            r matches Ok(a) ==> (spec_decode_attr(tag, value@) matches Ok(av) && a@ == av),
            r matches Err(e) ==> (spec_decode_attr(tag, value@) matches Err(e2) && e == e2),
    {
        let n = value.len();
        if tag == 1 {
            if crate::pkt::utf8_check(value.as_slice()) {
                Ok(RadiusAttribute::UserName(value))
            } else {
                Err(DecodeError::Encoding)
            }
        } else if tag == 2 {
            Ok(RadiusAttribute::UserPassword(value))
        } else if tag == 3 {
            if n == 17 {
                let ident = value[0];
                let hash = vstd::slice::slice_to_vec(
                    vstd::slice::slice_subrange(value.as_slice(), 1, 17),
                );
                Ok(RadiusAttribute::ChapPassword(ident, hash))
            } else {
                Err(DecodeError::Malformed)
            }
        } else if tag == 4 || tag == 8 || tag == 9 {
            if n == 4 {
                let ip = Ipv4Address::new(value[0], value[1], value[2], value[3]);
                if tag == 4 {
                    Ok(RadiusAttribute::NasIPAddress(ip))
                } else if tag == 8 {
                    Ok(RadiusAttribute::FramedIPAddress(ip))
                } else {
                    Ok(RadiusAttribute::FramedIPNetmask(ip))
                }
            } else {
                Err(DecodeError::Malformed)
            }
        } else if tag == 5 || tag == 6 || tag == 7 || tag == 10 || tag == 12 || tag == 13 {
            if n == 4 {
                let v = crate::util::u32_from_be_at(&value, 0);
                proof {
                    assert(value@.subrange(0, 4) =~= value@);
                }
                if tag == 5 {
                    Ok(RadiusAttribute::NasPort(v))
                } else if tag == 6 {
                    Ok(RadiusAttribute::ServiceType(ServiceType(v)))
                } else if tag == 7 {
                    Ok(RadiusAttribute::FramedProtocol(FramedProtocol(v)))
                } else if tag == 10 {
                    Ok(RadiusAttribute::FramedRouting(FramedRouting(v)))
                } else if tag == 12 {
                    Ok(RadiusAttribute::FramedMTU(v))
                } else {
                    Ok(RadiusAttribute::FramedCompression(FramedCompression(v)))
                }
            } else {
                Err(DecodeError::Malformed)
            }
        } else if tag == 11 {
            if crate::pkt::utf8_check(value.as_slice()) {
                Ok(RadiusAttribute::FilterId(value))
            } else {
                Err(DecodeError::Encoding)
            }
        } else if tag == 26 {
            if n >= 5 {
                let id = crate::util::u32_from_be_at(&value, 0);
                proof {
                    assert(value@.subrange(0, 4) =~= value@.take(4));
                }
                let data = vstd::slice::slice_to_vec(
                    vstd::slice::slice_subrange(value.as_slice(), 4, n),
                );
                Ok(RadiusAttribute::VendorSpecific(id, VendorSpecificData::from_bytes(data)))
            } else {
                Err(DecodeError::Malformed)
            }
        } else if tag == 30 {
            if crate::pkt::utf8_check(value.as_slice()) {
                Ok(RadiusAttribute::CalledStationId(value))
            } else {
                Err(DecodeError::Encoding)
            }
        } else if tag == 31 {
            if crate::pkt::utf8_check(value.as_slice()) {
                Ok(RadiusAttribute::CallingStationId(value))
            } else {
                Err(DecodeError::Encoding)
            }
        } else {
            Ok(RadiusAttribute::Unknown(tag, value))
        }
    }

    /// The tag and value bytes under which this attribute serializes;
    /// only a `FramedMTU` value outside `[64, 65535]` is rejected here.
    pub fn to_pair(&self) -> (r: Result<(u8, Vec<u8>), EncodeError>)
        ensures
            (self@ matches AttrView::FramedMTU(v) && !(64 <= v <= 65535)) ==> (r matches Err(e)
                && e == EncodeError::MtuOutOfRange),
            !(self@ matches AttrView::FramedMTU(v) && !(64 <= v <= 65535)) ==> (r matches Ok(p)
                && p.0 == spec_attr_tag(self@) && p.1@ == spec_attr_payload(self@)),
    {
        match self {
            RadiusAttribute::UserName(b) => Ok((1, crate::util::clone_bytes(b))),
            RadiusAttribute::UserPassword(b) => Ok((2, crate::util::clone_bytes(b))),
            RadiusAttribute::ChapPassword(ident, hash) => {
                let mut out: Vec<u8> = Vec::new();
                out.push(*ident);
                let mut h = crate::util::clone_bytes(hash);
                out.append(&mut h);
                proof {
                    assert(out@ =~= seq![*ident] + hash@);
                }
                Ok((3, out))
            },
            RadiusAttribute::NasIPAddress(ip) => Ok((4, crate::util::vec_from_ipv4(*ip))),
            RadiusAttribute::NasPort(p) => Ok((5, crate::util::vec_from_u32(*p))),
            RadiusAttribute::ServiceType(s) => Ok((6, crate::util::vec_from_u32(s.0))),
            RadiusAttribute::FramedProtocol(p) => Ok((7, crate::util::vec_from_u32(p.0))),
            RadiusAttribute::FramedIPAddress(ip) => Ok((8, crate::util::vec_from_ipv4(*ip))),
            RadiusAttribute::FramedIPNetmask(ip) => Ok((9, crate::util::vec_from_ipv4(*ip))),
            RadiusAttribute::FramedRouting(r) => Ok((10, crate::util::vec_from_u32(r.0))),
            RadiusAttribute::FilterId(b) => Ok((11, crate::util::clone_bytes(b))),
            RadiusAttribute::FramedMTU(m) => {
                if *m < 64 || *m > 65535 {
                    Err(EncodeError::MtuOutOfRange)
                } else {
                    Ok((12, crate::util::vec_from_u32(*m)))
                }
            },
            RadiusAttribute::FramedCompression(c) => Ok((13, crate::util::vec_from_u32(c.0))),
            RadiusAttribute::VendorSpecific(id, d) => {
                let mut out = crate::util::vec_from_u32(*id);
                let mut db = d.data_bytes();
                out.append(&mut db);
                Ok((26, out))
            },
            RadiusAttribute::CalledStationId(b) => Ok((30, crate::util::clone_bytes(b))),
            RadiusAttribute::CallingStationId(b) => Ok((31, crate::util::clone_bytes(b))),
            RadiusAttribute::Unknown(tag, b) => Ok((*tag, crate::util::clone_bytes(b))),
        }
    }

    /// The full TLV bytes of this attribute, or the error that stops it
    /// from serializing.
    pub fn to_tlv_bytes(&self) -> (r: Result<Vec<u8>, EncodeError>)
        ensures
            spec_attr_encodable(self@) ==> (r matches Ok(w) && w@ == spec_attr_tlv(self@)),
            !spec_attr_encodable(self@) ==> (r matches Err(e) && e == spec_attr_err(self@)),
    {
        match self.to_pair() {
            Err(e) => Err(e),
            Ok((tag, mut payload)) => {
                let len = payload.len();
                if len > 253 {
                    Err(EncodeError::AttributeTooLong)
                } else {
                    let mut out: Vec<u8> = Vec::new();
                    out.push(tag);
                    out.push((len + 2) as u8);
                    out.append(&mut payload);
                    proof {
                        assert(out@ =~= spec_attr_tlv(self@));
                    }
                    Ok(out)
                }
            },
        }
    }
}

/// Appending one attribute appends its TLV bytes.
pub proof fn lemma_attrs_bytes_snoc(s: Seq<AttrView>, a: AttrView)
    ensures
        spec_attrs_bytes(s.push(a)) == spec_attrs_bytes(s) + spec_attr_tlv(a),
    decreases s.len(),
{
    if s.len() == 0 {
        assert(s.push(a)[0] == a);
        assert(s.push(a).drop_first() =~= Seq::<AttrView>::empty());
        assert(spec_attrs_bytes(s.push(a)) == spec_attr_tlv(a) + spec_attrs_bytes(
            Seq::<AttrView>::empty(),
        ));
        assert(spec_attrs_bytes(Seq::<AttrView>::empty()) == Seq::<u8>::empty());
        assert(spec_attr_tlv(a) + Seq::<u8>::empty() =~= Seq::<u8>::empty() + spec_attr_tlv(a));
    } else {
        assert(s.push(a)[0] == s[0]);
        assert(s.push(a).drop_first() =~= s.drop_first().push(a));
        lemma_attrs_bytes_snoc(s.drop_first(), a);
        assert(spec_attrs_bytes(s.push(a)) == spec_attr_tlv(s[0]) + (spec_attrs_bytes(
            s.drop_first(),
        ) + spec_attr_tlv(a)));
        assert(spec_attr_tlv(s[0]) + (spec_attrs_bytes(s.drop_first()) + spec_attr_tlv(a)) =~= (
        spec_attr_tlv(s[0]) + spec_attrs_bytes(s.drop_first())) + spec_attr_tlv(a));
    }
}

/// When every attribute before `i` is encodable and the one at `i` is
/// not, the attribute list reports the error of the one at `i`.
pub proof fn lemma_attrs_err_at(s: Seq<AttrView>, i: int)
    requires
        0 <= i < s.len(),
        forall|j: int| 0 <= j < i ==> spec_attr_encodable(#[trigger] s[j]),
        !spec_attr_encodable(s[i]),
    ensures
        spec_attrs_err(s) == Some(spec_attr_err(s[i])),
    decreases s.len(),
{
    if i > 0 {
        lemma_attrs_err_at(s.drop_first(), i - 1);
    }
}

/// When every attribute is encodable, the attribute list reports no
/// error.
pub proof fn lemma_attrs_err_none(s: Seq<AttrView>)
    requires
        forall|j: int| 0 <= j < s.len() ==> spec_attr_encodable(#[trigger] s[j]),
    ensures
        spec_attrs_err(s) is None,
    decreases s.len(),
{
    if s.len() > 0 {
        lemma_attrs_err_none(s.drop_first());
    }
}

/// Splits a raw datagram into its parse tree, or reports why the bytes
/// do not frame. Bytes past the packet's own length field are ignored.
pub fn parse(data: &Vec<u8>) -> (r: Result<ParseTree, ParseError>)
    ensures
        (r is Ok) == (spec_parse(data@) is Ok),
        r matches Ok(t) ==> (spec_parse(data@) matches Ok(tv) && t@ == tv),
        r matches Err(e) ==> (spec_parse(data@) matches Err(e2) && e == e2),
{
    let n = data.len();
    if n < 20 {
        return Err(ParseError::TooShort);
    }
    let length = crate::util::u16_from_be_at(data, 2) as usize;
    if length < 20 || length > n {
        return Err(ParseError::BadLength);
    }
    let authenticator = vstd::slice::slice_to_vec(
        vstd::slice::slice_subrange(data.as_slice(), 4, 20),
    );
    let ghost ab = data@.subrange(20, length as int);
    if length == 20 {
        let t = ParseTree { code: data[0], identifier: data[1], authenticator, attributes: None };
        proof {
            assert(spec_parse(data@) matches Ok(tv) && t@ == tv);
        }
        return Ok(t);
    }
    let mut attrs: Vec<RawAttribute> = Vec::new();
    let mut i: usize = 20;
    proof {
        assert(ab.skip(0) =~= ab);
        assert(attrs@.map_values(|a: RawAttribute| a@) =~= Seq::<RawAttrView>::empty());
        match spec_parse_attrs(ab) {
            Some(rest) => {
                assert(Seq::<RawAttrView>::empty() + rest =~= rest);
            },
            None => {},
        }
    }
    while i < length
        invariant
            20 <= i <= length,
            n == data@.len(),
            20 < length <= n,
            length as int == spec_u16_from_be_bytes(data@.subrange(2, 4)) as int,
            ab == data@.subrange(20, length as int),
            ab.len() == length - 20,
            spec_parse_attrs(ab) == (match spec_parse_attrs(ab.skip(i - 20)) {
                Some(rest) => Some(attrs@.map_values(|a: RawAttribute| a@) + rest),
                None => None,
            }),
        decreases length - i,
    {
        let ghost suffix = ab.skip(i - 20);
        proof {
            assert(suffix.len() == length - i);
            assert forall|k: int| 0 <= k < suffix.len() implies suffix[k] == data@[i + k] by {
                assert(suffix[k] == ab[i - 20 + k]);
            }
        }
        if i + 1 >= length {
            return Err(ParseError::BadAttribute);
        }
        let tag = data[i];
        let l = data[i + 1] as usize;
        if l < 2 || l > length - i {
            return Err(ParseError::BadAttribute);
        }
        let value = vstd::slice::slice_to_vec(
            vstd::slice::slice_subrange(data.as_slice(), i + 2, i + l),
        );
        proof {
            assert(suffix[0] == tag && suffix[1] as int == l);
            assert(value@ =~= suffix.subrange(2, l as int));
            assert(suffix.skip(l as int) =~= ab.skip(i + l - 20));
        }
        let raw = RawAttribute { tag, value };
        attrs.push(raw);
        proof {
            let prev = attrs@.drop_last().map_values(|a: RawAttribute| a@);
            let now = attrs@.map_values(|a: RawAttribute| a@);
            assert(now =~= prev.push(attrs@.last()@));
            match spec_parse_attrs(ab.skip(i + l - 20)) {
                Some(rest) => {
                    assert(spec_parse_attrs(suffix) == Some(
                        seq![RawAttrView { tag, value: suffix.subrange(2, l as int) }] + rest,
                    ));
                    assert(prev + (seq![attrs@.last()@] + rest) =~= now + rest);
                },
                None => {
                    assert(spec_parse_attrs(suffix) is None);
                },
            }
        }
        i = i + l;
    }
    proof {
        assert(ab.skip(i - 20) =~= Seq::<u8>::empty());
        assert(spec_parse_attrs(ab) == Some(attrs@.map_values(|a: RawAttribute| a@) + Seq::<
            RawAttrView,
        >::empty()));
        assert(attrs@.map_values(|a: RawAttribute| a@) + Seq::<RawAttrView>::empty()
            =~= attrs@.map_values(|a: RawAttribute| a@));
    }
    let t = ParseTree {
        code: data[0],
        identifier: data[1],
        authenticator,
        attributes: Some(attrs),
    };
    proof {
        assert(ab.len() > 0);
        assert(spec_parse(data@) matches Ok(tv) && t@ == tv);
    }
    Ok(t)
}

/// Types a parse tree into a packet, or reports the first reason the
/// whole packet is rejected.
pub fn decode(t: ParseTree) -> (r: Result<RadiusData, DecodeError>)
    ensures
        (r is Ok) == (spec_decode(t@) is Ok),
        r matches Ok(p) ==> (spec_decode(t@) matches Ok(pv) && p@ == pv),
        r matches Err(e) ==> (spec_decode(t@) matches Err(e2) && e == e2),
{
    let ghost tv = t@;
    let ParseTree { code: code_byte, identifier, authenticator, attributes } = t;
    let code = match crate::pkt::code_of(code_byte) {
        Some(c) => c,
        None => {
            return Err(DecodeError::UnknownCode);
        },
    };
    if authenticator.len() != 16 {
        return Err(DecodeError::Malformed);
    }
    let raws: Vec<RawAttribute> = match attributes {
        Some(v) => v,
        None => Vec::new(),
    };
    let ghost rawviews = match tv.attributes {
        Some(l) => l,
        None => Seq::<RawAttrView>::empty(),
    };
    proof {
        assert(raws@.map_values(|a: RawAttribute| a@) =~= rawviews);
    }
    let n = raws.len();
    let mut acc: Vec<RadiusAttribute> = Vec::new();
    let mut i: usize = 0;
    proof {
        assert(rawviews.skip(0) =~= rawviews);
        assert(acc@.map_values(|a: RadiusAttribute| a@) =~= Seq::<AttrView>::empty());
        match spec_decode_attrs(rawviews) {
            Ok(rest) => {
                assert(Seq::<AttrView>::empty() + rest =~= rest);
            },
            Err(_) => {},
        }
    }
    while i < n
        invariant
            i <= n,
            n == raws@.len(),
            tv == t@,
            rawviews == raws@.map_values(|a: RawAttribute| a@),
            spec_code_of(tv.code) == Some(code),
            tv.identifier == identifier,
            tv.authenticator == authenticator@,
            authenticator@.len() == 16,
            rawviews == (match tv.attributes {
                Some(l) => l,
                None => Seq::<RawAttrView>::empty(),
            }),
            spec_decode_attrs(rawviews) == (match spec_decode_attrs(rawviews.skip(i as int)) {
                Ok(rest) => Ok::<Seq<AttrView>, DecodeError>(
                    acc@.map_values(|a: RadiusAttribute| a@) + rest,
                ),
                Err(e) => Err::<Seq<AttrView>, DecodeError>(e),
            }),
        decreases n - i,
    {
        let ghost suffix = rawviews.skip(i as int);
        proof {
            assert(suffix[0] == raws@[i as int]@);
            assert(suffix.drop_first() =~= rawviews.skip(i + 1));
        }
        let tag = raws[i].tag;
        let value = crate::util::clone_bytes(&raws[i].value);
        proof {
            assert(suffix[0].tag == tag && suffix[0].value == value@);
            assert(suffix.len() == n - i);
        }
        match RadiusAttribute::from_pair(tag, value) {
            Ok(a) => {
                proof {
                    assert(spec_decode_attr(suffix[0].tag, suffix[0].value) matches Ok(av) && av
                        == a@);
                }
                let ghost prev = acc@.map_values(|x: RadiusAttribute| x@);
                acc.push(a);
                proof {
                    let now = acc@.map_values(|x: RadiusAttribute| x@);
                    assert(acc@.last() == a);
                    assert(now =~= prev.push(a@));
                    match spec_decode_attrs(rawviews.skip(i + 1)) {
                        Ok(rest) => {
                            assert(spec_decode_attrs(suffix) == Ok::<Seq<AttrView>, DecodeError>(
                                seq![a@] + rest,
                            ));
                            assert(prev + (seq![a@] + rest) =~= now + rest);
                            assert(spec_decode_attrs(rawviews) == Ok::<
                                Seq<AttrView>,
                                DecodeError,
                            >(now + rest));
                        },
                        Err(e2) => {
                            assert(spec_decode_attrs(suffix) == Err::<
                                Seq<AttrView>,
                                DecodeError,
                            >(e2));
                        },
                    }
                }
                i = i + 1;
            },
            Err(e) => {
                proof {
                    assert(spec_decode_attr(suffix[0].tag, suffix[0].value) matches Err(e2) && e2
                        == e);
                    assert(spec_decode_attrs(suffix) == Err::<Seq<AttrView>, DecodeError>(e));
                    assert(spec_decode_attrs(rawviews) == Err::<Seq<AttrView>, DecodeError>(e));
                    assert(spec_decode(tv) == Err::<PacketView, DecodeError>(e));
                }
                return Err(e);
            },
        }
    }
    proof {
        assert(rawviews.skip(n as int) =~= Seq::<RawAttrView>::empty());
        assert(acc@.map_values(|a: RadiusAttribute| a@) + Seq::<AttrView>::empty() =~= acc@
            .map_values(|a: RadiusAttribute| a@));
    }
    let p = RadiusData { code, identifier, authenticator, attributes: acc };
    proof {
        assert(spec_decode(tv) matches Ok(pv) && p@ == pv);
    }
    Ok(p)
}

/// Serializes a packet to wire bytes, or reports the first size or
/// range violation; nothing is truncated silently except vendor text,
/// which its own encoder already bounds.
pub fn encode(p: &RadiusData) -> (r: Result<Vec<u8>, EncodeError>)
    ensures
        spec_packet_encodable(p@) ==> (r matches Ok(w) && w@ == spec_packet_bytes(p@)),
        !spec_packet_encodable(p@) ==> (r matches Err(e) && e == spec_encode_err(p@)),
{
    if p.authenticator.len() != 16 {
        return Err(EncodeError::InvalidAuthenticator);
    }
    let ghost attrs = p@.attributes;
    let n = p.attributes.len();
    proof {
        assert(attrs.len() == n);
    }
    let mut body: Vec<u8> = Vec::new();
    let mut i: usize = 0;
    proof {
        assert(attrs.take(0) =~= Seq::<AttrView>::empty());
    }
    while i < n
        invariant
            i <= n,
            n == p.attributes@.len(),
            attrs == p@.attributes,
            attrs.len() == n,
            p@.authenticator.len() == 16,
            forall|j: int| 0 <= j < i ==> spec_attr_encodable(#[trigger] attrs[j]),
            body@ == spec_attrs_bytes(attrs.take(i as int)),
        decreases n - i,
    {
        proof {
            assert(attrs[i as int] == p.attributes@[i as int]@);
        }
        match p.attributes[i].to_tlv_bytes() {
            Ok(mut tlv) => {
                body.append(&mut tlv);
                proof {
                    lemma_attrs_bytes_snoc(attrs.take(i as int), attrs[i as int]);
                    assert(attrs.take(i + 1) =~= attrs.take(i as int).push(attrs[i as int]));
                }
                i = i + 1;
            },
            Err(e) => {
                proof {
                    lemma_attrs_err_at(attrs, i as int);
                }
                return Err(e);
            },
        }
    }
    proof {
        assert(attrs.take(n as int) =~= attrs);
    }
    if body.len() > 65515 {
        proof {
            lemma_attrs_err_none(attrs);
        }
        return Err(EncodeError::PacketTooLong);
    }
    let total = 20 + body.len();
    let mut out: Vec<u8> = Vec::new();
    out.push(crate::pkt::code_num(p.code));
    out.push(p.identifier);
    let mut lenb = crate::util::vec_from_u16(total as u16);
    out.append(&mut lenb);
    let mut auth = crate::util::clone_bytes(&p.authenticator);
    out.append(&mut auth);
    out.append(&mut body);
    proof {
        assert(out@ =~= spec_packet_bytes(p@));
    }
    Ok(out)
}

// ------------------------------------------------------------------
// Round-trip laws.
// ------------------------------------------------------------------

/// Whether an attribute is in the exact shape that decoding produces:
/// text-bearing payloads are valid UTF-8, a CHAP hash is 16 bytes, a
/// vendor payload is decoded whenever it can be and its text fits in
/// 247 bytes of UTF-8, and an `Unknown` tag is really unknown.
pub open spec fn spec_attr_canonical(a: AttrView) -> bool {
    match a {
        AttrView::UserName(b) => valid_utf8(b),
        AttrView::FilterId(b) => valid_utf8(b),
        AttrView::CalledStationId(b) => valid_utf8(b),
        AttrView::CallingStationId(b) => valid_utf8(b),
        AttrView::ChapPassword(_, hash) => hash.len() == 16,
        AttrView::VendorSpecific(_, d) => match d {
            VsaDataView::Decoded(dv) => encode_utf8(dv.text).len() <= 247,
            VsaDataView::Encoded(b) => b.len() >= 1 && !(spec_vsa_try_decode(b) is Ok),
        },
        AttrView::Unknown(tag, _) => !spec_known_tag(tag),
        _ => true,
    }
}

/// Whether every attribute of a packet is canonical.
pub open spec fn spec_packet_canonical(p: PacketView) -> bool {
    forall|i: int| 0 <= i < p.attributes.len() ==> spec_attr_canonical(#[trigger] p.attributes[i])
}

/// Whether a tag is in the closed enumeration of typed attributes.
pub fn known_tag(tag: u8) -> (r: bool)
    ensures
        r == spec_known_tag(tag),
{
    tag == 1 || tag == 2 || tag == 3 || tag == 4 || tag == 5 || tag == 6 || tag == 7 || tag == 8
        || tag == 9 || tag == 10 || tag == 11 || tag == 12 || tag == 13 || tag == 26 || tag == 30
        || tag == 31
}

impl RadiusAttribute {
    /// Whether this attribute is in the exact shape that decoding
    /// produces, so that it survives the wire unchanged.
    pub fn is_canonical(&self) -> (r: bool)
        ensures
            r == spec_attr_canonical(self@),
    {
        match self {
            RadiusAttribute::UserName(b) => crate::pkt::utf8_check(b.as_slice()),
            RadiusAttribute::FilterId(b) => crate::pkt::utf8_check(b.as_slice()),
            RadiusAttribute::CalledStationId(b) => crate::pkt::utf8_check(b.as_slice()),
            RadiusAttribute::CallingStationId(b) => crate::pkt::utf8_check(b.as_slice()),
            RadiusAttribute::ChapPassword(_, hash) => hash.len() == 16,
            RadiusAttribute::VendorSpecific(_, d) => match d {
                VendorSpecificData::Decoded(dv) => {
                    let tb = vstd::string::StrSliceExecFns::as_bytes_vec(dv.text.as_str());
                    tb.len() <= 247
                },
                VendorSpecificData::Encoded(b) => b.len() >= 1
                    && crate::pkt::VendorSpecificDecoded::try_from_bytes(b).is_err(),
            },
            RadiusAttribute::Unknown(tag, _) => !known_tag(*tag),
            _ => true,
        }
    }
}

impl RadiusData {
    /// Whether every attribute of this packet is canonical; together
    /// with a successful `encode` this guarantees that the packet is
    /// returned unchanged by parsing and decoding its own wire bytes.
    pub fn is_canonical(&self) -> (r: bool)
        ensures
            r == spec_packet_canonical(self@),
    {
        let n = self.attributes.len();
        let mut i: usize = 0;
        while i < n
            invariant
                i <= n,
                n == self.attributes@.len(),
                forall|j: int|
                    0 <= j < i ==> spec_attr_canonical(#[trigger] self@.attributes[j]),
            decreases n - i,
        {
            proof {
                assert(self@.attributes[i as int] == self.attributes@[i as int]@);
            }
            if !self.attributes[i].is_canonical() {
                proof {
                    assert(!spec_attr_canonical(self@.attributes[i as int]));
                }
                return false;
            }
            i = i + 1;
        }
        true
    }
}

/// A numeric value that maps to a code is the numeric value of that
/// code.
pub proof fn lemma_code_of_inverse(n: u8)
    requires
        spec_code_of(n) is Some,
    ensures
        spec_code_num(spec_code_of(n)->Some_0) == n,
{
}

/// One encodable, canonical attribute decodes back from its own tag
/// and payload.
pub proof fn lemma_attr_roundtrip(a: AttrView)
    requires
        spec_attr_encodable(a),
        spec_attr_canonical(a),
    ensures
        spec_decode_attr(spec_attr_tag(a), spec_attr_payload(a)) == Ok::<AttrView, DecodeError>(a),
{
    broadcast use vstd::utf8::encode_utf8_valid_utf8;
    broadcast use vstd::utf8::encode_utf8_decode_utf8;

    let tag = spec_attr_tag(a);
    let v = spec_attr_payload(a);
    match a {
        AttrView::ChapPassword(ident, hash) => {
            assert(v[0] == ident);
            assert(v.skip(1) =~= hash);
        },
        AttrView::NasIPAddress(ip) => {
            assert(spec_ipv4_of(v) == ip);
        },
        AttrView::FramedIPAddress(ip) => {
            assert(spec_ipv4_of(v) == ip);
        },
        AttrView::FramedIPNetmask(ip) => {
            assert(spec_ipv4_of(v) == ip);
        },
        AttrView::NasPort(x) => {
            crate::util::lemma_u32_be_bytes_roundtrip(x);
        },
        AttrView::ServiceType(s) => {
            crate::util::lemma_u32_be_bytes_roundtrip(s.0);
        },
        AttrView::FramedProtocol(p) => {
            crate::util::lemma_u32_be_bytes_roundtrip(p.0);
        },
        AttrView::FramedRouting(r) => {
            crate::util::lemma_u32_be_bytes_roundtrip(r.0);
        },
        AttrView::FramedMTU(m) => {
            crate::util::lemma_u32_be_bytes_roundtrip(m);
        },
        AttrView::FramedCompression(c) => {
            crate::util::lemma_u32_be_bytes_roundtrip(c.0);
        },
        AttrView::VendorSpecific(id, d) => {
            let idb = spec_u32_to_be_bytes(id);
            let data = spec_vsa_data_bytes(d);
            assert(idb.len() == 4);
            crate::util::lemma_u32_be_bytes_roundtrip(id);
            assert(v.take(4) =~= idb);
            assert(v.skip(4) =~= data);
            match d {
                VsaDataView::Decoded(dv) => {
                    let tb = encode_utf8(dv.text);
                    assert(spec_trunc247(tb) == tb);
                    assert(data == seq![dv.vendor_type, tb.len() as u8] + tb);
                    assert(data.len() == 2 + tb.len());
                    assert(data[1] == tb.len() as u8);
                    assert(data.skip(2) =~= tb);
                    assert(valid_utf8(tb));
                    assert(decode_utf8(tb) == dv.text);
                    assert(spec_vsa_try_decode(data) matches Ok(dv2) && dv2 =~= dv);
                },
                VsaDataView::Encoded(b) => {
                    assert(data == b);
                    assert(data.len() >= 1);
                },
            }
            assert(spec_decode_attr(tag, v) == Ok::<AttrView, DecodeError>(a));
        },
        _ => {},
    }
}

/// A list of encodable, canonical attributes parses and decodes back
/// from its own concatenated TLV bytes.
pub proof fn lemma_attrs_roundtrip(s: Seq<AttrView>)
    requires
        forall|i: int| 0 <= i < s.len() ==> spec_attr_encodable(#[trigger] s[i]),
        forall|i: int| 0 <= i < s.len() ==> spec_attr_canonical(#[trigger] s[i]),
    ensures
        spec_parse_attrs(spec_attrs_bytes(s)) is Some,
        spec_decode_attrs(spec_parse_attrs(spec_attrs_bytes(s))->Some_0) == Ok::<
            Seq<AttrView>,
            DecodeError,
        >(s),
    decreases s.len(),
{
    let bytes = spec_attrs_bytes(s);
    if s.len() == 0 {
        assert(bytes =~= Seq::<u8>::empty());
        assert(spec_parse_attrs(bytes) == Some(Seq::<RawAttrView>::empty()));
        assert(spec_decode_attrs(Seq::<RawAttrView>::empty()) == Ok::<Seq<AttrView>, DecodeError>(
            Seq::<AttrView>::empty(),
        ));
        assert(Seq::<AttrView>::empty() =~= s);
    } else {
        let a = s[0];
        let tlv = spec_attr_tlv(a);
        let payload = spec_attr_payload(a);
        let rest_bytes = spec_attrs_bytes(s.drop_first());
        assert(bytes == tlv + rest_bytes);
        let l = payload.len() + 2;
        assert(tlv.len() == l);
        assert(bytes.len() == l + rest_bytes.len());
        assert(bytes[0] == spec_attr_tag(a));
        assert(bytes[1] == l as u8);
        assert(bytes[1] as int == l);
        assert(bytes.subrange(2, l as int) =~= payload);
        assert(bytes.skip(l as int) =~= rest_bytes);
        lemma_attrs_roundtrip(s.drop_first());
        let raws_rest = spec_parse_attrs(rest_bytes)->Some_0;
        let raw0 = RawAttrView { tag: bytes[0], value: bytes.subrange(2, l as int) };
        assert(spec_parse_attrs(bytes) == Some(seq![raw0] + raws_rest));
        let raws = seq![raw0] + raws_rest;
        lemma_attr_roundtrip(a);
        assert(raws[0] == raw0);
        assert(raws.drop_first() =~= raws_rest);
        assert(spec_decode_attr(raw0.tag, raw0.value) == Ok::<AttrView, DecodeError>(a));
        assert(spec_decode_attrs(raws) == Ok::<Seq<AttrView>, DecodeError>(
            seq![a] + spec_decode_attrs(raws_rest)->Ok_0,
        ));
        assert(seq![a] + s.drop_first() =~= s);
    }
}

/// A nonempty attribute list has at least 2 bytes of TLVs.
pub proof fn lemma_attrs_bytes_len(s: Seq<AttrView>)
    ensures
        s.len() == 0 ==> spec_attrs_bytes(s).len() == 0,
        s.len() > 0 ==> spec_attrs_bytes(s).len() >= 2,
{
    if s.len() > 0 {
        assert(spec_attrs_bytes(s).len() >= spec_attr_tlv(s[0]).len());
    }
}

/// Codec fidelity, packet to wire and back: every encodable, canonical
/// packet is returned unchanged by parsing and decoding its own wire
/// bytes.
pub proof fn lemma_encode_decode_roundtrip(p: PacketView)
    requires
        spec_packet_encodable(p),
        spec_packet_canonical(p),
    ensures
        spec_parse(spec_packet_bytes(p)) is Ok,
        spec_decode(spec_parse(spec_packet_bytes(p))->Ok_0) == Ok::<PacketView, DecodeError>(p),
{
    let w = spec_packet_bytes(p);
    let ab = spec_attrs_bytes(p.attributes);
    let len = spec_packet_len(p);
    assert(w.len() == len);
    assert(20 <= len <= 65535);
    assert(w[0] == spec_code_num(p.code));
    assert(w[1] == p.identifier);
    assert(w.subrange(2, 4) =~= spec_u16_to_be_bytes(len as u16));
    crate::util::lemma_u16_be_bytes_roundtrip(len as u16);
    assert(spec_u16_from_be_bytes(w.subrange(2, 4)) as int == len);
    assert(w.subrange(4, 20) =~= p.authenticator);
    assert(w.subrange(20, len) =~= ab);
    lemma_code_num_roundtrip(p.code);
    lemma_attrs_bytes_len(p.attributes);
    if ab.len() == 0 {
        let t = spec_parse(w)->Ok_0;
        assert(spec_parse(w) is Ok);
        assert(t.attributes is None);
        assert(spec_decode_attrs(Seq::<RawAttrView>::empty()) == Ok::<Seq<AttrView>, DecodeError>(
            Seq::<AttrView>::empty(),
        ));
        assert(p.attributes.len() == 0);
        assert(Seq::<AttrView>::empty() =~= p.attributes);
        assert(spec_decode(t) matches Ok(pv) && pv =~= p);
    } else {
        lemma_attrs_roundtrip(p.attributes);
        let t = spec_parse(w)->Ok_0;
        assert(spec_parse(w) is Ok);
        assert(t.attributes == Some(spec_parse_attrs(ab)->Some_0));
        assert(spec_decode(t) matches Ok(pv) && pv =~= p);
    }
}

/// One attribute pair that decodes, and whose decoded value is not an
/// out-of-range `FramedMTU`, re-encodes to exactly its own tag and
/// payload, and is encodable and canonical.
pub proof fn lemma_attr_inverse(tag: u8, v: Seq<u8>)
    requires
        spec_decode_attr(tag, v) is Ok,
        v.len() + 2 <= 255,
        spec_decode_attr(tag, v)->Ok_0 matches AttrView::FramedMTU(m) ==> 64 <= m <= 65535,
    ensures
        spec_attr_tag(spec_decode_attr(tag, v)->Ok_0) == tag,
        spec_attr_payload(spec_decode_attr(tag, v)->Ok_0) == v,
        spec_attr_encodable(spec_decode_attr(tag, v)->Ok_0),
        spec_attr_canonical(spec_decode_attr(tag, v)->Ok_0),
{
    broadcast use vstd::utf8::encode_utf8_valid_utf8;
    broadcast use vstd::utf8::decode_utf8_encode_utf8;

    let a = spec_decode_attr(tag, v)->Ok_0;
    if tag == 3 {
        assert(seq![v[0]] + v.skip(1) =~= v);
    } else if tag == 4 || tag == 8 || tag == 9 {
        assert(spec_ipv4_of(v).spec_octets() =~= v);
    } else if tag == 5 || tag == 6 || tag == 7 || tag == 10 || tag == 12 || tag == 13 {
        crate::util::lemma_u32_be_bytes_inverse(v);
    } else if tag == 26 {
        let data = v.skip(4);
        crate::util::lemma_u32_be_bytes_inverse(v.take(4));
        let id = spec_u32_from_be_bytes(v.take(4));
        assert(data.len() == v.len() - 4);
        match spec_vsa_try_decode(data) {
            Ok(dv) => {
                assert(valid_utf8(data.skip(2)));
                assert(dv.text == decode_utf8(data.skip(2)));
                assert(encode_utf8(dv.text) == data.skip(2));
                assert(data.skip(2).len() == data.len() - 2);
                assert(encode_utf8(dv.text).len() <= 247);
                assert(spec_trunc247(encode_utf8(dv.text)) == encode_utf8(dv.text));
                assert(data[1] as int == data.len() - 2);
                assert(spec_vsa_decoded_bytes(dv) =~= data);
                assert(spec_u32_to_be_bytes(id) + data =~= v);
            },
            Err(_) => {
                assert(spec_u32_to_be_bytes(id) + data =~= v);
                assert(data.len() >= 1);
            },
        }
    }
}

/// An attribute section that parses and decodes, with every decoded
/// `FramedMTU` in range, re-encodes to exactly its own bytes; all its
/// attributes are encodable and canonical.
pub proof fn lemma_attrs_inverse(bytes: Seq<u8>)
    requires
        spec_parse_attrs(bytes) is Some,
        spec_decode_attrs(spec_parse_attrs(bytes)->Some_0) is Ok,
        forall|i: int|
            0 <= i < spec_decode_attrs(spec_parse_attrs(bytes)->Some_0)->Ok_0.len() ==> (
            #[trigger] spec_decode_attrs(spec_parse_attrs(bytes)->Some_0)->Ok_0[i] matches
                AttrView::FramedMTU(m) ==> 64 <= m <= 65535),
    ensures
        forall|i: int|
            0 <= i < spec_decode_attrs(spec_parse_attrs(bytes)->Some_0)->Ok_0.len()
                ==> spec_attr_encodable(
                #[trigger] spec_decode_attrs(spec_parse_attrs(bytes)->Some_0)->Ok_0[i],
            ) && spec_attr_canonical(
                spec_decode_attrs(spec_parse_attrs(bytes)->Some_0)->Ok_0[i],
            ),
        spec_attrs_bytes(spec_decode_attrs(spec_parse_attrs(bytes)->Some_0)->Ok_0) == bytes,
    decreases bytes.len(),
{
    let raws = spec_parse_attrs(bytes)->Some_0;
    let attrs = spec_decode_attrs(raws)->Ok_0;
    if bytes.len() == 0 {
        assert(raws =~= Seq::<RawAttrView>::empty());
        assert(attrs =~= Seq::<AttrView>::empty());
        assert(spec_attrs_bytes(attrs) =~= bytes);
    } else {
        let l = bytes[1] as int;
        let raw0 = RawAttrView { tag: bytes[0], value: bytes.subrange(2, l) };
        let raws_rest = spec_parse_attrs(bytes.skip(l))->Some_0;
        assert(raws == seq![raw0] + raws_rest);
        assert(raws[0] == raw0);
        assert(raws.drop_first() =~= raws_rest);
        let a0 = spec_decode_attr(raw0.tag, raw0.value)->Ok_0;
        let rest = spec_decode_attrs(raws_rest)->Ok_0;
        assert(attrs == seq![a0] + rest);
        assert(attrs[0] == a0);
        assert(attrs.drop_first() =~= rest);
        assert(raw0.value.len() == l - 2);
        lemma_attr_inverse(raw0.tag, raw0.value);
        assert forall|i: int| 0 <= i < rest.len() implies (#[trigger] rest[i] matches
            AttrView::FramedMTU(m) ==> 64 <= m <= 65535) by {
            assert(rest[i] == attrs[i + 1]);
        }
        lemma_attrs_inverse(bytes.skip(l));
        assert(spec_attr_tlv(a0) =~= bytes.take(l));
        assert(spec_attrs_bytes(attrs) == spec_attr_tlv(a0) + spec_attrs_bytes(rest));
        assert(spec_attrs_bytes(rest) == bytes.skip(l));
        assert(bytes.take(l) + bytes.skip(l) =~= bytes);
        assert forall|i: int| 0 <= i < attrs.len() implies spec_attr_encodable(
            #[trigger] attrs[i],
        ) && spec_attr_canonical(attrs[i]) by {
            if i > 0 {
                assert(attrs[i] == rest[i - 1]);
            }
        }
    }
}

/// Codec fidelity, wire to packet and back: a datagram that parses and
/// decodes, whose length field covers exactly the datagram, and whose
/// decoded `FramedMTU` values are in range, is reproduced byte for byte
/// by re-encoding the decoded packet. In particular a packet whose
/// attribute tags are outside the closed enumeration survives decoding
/// and re-encoding losslessly.
pub proof fn lemma_decode_encode_roundtrip(w: Seq<u8>)
    requires
        spec_parse(w) is Ok,
        spec_decode(spec_parse(w)->Ok_0) is Ok,
        w.len() == spec_u16_from_be_bytes(w.subrange(2, 4)) as int,
        forall|i: int|
            0 <= i < spec_decode(spec_parse(w)->Ok_0)->Ok_0.attributes.len() ==> (
            #[trigger] spec_decode(spec_parse(w)->Ok_0)->Ok_0.attributes[i] matches
                AttrView::FramedMTU(m) ==> 64 <= m <= 65535),
    ensures
        spec_packet_encodable(spec_decode(spec_parse(w)->Ok_0)->Ok_0),
        spec_packet_canonical(spec_decode(spec_parse(w)->Ok_0)->Ok_0),
        spec_packet_bytes(spec_decode(spec_parse(w)->Ok_0)->Ok_0) == w,
{
    let t = spec_parse(w)->Ok_0;
    let p = spec_decode(t)->Ok_0;
    let length = spec_u16_from_be_bytes(w.subrange(2, 4)) as int;
    let ab = w.subrange(20, length);
    assert(length == w.len());
    assert(t.authenticator == w.subrange(4, 20));
    assert(t.authenticator.len() == 16);
    lemma_code_of_inverse(w[0]);
    assert(spec_code_num(p.code) == w[0]);
    assert(p.identifier == w[1]);
    assert(p.authenticator == t.authenticator);
    crate::util::lemma_u16_be_bytes_inverse(w.subrange(2, 4));
    if ab.len() == 0 {
        assert(t.attributes is None);
        assert(p.attributes =~= Seq::<AttrView>::empty());
        assert(spec_attrs_bytes(p.attributes) =~= Seq::<u8>::empty());
        assert(spec_packet_len(p) == 20);
        assert(length == 20);
        assert(spec_packet_bytes(p) =~= w);
    } else {
        assert(t.attributes == Some(spec_parse_attrs(ab)->Some_0));
        assert(spec_decode_attrs(spec_parse_attrs(ab)->Some_0) is Ok);
        assert(p.attributes == spec_decode_attrs(spec_parse_attrs(ab)->Some_0)->Ok_0);
        lemma_attrs_inverse(ab);
        assert(spec_attrs_bytes(p.attributes) == ab);
        assert(spec_packet_len(p) == 20 + ab.len());
        assert(spec_packet_len(p) == length);
        assert(spec_packet_len(p) <= 65535);
        assert(spec_packet_bytes(p) =~= w);
    }
}

} // verus!
