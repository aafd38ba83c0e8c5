//! The MAC header: frame control word, sequence number, the two
//! addresses, and the optional auxiliary security header.
//!
//! No field of the header has a fixed offset: the frame control word
//! announces which optional fields follow and how wide they are, and
//! PAN-ID compression makes the source address depend on the destination
//! decoded just before it.

use crate::address::{
    spec_addr_mode, spec_decode_address, spec_encode_address, decode_address, encode_address,
    lemma_address_round_trip, Address, PanId,
};
use crate::frame::DecodeError;
use crate::security::{
    spec_aux_wf, spec_decode_aux, spec_encode_aux, decode_aux, encode_aux, lemma_aux_round_trip,
    AuxiliarySecurityHeader,
};
use crate::wire::{lemma_subrange_of_match, read_u16_le, read_u8, write_u16_le};
use vstd::bytes::*;
use vstd::prelude::*;

verus! {

/// The 3-bit frame type. Values 4 through 7 are reserved and rejected.
#[derive(Clone, Copy, PartialEq, Eq, Hash, Debug)]
pub enum FrameType {
    /// A beacon frame.
    Beacon,
    /// A data frame.
    Data,
    /// An acknowledgement frame.
    Acknowledgement,
    /// A MAC command frame.
    MacCommand,
}

/// The 2-bit frame version. Values beyond the 2015 revision are rejected.
#[derive(Clone, Copy, PartialEq, Eq, Hash, Debug)]
pub enum FrameVersion {
    /// The 2003 revision of the standard.
    Ieee802154_2003,
    /// The 2006 revision of the standard.
    Ieee802154_2006,
    /// The 2015 revision of the standard.
    Ieee802154,
}

/// A MAC frame header.
#[derive(Clone, Copy, PartialEq, Eq, Hash, Debug)]
pub struct Header {
    /// The frame type, dispatching the content codec.
    pub frame_type: FrameType,
    /// Whether the frame is protected; must agree with the presence of
    /// `auxiliary_security_header`.
    pub security: bool,
    /// Whether the sender holds further frames for the addressee.
    pub frame_pending: bool,
    /// Whether an acknowledgement is requested.
    pub ack_request: bool,
    /// Whether the source PAN identifier is compressed away, implied
    /// equal to the destination's.
    pub pan_id_compress: bool,
    /// The revision of the standard the frame conforms to.
    pub version: FrameVersion,
    /// The sequence number.
    pub seq: u8,
    /// The destination address, if any.
    pub destination: Option<Address>,
    /// The source address, if any.
    pub source: Option<Address>,
    /// The auxiliary security header; present exactly when `security` is
    /// set.
    pub auxiliary_security_header: Option<AuxiliarySecurityHeader>,
}

/// The 3-bit value of a frame type.
pub open spec fn spec_frame_type_bits(t: FrameType) -> u8 {
    match t {
        FrameType::Beacon => 0,
        FrameType::Data => 1,
        FrameType::Acknowledgement => 2,
        FrameType::MacCommand => 3,
    }
}

/// The frame type named by a 3-bit value, if any.
pub open spec fn spec_frame_type_from_bits(b: u8) -> Option<FrameType> {
    if b == 0 {
        Option::Some(FrameType::Beacon)
    } else if b == 1 {
        Option::Some(FrameType::Data)
    } else if b == 2 {
        Option::Some(FrameType::Acknowledgement)
    } else if b == 3 {
        Option::Some(FrameType::MacCommand)
    } else {
        Option::None
    }
}

/// The 2-bit value of a frame version.
pub open spec fn spec_version_bits(v: FrameVersion) -> u8 {
    match v {
        FrameVersion::Ieee802154_2003 => 0,
        FrameVersion::Ieee802154_2006 => 1,
        FrameVersion::Ieee802154 => 2,
    }
}

/// The frame version named by a 2-bit value, if any.
pub open spec fn spec_version_from_bits(b: u8) -> Option<FrameVersion> {
    if b == 0 {
        Option::Some(FrameVersion::Ieee802154_2003)
    } else if b == 1 {
        Option::Some(FrameVersion::Ieee802154_2006)
    } else if b == 2 {
        Option::Some(FrameVersion::Ieee802154)
    } else {
        Option::None
    }
}

/// Whether PAN-ID compression actually drops the source PAN identifier:
/// the bit is set and both addresses are present.
pub open spec fn spec_compression_applies(h: Header) -> bool {
    h.pan_id_compress && h.destination is Some && h.source is Some
}

/// The 16-bit frame control word: type in bits 0..2, security 3,
/// pending 4, acknowledgement request 5, PAN-ID compression 6, bit 7
/// reserved, destination mode in bits 10..11, version in bits 12..13,
/// source mode in bits 14..15.
pub open spec fn spec_fc_word(h: Header) -> u16 {
    (spec_frame_type_bits(h.frame_type) as u16) | (if h.security {
        0x8u16
    } else {
        0
    }) | (if h.frame_pending {
        0x10u16
    } else {
        0
    }) | (if h.ack_request {
        0x20u16
    } else {
        0
    }) | (if h.pan_id_compress {
        0x40u16
    } else {
        0
    }) | ((spec_addr_mode(h.destination) as u16) << 10) | ((spec_version_bits(h.version) as u16)
        << 12) | ((spec_addr_mode(h.source) as u16) << 14)
}

/// The wire bytes of a header: control word, sequence number,
/// destination, source (PAN identifier dropped when compression
/// applies), and the auxiliary security header when security is on.
pub open spec fn spec_encode_header(h: Header) -> Seq<u8> {
    spec_u16_to_le_bytes(spec_fc_word(h)) + seq![h.seq] + spec_encode_address(h.destination, false)
        + spec_encode_address(h.source, spec_compression_applies(h)) + (if h.security {
        match h.auxiliary_security_header {
            Option::Some(a) => spec_encode_aux(a),
            Option::None => Seq::<u8>::empty(),
        }
    } else {
        Seq::<u8>::empty()
    })
}

/// A header the codec can reproduce: the security flag agrees with the
/// auxiliary header's presence, compression never strands a source
/// address without the destination it borrows its PAN identifier from,
/// and a shared PAN identifier really is shared.
pub open spec fn spec_header_wf(h: Header) -> bool {
    &&& h.security <==> h.auxiliary_security_header is Some
    &&& h.pan_id_compress && h.source is Some ==> h.destination is Some
    &&& spec_compression_applies(h) ==> h.source->Some_0.spec_pan_id()
        == h.destination->Some_0.spec_pan_id()
    &&& h.auxiliary_security_header matches Some(a) ==> spec_aux_wf(a, h.version)
}

/// What decoding a header at `pos` yields: the header and the position
/// just past it, or nothing when the bytes are malformed or short.
/// Address-mode value 1 is rejected before anything else is looked at.
pub open spec fn spec_decode_header(s: Seq<u8>, pos: int) -> Option<(Header, int)> {
    if pos + 3 > s.len() {
        Option::None
    } else {
        let fc = spec_u16_from_le_bytes(s.subrange(pos, pos + 2));
        let ft_bits = (fc & 7) as u8;
        let security = (fc >> 3) & 1 == 1;
        let frame_pending = (fc >> 4) & 1 == 1;
        let ack_request = (fc >> 5) & 1 == 1;
        let pan_id_compress = (fc >> 6) & 1 == 1;
        let dst_mode = ((fc >> 10) & 3) as u8;
        let ver_bits = ((fc >> 12) & 3) as u8;
        let src_mode = ((fc >> 14) & 3) as u8;
        if dst_mode == 1 || src_mode == 1 {
            Option::None
        } else if spec_frame_type_from_bits(ft_bits) is None {
            Option::None
        } else if spec_version_from_bits(ver_bits) is None {
            Option::None
        } else {
            let frame_type = spec_frame_type_from_bits(ft_bits)->Some_0;
            let version = spec_version_from_bits(ver_bits)->Some_0;
            match spec_decode_address(s, pos + 3, dst_mode, Option::None) {
                Option::None => Option::None,
                Option::Some((destination, p2)) => {
                    if pan_id_compress && src_mode != 0 && destination is None {
                        Option::None
                    } else {
                        let implied = if pan_id_compress && src_mode != 0 {
                            Option::Some(destination->Some_0.spec_pan_id())
                        } else {
                            Option::None
                        };
                        match spec_decode_address(s, p2, src_mode, implied) {
                            Option::None => Option::None,
                            Option::Some((source, p3)) => {
                                if security {
                                    match spec_decode_aux(s, p3, version) {
                                        Option::None => Option::None,
                                        Option::Some((aux, p4)) => Option::Some(
                                            (
                                                Header {
                                                    frame_type,
                                                    security,
                                                    frame_pending,
                                                    ack_request,
                                                    pan_id_compress,
                                                    version,
                                                    seq: s[pos + 2],
                                                    destination,
                                                    source,
                                                    auxiliary_security_header: Option::Some(aux),
                                                },
                                                p4,
                                            ),
                                        ),
                                    }
                                } else {
                                    Option::Some(
                                        (
                                            Header {
                                                frame_type,
                                                security,
                                                frame_pending,
                                                ack_request,
                                                pan_id_compress,
                                                version,
                                                seq: s[pos + 2],
                                                destination,
                                                source,
                                                auxiliary_security_header: Option::None,
                                            },
                                            p3,
                                        ),
                                    )
                                }
                            },
                        }
                    }
                },
            }
        }
    }
}

/// Returns the 2-bit address mode of `a`.
pub fn addr_mode(a: &Option<Address>) -> (m: u8)
    ensures
        m == spec_addr_mode(*a),
{
    match a {
        Option::None => 0,
        Option::Some(Address::Short(_, _)) => 2,
        Option::Some(Address::Extended(_, _)) => 3,
    }
}

impl Header {
    /// Appends the wire bytes of this header to `buf` and returns how
    /// many bytes that took.
    pub fn try_write(&self, buf: &mut Vec<u8>) -> (n: usize)
        ensures
            final(buf)@ == old(buf)@ + spec_encode_header(*self),
            n == spec_encode_header(*self).len(),
    {
        let start = buf.len();
        let dst_mode = addr_mode(&self.destination);
        let src_mode = addr_mode(&self.source);
        let ver_bits = match self.version {
            FrameVersion::Ieee802154_2003 => 0u8,
            FrameVersion::Ieee802154_2006 => 1u8,
            FrameVersion::Ieee802154 => 2u8,
        };
        let ft_bits = match self.frame_type {
            FrameType::Beacon => 0u8,
            FrameType::Data => 1u8,
            FrameType::Acknowledgement => 2u8,
            FrameType::MacCommand => 3u8,
        };
        let fc: u16 = (ft_bits as u16) | (if self.security {
            0x8u16
        } else {
            0
        }) | (if self.frame_pending {
            0x10u16
        } else {
            0
        }) | (if self.ack_request {
            0x20u16
        } else {
            0
        }) | (if self.pan_id_compress {
            0x40u16
        } else {
            0
        }) | ((dst_mode as u16) << 10) | ((ver_bits as u16) << 12) | ((src_mode as u16) << 14);
        assert(fc == spec_fc_word(*self));
        write_u16_le(buf, fc);
        buf.push(self.seq);
        encode_address(buf, &self.destination, false);
        let compression_applies = self.pan_id_compress && matches!(self.destination, Option::Some(_))
            && matches!(self.source, Option::Some(_));
        encode_address(buf, &self.source, compression_applies);
        if self.security {
            match &self.auxiliary_security_header {
                Option::Some(a) => encode_aux(buf, a),
                Option::None => {},
            }
        }
        assert(buf@ =~= old(buf)@ + spec_encode_header(*self));
        buf.len() - start
    }

    /// Decodes a header at `pos`, mirroring [`spec_decode_header`]. An
    /// address-mode field holding the reserved value 1 is reported as
    /// `InvalidAddressMode(1)` whatever the rest of the control word
    /// says.
    pub fn try_read(bytes: &[u8], pos: usize) -> (r: Result<(Header, usize), DecodeError>)
        requires
            pos <= bytes@.len(),
        ensures
            match r {
                Ok((h, end)) => {
                    &&& spec_decode_header(bytes@, pos as int) == Option::Some((h, end as int))
                    &&& pos <= end <= bytes@.len()
                    &&& h.security <==> h.auxiliary_security_header is Some
                },
                Err(e) => spec_decode_header(bytes@, pos as int) is None,
            },
            pos + 2 <= bytes@.len() && {
                let fc = spec_u16_from_le_bytes(bytes@.subrange(pos as int, pos + 2));
                ((fc >> 10) & 3) == 1 || ((fc >> 14) & 3) == 1
            } ==> r == Result::<(Header, usize), DecodeError>::Err(
                DecodeError::InvalidAddressMode(1),
            ),
            pos + 3 <= bytes@.len() ==> {
                let fc = spec_u16_from_le_bytes(bytes@.subrange(pos as int, pos + 2));
                let ft = (fc & 7) as u8;
                let vr = ((fc >> 12) & 3) as u8;
                let modes_ok = ((fc >> 10) & 3) != 1 && ((fc >> 14) & 3) != 1;
                &&& (modes_ok && ft > 3 ==> r == Result::<(Header, usize), DecodeError>::Err(
                    DecodeError::InvalidFrameType(ft),
                ))
                &&& (modes_ok && ft <= 3 && vr == 3 ==> r == Result::<
                    (Header, usize),
                    DecodeError,
                >::Err(DecodeError::InvalidFrameVersion(vr)))
            },
    {
        let n: usize = bytes.len();
        if n - pos < 3 {
            if n - pos < 2 {
                return Err(DecodeError::NotEnoughBytes);
            }
            // The control word is there: report its address modes first.
            let fc = read_u16_le(bytes, pos);
            let dst_mode = ((fc >> 10) & 3) as u8;
            let src_mode = ((fc >> 14) & 3) as u8;
            if dst_mode == 1 || src_mode == 1 {
                return Err(DecodeError::InvalidAddressMode(1));
            }
            return Err(DecodeError::NotEnoughBytes);
        }
        let fc = read_u16_le(bytes, pos);
        let ft_bits = (fc & 7) as u8;
        let security = (fc >> 3) & 1 == 1;
        let frame_pending = (fc >> 4) & 1 == 1;
        let ack_request = (fc >> 5) & 1 == 1;
        let pan_id_compress = (fc >> 6) & 1 == 1;
        let dst_mode = ((fc >> 10) & 3) as u8;
        let ver_bits = ((fc >> 12) & 3) as u8;
        let src_mode = ((fc >> 14) & 3) as u8;
        proof {
            assert(((fc >> 10) & 3) < 4 && ((fc >> 14) & 3) < 4) by (bit_vector);
        }
        if dst_mode == 1 || src_mode == 1 {
            return Err(DecodeError::InvalidAddressMode(1));
        }
        let frame_type = if ft_bits == 0 {
            FrameType::Beacon
        } else if ft_bits == 1 {
            FrameType::Data
        } else if ft_bits == 2 {
            FrameType::Acknowledgement
        } else if ft_bits == 3 {
            FrameType::MacCommand
        } else {
            return Err(DecodeError::InvalidFrameType(ft_bits));
        };
        let version = if ver_bits == 0 {
            FrameVersion::Ieee802154_2003
        } else if ver_bits == 1 {
            FrameVersion::Ieee802154_2006
        } else if ver_bits == 2 {
            FrameVersion::Ieee802154
        } else {
            return Err(DecodeError::InvalidFrameVersion(ver_bits));
        };
        let seq_no = read_u8(bytes, pos + 2);
        let (destination, p2) = match decode_address(bytes, pos + 3, dst_mode, None) {
            Ok(d) => d,
            Err(e) => {
                return Err(e);
            },
        };
        let implied: Option<PanId> = if pan_id_compress && src_mode != 0 {
            match &destination {
                Some(d) => Some(d.pan_id()),
                None => {
                    return Err(DecodeError::InvalidAddressMode(0));
                },
            }
        } else {
            None
        };
        let (source, p3) = match decode_address(bytes, p2, src_mode, implied) {
            Ok(sa) => sa,
            Err(e) => {
                return Err(e);
            },
        };
        if security {
            let (aux, p4) = match decode_aux(bytes, p3, version) {
                Ok(a) => a,
                Err(e) => {
                    return Err(e);
                },
            };
            Ok((
                Header {
                    frame_type,
                    security,
                    frame_pending,
                    ack_request,
                    pan_id_compress,
                    version,
                    seq: seq_no,
                    destination,
                    source,
                    auxiliary_security_header: Some(aux),
                },
                p4,
            ))
        } else {
            Ok((
                Header {
                    frame_type,
                    security,
                    frame_pending,
                    ack_request,
                    pan_id_compress,
                    version,
                    seq: seq_no,
                    destination,
                    source,
                    auxiliary_security_header: None,
                },
                p3,
            ))
        }
    }
}

/// The control word's packed fields come back out unharmed.
proof fn lemma_fc_unpack(ft: u16, se: u16, pe: u16, ak: u16, co: u16, dm: u16, vr: u16, sm: u16)
    by (bit_vector)
    requires
        ft < 8,
        se < 2,
        pe < 2,
        ak < 2,
        co < 2,
        dm < 4,
        vr < 4,
        sm < 4,
    ensures
        (ft | (se << 3) | (pe << 4) | (ak << 5) | (co << 6) | (dm << 10) | (vr << 12) | (sm << 14))
            & 7 == ft,
        ((ft | (se << 3) | (pe << 4) | (ak << 5) | (co << 6) | (dm << 10) | (vr << 12) | (sm
            << 14)) >> 3) & 1 == se,
        ((ft | (se << 3) | (pe << 4) | (ak << 5) | (co << 6) | (dm << 10) | (vr << 12) | (sm
            << 14)) >> 4) & 1 == pe,
        ((ft | (se << 3) | (pe << 4) | (ak << 5) | (co << 6) | (dm << 10) | (vr << 12) | (sm
            << 14)) >> 5) & 1 == ak,
        ((ft | (se << 3) | (pe << 4) | (ak << 5) | (co << 6) | (dm << 10) | (vr << 12) | (sm
            << 14)) >> 6) & 1 == co,
        ((ft | (se << 3) | (pe << 4) | (ak << 5) | (co << 6) | (dm << 10) | (vr << 12) | (sm
            << 14)) >> 10) & 3 == dm,
        ((ft | (se << 3) | (pe << 4) | (ak << 5) | (co << 6) | (dm << 10) | (vr << 12) | (sm
            << 14)) >> 12) & 3 == vr,
        ((ft | (se << 3) | (pe << 4) | (ak << 5) | (co << 6) | (dm << 10) | (vr << 12) | (sm
            << 14)) >> 14) & 3 == sm,
{
}

/// The frame control word of `h`, written as shifted fields.
proof fn lemma_fc_word_fields(h: Header)
    ensures
        spec_fc_word(h) == (spec_frame_type_bits(h.frame_type) as u16) | ((if h.security {
            1u16
        } else {
            0
        }) << 3) | ((if h.frame_pending {
            1u16
        } else {
            0
        }) << 4) | ((if h.ack_request {
            1u16
        } else {
            0
        }) << 5) | ((if h.pan_id_compress {
            1u16
        } else {
            0
        }) << 6) | ((spec_addr_mode(h.destination) as u16) << 10) | ((spec_version_bits(h.version)
            as u16) << 12) | ((spec_addr_mode(h.source) as u16) << 14),
{
    assert((1u16 << 3) == 0x8 && (1u16 << 4) == 0x10 && (1u16 << 5) == 0x20 && (1u16 << 6) == 0x40)
        by (bit_vector);
    assert((0u16 << 3) == 0 && (0u16 << 4) == 0 && (0u16 << 5) == 0 && (0u16 << 6) == 0)
        by (bit_vector);
}

/// Decoding reverses encoding: the bytes of a well-formed header decode
/// back to that header, consuming exactly its encoding.
#[verifier::rlimit(100)]
#[verifier::spinoff_prover]
pub proof fn lemma_header_round_trip(s: Seq<u8>, pos: int, h: Header)
    requires
        0 <= pos,
        pos + spec_encode_header(h).len() <= s.len(),
        s.subrange(pos, pos + spec_encode_header(h).len()) == spec_encode_header(h),
        spec_header_wf(h),
    ensures
        spec_decode_header(s, pos) == Option::Some((h, pos + spec_encode_header(h).len())),
{
    lemma_auto_spec_u16_to_from_le_bytes();
    let e = spec_encode_header(h);
    let fc = spec_fc_word(h);
    let ft = spec_frame_type_bits(h.frame_type) as u16;
    let se: u16 = if h.security {
        1
    } else {
        0
    };
    let pe: u16 = if h.frame_pending {
        1
    } else {
        0
    };
    let ak: u16 = if h.ack_request {
        1
    } else {
        0
    };
    let co: u16 = if h.pan_id_compress {
        1
    } else {
        0
    };
    let dm = spec_addr_mode(h.destination) as u16;
    let vr = spec_version_bits(h.version) as u16;
    let sm = spec_addr_mode(h.source) as u16;
    lemma_fc_word_fields(h);
    lemma_fc_unpack(ft, se, pe, ak, co, dm, vr, sm);
    let dlen = spec_encode_address(h.destination, false).len() as int;
    let slen = spec_encode_address(h.source, spec_compression_applies(h)).len() as int;
    let alen = (if h.security {
        match h.auxiliary_security_header {
            Option::Some(a) => spec_encode_aux(a),
            Option::None => Seq::<u8>::empty(),
        }
    } else {
        Seq::<u8>::empty()
    }).len() as int;
    assert(e.len() == 3 + dlen + slen + alen);
    // The control word and the sequence number.
    lemma_subrange_of_match(s, pos, e, 0, 2);
    assert(e.subrange(0, 2) =~= spec_u16_to_le_bytes(fc));
    assert(spec_u16_from_le_bytes(s.subrange(pos, pos + 2)) == fc);
    assert(s[pos + 2] == e[2]) by {
        assert(s.subrange(pos, pos + e.len())[2] == s[pos + 2]);
    }
    assert(e[2] == h.seq);
    // The destination address.
    lemma_subrange_of_match(s, pos, e, 3, 3 + dlen);
    assert(e.subrange(3, 3 + dlen) =~= spec_encode_address(h.destination, false));
    lemma_address_round_trip(s, pos + 3, h.destination, false, Option::None);
    // The source address.
    let p2 = pos + 3 + dlen;
    let omit = spec_compression_applies(h);
    let implied = if h.pan_id_compress && sm != 0 {
        Option::Some(h.destination->Some_0.spec_pan_id())
    } else {
        Option::<PanId>::None
    };
    lemma_subrange_of_match(s, pos, e, 3 + dlen, 3 + dlen + slen);
    assert(e.subrange(3 + dlen, 3 + dlen + slen) =~= spec_encode_address(h.source, omit));
    if h.source is Some && omit {
        assert(implied == Option::Some(h.source->Some_0.spec_pan_id()));
    }
    lemma_address_round_trip(s, p2, h.source, omit, implied);
    // The auxiliary security header.
    let p3 = p2 + slen;
    if h.security {
        let a = h.auxiliary_security_header->Some_0;
        lemma_subrange_of_match(s, pos, e, 3 + dlen + slen, e.len() as int);
        assert(e.subrange(3 + dlen + slen, e.len() as int) =~= spec_encode_aux(a));
        lemma_aux_round_trip(s, p3, a, h.version);
    }
    assert(spec_decode_header(s, pos) == Option::Some((h, pos + e.len())));
}

} // verus!
