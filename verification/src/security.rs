//! The auxiliary security header and the AEAD security transform.
//!
//! The auxiliary security header carries the security level, the key
//! identifier and (unless suppressed) the frame counter of a secured
//! frame. The transform itself lives in [`crate::transform`].

use crate::frame::DecodeError;
use crate::header::FrameVersion;
use crate::wire::{lemma_subrange_of_match, read_u32_le, read_u64_le, read_u8, write_u32_le, write_u64_le};
use vstd::bytes::*;
use vstd::prelude::*;

verus! {

/// The eight security levels of the standard: which length of
/// authentication tag is appended, and whether the payload is encrypted.
#[derive(Clone, Copy, PartialEq, Eq, Hash, Debug)]
pub enum SecurityLevel {
    /// No protection.
    NoSecurity,
    /// 4-byte authentication tag, payload in the clear.
    MIC32,
    /// 8-byte authentication tag, payload in the clear.
    MIC64,
    /// 16-byte authentication tag, payload in the clear.
    MIC128,
    /// Payload encrypted, no authentication tag.
    ENC,
    /// Payload encrypted, 4-byte authentication tag.
    ENCMIC32,
    /// Payload encrypted, 8-byte authentication tag.
    ENCMIC64,
    /// Payload encrypted, 16-byte authentication tag.
    ENCMIC128,
}

/// The source part of a key identifier: 4 or 8 bytes naming the key's
/// originator.
#[derive(Clone, Copy, PartialEq, Eq, Hash, Debug)]
pub enum KeySource {
    /// A 4-byte key source.
    Short(u32),
    /// An 8-byte key source.
    Long(u64),
}

/// The explicit key identifier of a secured frame: an optional key source
/// and a 1-byte key index.
#[derive(Clone, Copy, PartialEq, Eq, Hash, Debug)]
pub struct KeyIdentifier {
    /// Which device the key comes from, if named explicitly.
    pub key_source: Option<KeySource>,
    /// The index of the key among that source's keys.
    pub key_index: u8,
}

/// The auxiliary security header. The key identifier mode is not stored:
/// it is derived from the shape of `key_identifier`, exactly as the two
/// address modes are derived from the optional addresses.
#[derive(Clone, Copy, PartialEq, Eq, Hash, Debug)]
pub struct AuxiliarySecurityHeader {
    /// The protection applied to the frame.
    pub security_level: SecurityLevel,
    /// The explicit key identifier, absent in implicit-key mode.
    pub key_identifier: Option<KeyIdentifier>,
    /// The frame counter as carried on the wire. It may be suppressed
    /// (absent) only in a 2015-version frame.
    pub frame_counter: Option<u32>,
}

/// The 3-bit value of a security level.
pub open spec fn spec_level_bits(l: SecurityLevel) -> u8 {
    match l {
        SecurityLevel::NoSecurity => 0,
        SecurityLevel::MIC32 => 1,
        SecurityLevel::MIC64 => 2,
        SecurityLevel::MIC128 => 3,
        SecurityLevel::ENC => 4,
        SecurityLevel::ENCMIC32 => 5,
        SecurityLevel::ENCMIC64 => 6,
        SecurityLevel::ENCMIC128 => 7,
    }
}

/// The security level named by a 3-bit value.
pub open spec fn spec_level_from_bits(b: u8) -> SecurityLevel
    recommends
        b < 8,
{
    if b == 0 {
        SecurityLevel::NoSecurity
    } else if b == 1 {
        SecurityLevel::MIC32
    } else if b == 2 {
        SecurityLevel::MIC64
    } else if b == 3 {
        SecurityLevel::MIC128
    } else if b == 4 {
        SecurityLevel::ENC
    } else if b == 5 {
        SecurityLevel::ENCMIC32
    } else if b == 6 {
        SecurityLevel::ENCMIC64
    } else {
        SecurityLevel::ENCMIC128
    }
}

/// How many authentication-tag bytes the level appends: 0, 4, 8 or 16.
pub open spec fn spec_auth_tag_len(l: SecurityLevel) -> int {
    match l {
        SecurityLevel::NoSecurity => 0,
        SecurityLevel::MIC32 => 4,
        SecurityLevel::MIC64 => 8,
        SecurityLevel::MIC128 => 16,
        SecurityLevel::ENC => 0,
        SecurityLevel::ENCMIC32 => 4,
        SecurityLevel::ENCMIC64 => 8,
        SecurityLevel::ENCMIC128 => 16,
    }
}

/// Whether the level encrypts the payload.
pub open spec fn spec_level_encrypts(l: SecurityLevel) -> bool {
    match l {
        SecurityLevel::ENC
        | SecurityLevel::ENCMIC32
        | SecurityLevel::ENCMIC64
        | SecurityLevel::ENCMIC128 => true,
        _ => false,
    }
}

/// Returns the 3-bit value of `l`.
pub fn level_bits(l: &SecurityLevel) -> (b: u8)
    ensures
        b == spec_level_bits(*l),
{
    match l {
        SecurityLevel::NoSecurity => 0,
        SecurityLevel::MIC32 => 1,
        SecurityLevel::MIC64 => 2,
        SecurityLevel::MIC128 => 3,
        SecurityLevel::ENC => 4,
        SecurityLevel::ENCMIC32 => 5,
        SecurityLevel::ENCMIC64 => 6,
        SecurityLevel::ENCMIC128 => 7,
    }
}

/// Returns the security level named by the 3-bit value `b`.
pub fn level_from_bits(b: u8) -> (l: SecurityLevel)
    requires
        b < 8,
    ensures
        l == spec_level_from_bits(b),
{
    if b == 0 {
        SecurityLevel::NoSecurity
    } else if b == 1 {
        SecurityLevel::MIC32
    } else if b == 2 {
        SecurityLevel::MIC64
    } else if b == 3 {
        SecurityLevel::MIC128
    } else if b == 4 {
        SecurityLevel::ENC
    } else if b == 5 {
        SecurityLevel::ENCMIC32
    } else if b == 6 {
        SecurityLevel::ENCMIC64
    } else {
        SecurityLevel::ENCMIC128
    }
}

/// Returns how many authentication-tag bytes `l` appends.
pub fn auth_tag_len(l: &SecurityLevel) -> (n: usize)
    ensures
        n as int == spec_auth_tag_len(*l),
{
    match l {
        SecurityLevel::NoSecurity => 0,
        SecurityLevel::MIC32 => 4,
        SecurityLevel::MIC64 => 8,
        SecurityLevel::MIC128 => 16,
        SecurityLevel::ENC => 0,
        SecurityLevel::ENCMIC32 => 4,
        SecurityLevel::ENCMIC64 => 8,
        SecurityLevel::ENCMIC128 => 16,
    }
}

/// Returns whether `l` encrypts the payload.
pub fn level_encrypts(l: &SecurityLevel) -> (b: bool)
    ensures
        b == spec_level_encrypts(*l),
{
    match l {
        SecurityLevel::ENC
        | SecurityLevel::ENCMIC32
        | SecurityLevel::ENCMIC64
        | SecurityLevel::ENCMIC128 => true,
        _ => false,
    }
}

/// The 2-bit key identifier mode announced by the shape of the key
/// identifier: 0 implicit, 1 index only, 2 index and 4-byte source,
/// 3 index and 8-byte source.
pub open spec fn spec_key_id_mode(k: Option<KeyIdentifier>) -> u8 {
    match k {
        Option::None => 0,
        Option::Some(ki) => match ki.key_source {
            Option::None => 1,
            Option::Some(KeySource::Short(_)) => 2,
            Option::Some(KeySource::Long(_)) => 3,
        },
    }
}

/// The wire bytes of the key identifier: 0, 1, 5 or 9 bytes.
pub open spec fn spec_encode_key_id(k: Option<KeyIdentifier>) -> Seq<u8> {
    match k {
        Option::None => Seq::empty(),
        Option::Some(ki) => (match ki.key_source {
            Option::None => Seq::<u8>::empty(),
            Option::Some(KeySource::Short(v)) => spec_u32_to_le_bytes(v),
            Option::Some(KeySource::Long(v)) => spec_u64_to_le_bytes(v),
        }) + seq![ki.key_index],
    }
}

/// The wire bytes of the auxiliary security header: one control byte
/// (level in bits 0..2, key identifier mode in bits 3..4, frame counter
/// suppression in bit 5), the 4-byte little-endian frame counter unless
/// suppressed, then the key identifier.
pub open spec fn spec_encode_aux(a: AuxiliarySecurityHeader) -> Seq<u8> {
    seq![
        spec_level_bits(a.security_level) | (spec_key_id_mode(a.key_identifier) << 3) | (
        if a.frame_counter is None {
            0x20u8
        } else {
            0u8
        }),
    ] + (match a.frame_counter {
        Option::Some(c) => spec_u32_to_le_bytes(c),
        Option::None => Seq::<u8>::empty(),
    }) + spec_encode_key_id(a.key_identifier)
}

/// The whole header's length in octets: control byte, optional counter,
/// key identifier.
pub open spec fn spec_aux_octet_len(a: AuxiliarySecurityHeader) -> int {
    spec_encode_aux(a).len() as int
}

/// The counter may be suppressed only in a 2015-version frame; earlier
/// versions always carry it.
pub open spec fn spec_aux_wf(a: AuxiliarySecurityHeader, v: FrameVersion) -> bool {
    a.frame_counter is None ==> v == FrameVersion::Ieee802154
}

/// What decoding an auxiliary security header at `pos` yields. The frame
/// version decides whether the suppression bit is honoured: frames before
/// 2015 always carry the counter.
pub open spec fn spec_decode_aux(s: Seq<u8>, pos: int, v: FrameVersion) -> Option<
    (AuxiliarySecurityHeader, int),
> {
    if pos + 1 > s.len() {
        Option::None
    } else {
        let ctl = s[pos];
        let level = spec_level_from_bits(ctl & 7);
        let kim = (ctl >> 3) & 3;
        let suppressed = v == FrameVersion::Ieee802154 && ((ctl >> 5) & 1) == 1;
        let (counter, p1): (Option<u32>, int) = if suppressed {
            (Option::None, pos + 1)
        } else {
            (Option::Some(spec_u32_from_le_bytes(s.subrange(pos + 1, pos + 5))), pos + 5)
        };
        if !suppressed && pos + 5 > s.len() {
            Option::None
        } else if kim == 0 {
            Option::Some(
                (
                    AuxiliarySecurityHeader {
                        security_level: level,
                        key_identifier: Option::None,
                        frame_counter: counter,
                    },
                    p1,
                ),
            )
        } else if kim == 1 {
            if p1 + 1 <= s.len() {
                Option::Some(
                    (
                        AuxiliarySecurityHeader {
                            security_level: level,
                            key_identifier: Option::Some(
                                KeyIdentifier { key_source: Option::None, key_index: s[p1] },
                            ),
                            frame_counter: counter,
                        },
                        p1 + 1,
                    ),
                )
            } else {
                Option::None
            }
        } else if kim == 2 {
            if p1 + 5 <= s.len() {
                Option::Some(
                    (
                        AuxiliarySecurityHeader {
                            security_level: level,
                            key_identifier: Option::Some(
                                KeyIdentifier {
                                    key_source: Option::Some(
                                        KeySource::Short(
                                            spec_u32_from_le_bytes(s.subrange(p1, p1 + 4)),
                                        ),
                                    ),
                                    key_index: s[p1 + 4],
                                },
                            ),
                            frame_counter: counter,
                        },
                        p1 + 5,
                    ),
                )
            } else {
                Option::None
            }
        } else {
            if p1 + 9 <= s.len() {
                Option::Some(
                    (
                        AuxiliarySecurityHeader {
                            security_level: level,
                            key_identifier: Option::Some(
                                KeyIdentifier {
                                    key_source: Option::Some(
                                        KeySource::Long(
                                            spec_u64_from_le_bytes(s.subrange(p1, p1 + 8)),
                                        ),
                                    ),
                                    key_index: s[p1 + 8],
                                },
                            ),
                            frame_counter: counter,
                        },
                        p1 + 9,
                    ),
                )
            } else {
                Option::None
            }
        }
    }
}

/// Returns the 2-bit key identifier mode of `k`.
pub fn key_id_mode(k: &Option<KeyIdentifier>) -> (m: u8)
    ensures
        m == spec_key_id_mode(*k),
{
    match k {
        Option::None => 0,
        Option::Some(ki) => match ki.key_source {
            Option::None => 1,
            Option::Some(KeySource::Short(_)) => 2,
            Option::Some(KeySource::Long(_)) => 3,
        },
    }
}

/// Appends the wire bytes of `a` to `buf`.
pub fn encode_aux(buf: &mut Vec<u8>, a: &AuxiliarySecurityHeader)
    ensures
        final(buf)@ == old(buf)@ + spec_encode_aux(*a),
{
    let lb = level_bits(&a.security_level);
    let kim = key_id_mode(&a.key_identifier);
    let sup: u8 = match &a.frame_counter {
        Option::None => 0x20,
        Option::Some(_) => 0,
    };
    buf.push(lb | (kim << 3) | sup);
    match &a.frame_counter {
        Option::Some(c) => write_u32_le(buf, *c),
        Option::None => {},
    }
    match &a.key_identifier {
        Option::None => {},
        Option::Some(ki) => {
            match &ki.key_source {
                Option::None => {},
                Option::Some(KeySource::Short(v)) => write_u32_le(buf, *v),
                Option::Some(KeySource::Long(v)) => write_u64_le(buf, *v),
            }
            buf.push(ki.key_index);
        },
    }
    assert(buf@ =~= old(buf)@ + spec_encode_aux(*a));
}

/// Decodes an auxiliary security header at `pos`, mirroring
/// [`spec_decode_aux`].
pub fn decode_aux(bytes: &[u8], pos: usize, v: FrameVersion) -> (r: Result<
    (AuxiliarySecurityHeader, usize),
    DecodeError,
>)
    requires
        pos <= bytes@.len(),
    ensures
        match r {
            Ok((a, end)) => {
                &&& spec_decode_aux(bytes@, pos as int, v) == Option::Some((a, end as int))
                &&& pos <= end <= bytes@.len()
            },
            Err(e) => {
                &&& spec_decode_aux(bytes@, pos as int, v) is None
                &&& e == DecodeError::NotEnoughBytes
            },
        },
{
    let n: usize = bytes.len();
    if n - pos < 1 {
        return Err(DecodeError::NotEnoughBytes);
    }
    let ctl = read_u8(bytes, pos);
    proof {
        assert((ctl & 7) < 8 && ((ctl >> 3) & 3) < 4) by (bit_vector);
    }
    let level = level_from_bits(ctl & 7);
    let kim = (ctl >> 3) & 3;
    let suppressed = match v {
        FrameVersion::Ieee802154 => ((ctl >> 5) & 1) == 1,
        _ => false,
    };
    let (counter, p1): (Option<u32>, usize) = if suppressed {
        (None, pos + 1)
    } else {
        if n - pos < 5 {
            return Err(DecodeError::NotEnoughBytes);
        }
        (Some(read_u32_le(bytes, pos + 1)), pos + 5)
    };
    if kim == 0 {
        Ok((
            AuxiliarySecurityHeader {
                security_level: level,
                key_identifier: None,
                frame_counter: counter,
            },
            p1,
        ))
    } else if kim == 1 {
        if n - p1 < 1 {
            return Err(DecodeError::NotEnoughBytes);
        }
        Ok((
            AuxiliarySecurityHeader {
                security_level: level,
                key_identifier: Some(
                    KeyIdentifier { key_source: None, key_index: read_u8(bytes, p1) },
                ),
                frame_counter: counter,
            },
            p1 + 1,
        ))
    } else if kim == 2 {
        if n - p1 < 5 {
            return Err(DecodeError::NotEnoughBytes);
        }
        Ok((
            AuxiliarySecurityHeader {
                security_level: level,
                key_identifier: Some(
                    KeyIdentifier {
                        key_source: Some(KeySource::Short(read_u32_le(bytes, p1))),
                        key_index: read_u8(bytes, p1 + 4),
                    },
                ),
                frame_counter: counter,
            },
            p1 + 5,
        ))
    } else {
        if n - p1 < 9 {
            return Err(DecodeError::NotEnoughBytes);
        }
        Ok((
            AuxiliarySecurityHeader {
                security_level: level,
                key_identifier: Some(
                    KeyIdentifier {
                        key_source: Some(KeySource::Long(read_u64_le(bytes, p1))),
                        key_index: read_u8(bytes, p1 + 8),
                    },
                ),
                frame_counter: counter,
            },
            p1 + 9,
        ))
    }
}

/// The octet size of an encoded auxiliary security header: the control
/// byte, 4 counter bytes unless suppressed, and the 0, 1, 5 or 9 key
/// identifier bytes.
pub proof fn lemma_encode_aux_len(a: AuxiliarySecurityHeader)
    ensures
        spec_encode_aux(a).len() == 1 + (if a.frame_counter is Some {
            4int
        } else {
            0int
        }) + (match a.key_identifier {
            Option::None => 0int,
            Option::Some(ki) => match ki.key_source {
                Option::None => 1int,
                Option::Some(KeySource::Short(_)) => 5int,
                Option::Some(KeySource::Long(_)) => 9int,
            },
        }),
{
    lemma_auto_spec_u32_to_from_le_bytes();
    lemma_auto_spec_u64_to_from_le_bytes();
}

impl AuxiliarySecurityHeader {
    /// Returns the octet size of this header on the wire.
    pub fn get_octet_size(&self) -> (n: usize)
        ensures
            n as int == spec_aux_octet_len(*self),
    {
        proof {
            lemma_encode_aux_len(*self);
        }
        let counter: usize = match &self.frame_counter {
            Option::Some(_) => 4,
            Option::None => 0,
        };
        let kid: usize = match &self.key_identifier {
            Option::None => 0,
            Option::Some(ki) => match &ki.key_source {
                Option::None => 1,
                Option::Some(KeySource::Short(_)) => 5,
                Option::Some(KeySource::Long(_)) => 9,
            },
        };
        1 + counter + kid
    }
}

/// The control byte's three packed fields come back out unharmed.
proof fn lemma_ctl_unpack(lb: u8, kim: u8, sup: u8)
    by (bit_vector)
    requires
        lb < 8,
        kim < 4,
        sup == 0 || sup == 0x20,
    ensures
        (lb | (kim << 3) | sup) & 7 == lb,
        ((lb | (kim << 3) | sup) >> 3) & 3 == kim,
        ((lb | (kim << 3) | sup) >> 5) & 1 == (if sup == 0x20 {
            1u8
        } else {
            0u8
        }),
{
}

/// Bit values of a security level are below 8, and name the level back.
pub proof fn lemma_level_bits_small(l: SecurityLevel)
    ensures
        spec_level_bits(l) < 8,
        spec_level_from_bits(spec_level_bits(l)) == l,
{
}

/// Decoding reverses encoding: if the bytes at `pos` hold the encoding of
/// a well-formed `a`, decoding at `pos` under the same frame version
/// returns `a` and consumes exactly that encoding.
pub proof fn lemma_aux_round_trip(s: Seq<u8>, pos: int, a: AuxiliarySecurityHeader, v: FrameVersion)
    requires
        0 <= pos,
        pos + spec_encode_aux(a).len() <= s.len(),
        s.subrange(pos, pos + spec_encode_aux(a).len()) == spec_encode_aux(a),
        spec_aux_wf(a, v),
    ensures
        spec_decode_aux(s, pos, v) == Option::Some((a, pos + spec_encode_aux(a).len())),
{
    lemma_auto_spec_u32_to_from_le_bytes();
    lemma_auto_spec_u64_to_from_le_bytes();
    let e = spec_encode_aux(a);
    let lb = spec_level_bits(a.security_level);
    let kim = spec_key_id_mode(a.key_identifier);
    let sup: u8 = if a.frame_counter is None {
        0x20
    } else {
        0
    };
    lemma_level_bits_small(a.security_level);
    lemma_ctl_unpack(lb, kim, sup);
    assert(s[pos] == e[0]) by {
        assert(s.subrange(pos, pos + e.len())[0] == s[pos]);
    }
    assert(e[0] == (lb | (kim << 3) | sup));
    let csize: int = if a.frame_counter is Some {
        4
    } else {
        0
    };
    match a.frame_counter {
        Option::Some(c) => {
            lemma_subrange_of_match(s, pos, e, 1, 5);
            assert(e.subrange(1, 5) =~= spec_u32_to_le_bytes(c));
        },
        Option::None => {},
    }
    let p1 = pos + 1 + csize;
    match a.key_identifier {
        Option::None => {},
        Option::Some(ki) => {
            match ki.key_source {
                Option::None => {
                    assert(s[p1] == e[1 + csize]) by {
                        assert(s.subrange(pos, pos + e.len())[1 + csize] == s[p1]);
                    }
                    assert(e[1 + csize] == ki.key_index) by {
                        assert(spec_encode_key_id(a.key_identifier) =~= seq![ki.key_index]);
                    }
                },
                Option::Some(KeySource::Short(w)) => {
                    lemma_subrange_of_match(s, pos, e, 1 + csize, 5 + csize);
                    assert(e.subrange(1 + csize, 5 + csize) =~= spec_u32_to_le_bytes(w));
                    assert(s[p1 + 4] == e[5 + csize]) by {
                        assert(s.subrange(pos, pos + e.len())[5 + csize] == s[p1 + 4]);
                    }
                    assert(e[5 + csize] == ki.key_index);
                },
                Option::Some(KeySource::Long(w)) => {
                    lemma_subrange_of_match(s, pos, e, 1 + csize, 9 + csize);
                    assert(e.subrange(1 + csize, 9 + csize) =~= spec_u64_to_le_bytes(w));
                    assert(s[p1 + 8] == e[9 + csize]) by {
                        assert(s.subrange(pos, pos + e.len())[9 + csize] == s[p1 + 8]);
                    }
                    assert(e[9 + csize] == ki.key_index);
                },
            }
        },
    }
}

} // verus!
