//! PAN identifiers and device addresses, with their wire encoding.
//!
//! On the wire an address is the 2-byte little-endian PAN identifier
//! followed by a 2-byte short or 8-byte extended device address. The PAN
//! identifier of the source address is omitted when PAN-ID compression
//! applies, in which case the decoder reuses the destination's.

use crate::frame::DecodeError;
use crate::wire::{lemma_subrange_of_match, read_u16_le, read_u64_le, write_u16_le, write_u64_le};
use vstd::bytes::*;
use vstd::prelude::*;

verus! {

/// A 16-bit identifier of a personal area network.
#[derive(Clone, Copy, PartialEq, Eq, Hash, Debug)]
pub struct PanId(pub u16);

/// A 16-bit short device address.
#[derive(Clone, Copy, PartialEq, Eq, Hash, Debug)]
pub struct ShortAddress(pub u16);

/// A 64-bit extended device address.
#[derive(Clone, Copy, PartialEq, Eq, Hash, Debug)]
pub struct ExtendedAddress(pub u64);

/// A destination or source address: a PAN identifier together with either
/// a short or an extended device address.
#[derive(Clone, Copy, PartialEq, Eq, Hash, Debug)]
pub enum Address {
    /// PAN identifier and 16-bit address.
    Short(PanId, ShortAddress),
    /// PAN identifier and 64-bit address.
    Extended(PanId, ExtendedAddress),
}

impl Address {
    /// The PAN identifier of this address.
    pub open spec fn spec_pan_id(self) -> PanId {
        match self {
            Address::Short(p, _) => p,
            Address::Extended(p, _) => p,
        }
    }

    /// Returns the PAN identifier of this address.
    pub fn pan_id(&self) -> (p: PanId)
        ensures
            p == self.spec_pan_id(),
    {
        match self {
            Address::Short(p, _) => *p,
            Address::Extended(p, _) => *p,
        }
    }
}

/// The 2-bit address-mode field that announces an optional address:
/// 0 for absent, 2 for short, 3 for extended. (Mode 1 is reserved and
/// never produced.)
pub open spec fn spec_addr_mode(a: Option<Address>) -> u8 {
    match a {
        Option::None => 0,
        Option::Some(Address::Short(_, _)) => 2,
        Option::Some(Address::Extended(_, _)) => 3,
    }
}

/// The wire bytes of an optional address. `omit_pan` is true when PAN-ID
/// compression suppresses the PAN identifier.
pub open spec fn spec_encode_address(a: Option<Address>, omit_pan: bool) -> Seq<u8> {
    match a {
        Option::None => Seq::empty(),
        Option::Some(Address::Short(p, sa)) => (if omit_pan {
            Seq::<u8>::empty()
        } else {
            spec_u16_to_le_bytes(p.0)
        }) + spec_u16_to_le_bytes(sa.0),
        Option::Some(Address::Extended(p, ea)) => (if omit_pan {
            Seq::<u8>::empty()
        } else {
            spec_u16_to_le_bytes(p.0)
        }) + spec_u64_to_le_bytes(ea.0),
    }
}

/// What decoding an optional address yields: the address (if any) and the
/// position just past it, or nothing when the buffer is short. `mode` must
/// be 0, 2 or 3; `implied_pan` carries the destination's PAN identifier
/// when compression suppresses the source's own.
pub open spec fn spec_decode_address(
    s: Seq<u8>,
    pos: int,
    mode: u8,
    implied_pan: Option<PanId>,
) -> Option<(Option<Address>, int)> {
    if mode == 0 {
        Option::Some((Option::None, pos))
    } else {
        let (pan, p): (PanId, int) = match implied_pan {
            Option::Some(q) => (q, pos),
            Option::None => (PanId(spec_u16_from_le_bytes(s.subrange(pos, pos + 2))), pos + 2),
        };
        if implied_pan is None && pos + 2 > s.len() {
            Option::None
        } else if mode == 2 {
            if p + 2 <= s.len() {
                Option::Some(
                    (
                        Option::Some(
                            Address::Short(
                                pan,
                                ShortAddress(spec_u16_from_le_bytes(s.subrange(p, p + 2))),
                            ),
                        ),
                        p + 2,
                    ),
                )
            } else {
                Option::None
            }
        } else {
            if p + 8 <= s.len() {
                Option::Some(
                    (
                        Option::Some(
                            Address::Extended(
                                pan,
                                ExtendedAddress(spec_u64_from_le_bytes(s.subrange(p, p + 8))),
                            ),
                        ),
                        p + 8,
                    ),
                )
            } else {
                Option::None
            }
        }
    }
}

/// Appends the wire bytes of `a` to `buf`.
pub fn encode_address(buf: &mut Vec<u8>, a: &Option<Address>, omit_pan: bool)
    ensures
        final(buf)@ == old(buf)@ + spec_encode_address(*a, omit_pan),
{
    match a {
        Option::None => {
            assert(buf@ =~= old(buf)@ + spec_encode_address(*a, omit_pan));
        },
        Option::Some(Address::Short(p, sa)) => {
            if !omit_pan {
                write_u16_le(buf, p.0);
            }
            write_u16_le(buf, sa.0);
            assert(buf@ =~= old(buf)@ + spec_encode_address(*a, omit_pan));
        },
        Option::Some(Address::Extended(p, ea)) => {
            if !omit_pan {
                write_u16_le(buf, p.0);
            }
            write_u64_le(buf, ea.0);
            assert(buf@ =~= old(buf)@ + spec_encode_address(*a, omit_pan));
        },
    }
}

/// Decodes an optional address at `pos`, mirroring [`spec_decode_address`].
pub fn decode_address(bytes: &[u8], pos: usize, mode: u8, implied_pan: Option<PanId>) -> (r: Result<
    (Option<Address>, usize),
    DecodeError,
>)
    requires
        pos <= bytes@.len(),
        mode == 0 || mode == 2 || mode == 3,
    ensures
        match r {
            Ok((a, end)) => {
                &&& spec_decode_address(bytes@, pos as int, mode, implied_pan) == Option::Some(
                    (a, end as int),
                )
                &&& pos <= end <= bytes@.len()
            },
            Err(e) => {
                &&& spec_decode_address(bytes@, pos as int, mode, implied_pan) is None
                &&& e == DecodeError::NotEnoughBytes
            },
        },
{
    if mode == 0 {
        return Ok((None, pos));
    }
    let (pan, p): (PanId, usize) = match implied_pan {
        Some(q) => (q, pos),
        None => {
            if bytes.len() - pos < 2 {
                return Err(DecodeError::NotEnoughBytes);
            }
            (PanId(read_u16_le(bytes, pos)), pos + 2)
        },
    };
    if mode == 2 {
        if bytes.len() - p < 2 {
            return Err(DecodeError::NotEnoughBytes);
        }
        let sa = ShortAddress(read_u16_le(bytes, p));
        Ok((Some(Address::Short(pan, sa)), p + 2))
    } else {
        if bytes.len() - p < 8 {
            return Err(DecodeError::NotEnoughBytes);
        }
        let ea = ExtendedAddress(read_u64_le(bytes, p));
        Ok((Some(Address::Extended(pan, ea)), p + 8))
    }
}

/// The width of an encoded address: 2 or 8 address bytes after the
/// 2-byte PAN identifier, unless the latter is omitted; nothing for an
/// absent address.
pub proof fn lemma_encode_address_len(a: Option<Address>, omit_pan: bool)
    ensures
        spec_encode_address(a, omit_pan).len() == (match a {
            Option::None => 0int,
            Option::Some(Address::Short(_, _)) => if omit_pan {
                2int
            } else {
                4int
            },
            Option::Some(Address::Extended(_, _)) => if omit_pan {
                8int
            } else {
                10int
            },
        }),
{
    lemma_auto_spec_u16_to_from_le_bytes();
    lemma_auto_spec_u64_to_from_le_bytes();
}

/// Decoding reverses encoding: if the bytes at `pos` hold the encoding of
/// `a`, decoding at `pos` returns `a` and consumes exactly that encoding.
pub proof fn lemma_address_round_trip(s: Seq<u8>, pos: int, a: Option<Address>, omit_pan: bool, implied_pan: Option<PanId>)
    requires
        0 <= pos,
        pos + spec_encode_address(a, omit_pan).len() <= s.len(),
        s.subrange(pos, pos + spec_encode_address(a, omit_pan).len()) == spec_encode_address(
            a,
            omit_pan,
        ),
        omit_pan <==> implied_pan is Some,
        a is Some && omit_pan ==> implied_pan == Option::Some(a->Some_0.spec_pan_id()),
    ensures
        spec_decode_address(s, pos, spec_addr_mode(a), implied_pan) == Option::Some(
            (a, pos + spec_encode_address(a, omit_pan).len()),
        ),
{
    lemma_auto_spec_u16_to_from_le_bytes();
    lemma_auto_spec_u64_to_from_le_bytes();
    let e = spec_encode_address(a, omit_pan);
    match a {
        Option::None => {},
        Option::Some(Address::Short(p, sa)) => {
            if omit_pan {
                lemma_subrange_of_match(s, pos, e, 0, 2);
                assert(s.subrange(pos, pos + 2) == spec_u16_to_le_bytes(sa.0)) by {
                    assert(e.subrange(0, 2) =~= spec_u16_to_le_bytes(sa.0));
                }
            } else {
                lemma_subrange_of_match(s, pos, e, 0, 2);
                lemma_subrange_of_match(s, pos, e, 2, 4);
                assert(e.subrange(0, 2) =~= spec_u16_to_le_bytes(p.0));
                assert(e.subrange(2, 4) =~= spec_u16_to_le_bytes(sa.0));
            }
        },
        Option::Some(Address::Extended(p, ea)) => {
            if omit_pan {
                lemma_subrange_of_match(s, pos, e, 0, 8);
                assert(e.subrange(0, 8) =~= spec_u64_to_le_bytes(ea.0));
            } else {
                lemma_subrange_of_match(s, pos, e, 0, 2);
                lemma_subrange_of_match(s, pos, e, 2, 10);
                assert(e.subrange(0, 2) =~= spec_u16_to_le_bytes(p.0));
                assert(e.subrange(2, 10) =~= spec_u64_to_le_bytes(ea.0));
            }
        },
    }
}

} // verus!
