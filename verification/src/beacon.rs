//! The beacon frame body: superframe specification, guaranteed-time-slot
//! information and pending-address summary.
//!
//! Only beacons whose guaranteed-time-slot list and pending-address list
//! are empty are modelled; a beacon carrying either list is reported as
//! an invalid value. The superframe specification is carried in full.

use crate::frame::DecodeError;
use crate::wire::{lemma_subrange_of_match, read_u16_le, read_u8, write_u16_le};
use vstd::bytes::*;
use vstd::prelude::*;

verus! {

/// How often beacons are sent: an exponent from 0 to 14, or on demand.
#[derive(Clone, Copy, PartialEq, Eq, Hash, Debug)]
pub enum BeaconOrder {
    /// Beacons are sent every `base_superframe_duration * 2^n` symbols,
    /// with `n` below 15.
    BeaconOrder(u8),
    /// Beacons are sent only when asked for.
    OnDemand,
}

/// The active portion of the superframe: an exponent from 0 to 14, or an
/// inactive superframe.
#[derive(Clone, Copy, PartialEq, Eq, Hash, Debug)]
pub enum SuperframeOrder {
    /// The superframe is active for `base_superframe_duration * 2^n`
    /// symbols, with `n` below 15.
    SuperframeOrder(u8),
    /// The superframe is inactive after the beacon.
    Inactive,
}

/// The 2-byte superframe specification sent in every beacon.
#[derive(Clone, Copy, PartialEq, Eq, Hash, Debug)]
pub struct SuperframeSpecification {
    /// How often beacons are sent.
    pub beacon_order: BeaconOrder,
    /// How long the superframe stays active.
    pub superframe_order: SuperframeOrder,
    /// The last superframe slot of the contention-access period, below
    /// 16.
    pub final_cap_slot: u8,
    /// Whether the beaconing device switches its receiver off to save
    /// battery.
    pub battery_life_extension: bool,
    /// Whether the beacon comes from the PAN coordinator.
    pub pan_coordinator: bool,
    /// Whether the coordinator accepts association requests.
    pub association_permit: bool,
}

/// Guaranteed-time-slot information. Only the empty slot list is
/// modelled; the permit flag is carried.
#[derive(Clone, Copy, PartialEq, Eq, Hash, Debug)]
pub struct GuaranteedTimeSlotInformation {
    /// Whether the coordinator accepts guaranteed-time-slot requests.
    pub permit: bool,
}

impl GuaranteedTimeSlotInformation {
    /// Empty slot information: no slots, requests not accepted.
    pub fn new() -> (r: Self)
        ensures
            r == (GuaranteedTimeSlotInformation { permit: false }),
    {
        GuaranteedTimeSlotInformation { permit: false }
    }
}

/// The pending-address summary. Only the empty summary is modelled:
/// both address counts are zero.
#[derive(Clone, Copy, PartialEq, Eq, Hash, Debug)]
pub struct PendingAddress {}

impl PendingAddress {
    /// An empty summary: no short and no extended addresses pending.
    pub fn new() -> (r: Self)
        ensures
            r == (PendingAddress {  }),
    {
        PendingAddress {  }
    }
}

/// A beacon frame body.
#[derive(Clone, Copy, PartialEq, Eq, Hash, Debug)]
pub struct Beacon {
    /// The superframe specification.
    pub superframe_spec: SuperframeSpecification,
    /// The guaranteed-time-slot information.
    pub guaranteed_time_slot_info: GuaranteedTimeSlotInformation,
    /// The pending-address summary.
    pub pending_address: PendingAddress,
}

/// The 4-bit value of a beacon order.
pub open spec fn spec_beacon_order_bits(b: BeaconOrder) -> u8 {
    match b {
        BeaconOrder::BeaconOrder(n) => n,
        BeaconOrder::OnDemand => 15,
    }
}

/// The 4-bit value of a superframe order.
pub open spec fn spec_superframe_order_bits(o: SuperframeOrder) -> u8 {
    match o {
        SuperframeOrder::SuperframeOrder(n) => n,
        SuperframeOrder::Inactive => 15,
    }
}

/// A representable beacon: exponents below 15 (15 itself is spelled
/// `OnDemand` or `Inactive`) and a final CAP slot below 16.
pub open spec fn spec_beacon_wf(b: Beacon) -> bool {
    &&& (b.superframe_spec.beacon_order matches BeaconOrder::BeaconOrder(n) ==> n < 15)
    &&& (b.superframe_spec.superframe_order matches SuperframeOrder::SuperframeOrder(n) ==> n < 15)
    &&& b.superframe_spec.final_cap_slot < 16
}

/// The 16-bit superframe specification word: beacon order in bits 0..3,
/// superframe order in bits 4..7, final CAP slot in bits 8..11, battery
/// life extension 12, PAN coordinator 14, association permit 15.
pub open spec fn spec_superframe_word(s: SuperframeSpecification) -> u16 {
    (spec_beacon_order_bits(s.beacon_order) as u16) | ((spec_superframe_order_bits(
        s.superframe_order,
    ) as u16) << 4) | ((s.final_cap_slot as u16) << 8) | (if s.battery_life_extension {
        0x1000u16
    } else {
        0
    }) | (if s.pan_coordinator {
        0x4000u16
    } else {
        0
    }) | (if s.association_permit {
        0x8000u16
    } else {
        0
    })
}

/// The guaranteed-time-slot byte: slot count zero, permit flag in bit 7.
pub open spec fn spec_gts_byte(g: GuaranteedTimeSlotInformation) -> u8 {
    if g.permit {
        0x80u8
    } else {
        0u8
    }
}

/// The wire bytes of a beacon body: superframe word, guaranteed-time-slot
/// byte, pending-address byte.
pub open spec fn spec_encode_beacon(b: Beacon) -> Seq<u8> {
    spec_u16_to_le_bytes(spec_superframe_word(b.superframe_spec)) + seq![
        spec_gts_byte(b.guaranteed_time_slot_info),
        0u8,
    ]
}

/// What decoding a beacon body at `pos` yields. A nonzero slot count or
/// pending-address count is not modelled and decodes to nothing.
pub open spec fn spec_decode_beacon(s: Seq<u8>, pos: int) -> Option<(Beacon, int)> {
    if pos + 4 > s.len() {
        Option::None
    } else {
        let w = spec_u16_from_le_bytes(s.subrange(pos, pos + 2));
        let gts = s[pos + 2];
        let pa = s[pos + 3];
        if (gts & 7) != 0 || (pa & 7) != 0 || ((pa >> 4) & 7) != 0 {
            Option::None
        } else {
            let bo = (w & 0xf) as u8;
            let so = ((w >> 4) & 0xf) as u8;
            Option::Some(
                (
                    Beacon {
                        superframe_spec: SuperframeSpecification {
                            beacon_order: if bo == 15 {
                                BeaconOrder::OnDemand
                            } else {
                                BeaconOrder::BeaconOrder(bo)
                            },
                            superframe_order: if so == 15 {
                                SuperframeOrder::Inactive
                            } else {
                                SuperframeOrder::SuperframeOrder(so)
                            },
                            final_cap_slot: ((w >> 8) & 0xf) as u8,
                            battery_life_extension: (w >> 12) & 1 == 1,
                            pan_coordinator: (w >> 14) & 1 == 1,
                            association_permit: (w >> 15) & 1 == 1,
                        },
                        guaranteed_time_slot_info: GuaranteedTimeSlotInformation {
                            permit: (gts >> 7) & 1 == 1,
                        },
                        pending_address: PendingAddress {  },
                    },
                    pos + 4,
                ),
            )
        }
    }
}

impl Beacon {
    /// Appends the wire bytes of this beacon body to `buf`.
    pub fn try_write(&self, buf: &mut Vec<u8>) -> (n: usize)
        ensures
            final(buf)@ == old(buf)@ + spec_encode_beacon(*self),
            n == spec_encode_beacon(*self).len(),
    {
        let s = &self.superframe_spec;
        let bo: u8 = match s.beacon_order {
            BeaconOrder::BeaconOrder(n) => n,
            BeaconOrder::OnDemand => 15,
        };
        let so: u8 = match s.superframe_order {
            SuperframeOrder::SuperframeOrder(n) => n,
            SuperframeOrder::Inactive => 15,
        };
        let w: u16 = (bo as u16) | ((so as u16) << 4) | ((s.final_cap_slot as u16) << 8) | (
        if s.battery_life_extension {
            0x1000u16
        } else {
            0
        }) | (if s.pan_coordinator {
            0x4000u16
        } else {
            0
        }) | (if s.association_permit {
            0x8000u16
        } else {
            0
        });
        proof {
            lemma_auto_spec_u16_to_from_le_bytes();
        }
        write_u16_le(buf, w);
        buf.push(
            if self.guaranteed_time_slot_info.permit {
                0x80u8
            } else {
                0u8
            },
        );
        buf.push(0u8);
        assert(buf@ =~= old(buf)@ + spec_encode_beacon(*self));
        4
    }

    /// Decodes a beacon body at `pos`, mirroring [`spec_decode_beacon`].
    pub fn try_read(bytes: &[u8], pos: usize) -> (r: Result<(Beacon, usize), DecodeError>)
        requires
            pos <= bytes@.len(),
        ensures
            match r {
                Ok((b, end)) => {
                    &&& spec_decode_beacon(bytes@, pos as int) == Option::Some((b, end as int))
                    &&& pos <= end <= bytes@.len()
                },
                Err(e) => spec_decode_beacon(bytes@, pos as int) is None,
            },
    {
        let n: usize = bytes.len();
        if n - pos < 4 {
            return Err(DecodeError::NotEnoughBytes);
        }
        let w = read_u16_le(bytes, pos);
        let gts = read_u8(bytes, pos + 2);
        let pa = read_u8(bytes, pos + 3);
        if (gts & 7) != 0 || (pa & 7) != 0 || ((pa >> 4) & 7) != 0 {
            return Err(DecodeError::InvalidValue);
        }
        let bo = (w & 0xf) as u8;
        let so = ((w >> 4) & 0xf) as u8;
        Ok((
            Beacon {
                superframe_spec: SuperframeSpecification {
                    beacon_order: if bo == 15 {
                        BeaconOrder::OnDemand
                    } else {
                        BeaconOrder::BeaconOrder(bo)
                    },
                    superframe_order: if so == 15 {
                        SuperframeOrder::Inactive
                    } else {
                        SuperframeOrder::SuperframeOrder(so)
                    },
                    final_cap_slot: ((w >> 8) & 0xf) as u8,
                    battery_life_extension: (w >> 12) & 1 == 1,
                    pan_coordinator: (w >> 14) & 1 == 1,
                    association_permit: (w >> 15) & 1 == 1,
                },
                guaranteed_time_slot_info: GuaranteedTimeSlotInformation {
                    permit: (gts >> 7) & 1 == 1,
                },
                pending_address: PendingAddress {  },
            },
            pos + 4,
        ))
    }
}

/// The superframe word's packed fields come back out unharmed.
proof fn lemma_superframe_unpack(bo: u16, so: u16, fc: u16, bl: u16, pc: u16, ap: u16)
    by (bit_vector)
    requires
        bo < 16,
        so < 16,
        fc < 16,
        bl < 2,
        pc < 2,
        ap < 2,
    ensures
        (bo | (so << 4) | (fc << 8) | (bl << 12) | (pc << 14) | (ap << 15)) & 0xf == bo,
        ((bo | (so << 4) | (fc << 8) | (bl << 12) | (pc << 14) | (ap << 15)) >> 4) & 0xf == so,
        ((bo | (so << 4) | (fc << 8) | (bl << 12) | (pc << 14) | (ap << 15)) >> 8) & 0xf == fc,
        ((bo | (so << 4) | (fc << 8) | (bl << 12) | (pc << 14) | (ap << 15)) >> 12) & 1 == bl,
        ((bo | (so << 4) | (fc << 8) | (bl << 12) | (pc << 14) | (ap << 15)) >> 14) & 1 == pc,
        ((bo | (so << 4) | (fc << 8) | (bl << 12) | (pc << 14) | (ap << 15)) >> 15) & 1 == ap,
{
}

/// Decoding reverses encoding for a well-formed beacon body.
pub proof fn lemma_beacon_round_trip(s: Seq<u8>, pos: int, b: Beacon)
    requires
        0 <= pos,
        pos + spec_encode_beacon(b).len() <= s.len(),
        s.subrange(pos, pos + spec_encode_beacon(b).len()) == spec_encode_beacon(b),
        spec_beacon_wf(b),
    ensures
        spec_decode_beacon(s, pos) == Option::Some((b, pos + spec_encode_beacon(b).len())),
{
    lemma_auto_spec_u16_to_from_le_bytes();
    let e = spec_encode_beacon(b);
    let sf = b.superframe_spec;
    let w = spec_superframe_word(sf);
    let bo = spec_beacon_order_bits(sf.beacon_order) as u16;
    let so = spec_superframe_order_bits(sf.superframe_order) as u16;
    let fc = sf.final_cap_slot as u16;
    let bl: u16 = if sf.battery_life_extension {
        1
    } else {
        0
    };
    let pc: u16 = if sf.pan_coordinator {
        1
    } else {
        0
    };
    let ap: u16 = if sf.association_permit {
        1
    } else {
        0
    };
    assert(w == (bo | (so << 4) | (fc << 8) | (bl << 12) | (pc << 14) | (ap << 15))) by {
        assert((1u16 << 12) == 0x1000 && (1u16 << 14) == 0x4000 && (1u16 << 15) == 0x8000 && (0u16
            << 12) == 0 && (0u16 << 14) == 0 && (0u16 << 15) == 0) by (bit_vector);
    }
    lemma_superframe_unpack(bo, so, fc, bl, pc, ap);
    assert(e.len() == 4);
    lemma_subrange_of_match(s, pos, e, 0, 2);
    assert(e.subrange(0, 2) =~= spec_u16_to_le_bytes(w));
    assert(s[pos + 2] == e[2] && s[pos + 3] == e[3]) by {
        assert(s.subrange(pos, pos + e.len())[2] == s[pos + 2]);
        assert(s.subrange(pos, pos + e.len())[3] == s[pos + 3]);
    }
    if b.guaranteed_time_slot_info.permit {
        assert((0x80u8 & 7) == 0 && ((0x80u8 >> 7) & 1) == 1) by (bit_vector);
    } else {
        assert((0u8 & 7) == 0 && ((0u8 >> 7) & 1) == 0) by (bit_vector);
    }
    assert((0u8 & 7) == 0 && ((0u8 >> 4) & 7) == 0) by (bit_vector);
}

} // verus!
